//! The error code the kernel writes into every payload, and the verdict on
//! it.  The `reboot(2)` call itself, with `KSU_INSTALL_MAGIC1`,
//! `SUSFS_MAGIC`, the command number and a pointer to the payload, is made
//! by the caller.
use vstd::prelude::*;

use super::consts::ERR_CMD_NOT_SUPPORTED;
use super::types::{
    SusfsAvcLogSpoofing, SusfsCmdlineOrBootconfig, SusfsFeatures, SusfsHideSusMnts, SusfsKstat, SusfsLog,
    SusfsMap, SusfsOpenRedirect, SusfsSusPath, SusfsUname, SusfsVariant, SusfsVersion,
};
use crate::text::{decimal, decimal_string, push_char};

verus! {

/// A command ready to be sent: its number, its name for error messages,
/// and its payload.
pub struct Request<T> {
    pub cmd: u32,
    pub op_name: &'static str,
    pub payload: T,
}

/// Why a SuSFS command was not sent or failed.
#[derive(Debug)]
pub enum SusfsError {
    /// a path of `len` bytes does not fit a buffer that holds `max`
    PathTooLong { len: usize, max: usize },
    /// a uname string does not fit its field
    UnameTooLong,
    /// a file of `len` bytes does not fit a buffer that holds `max`
    FileTooLarge { len: usize, max: usize },
    /// the kernel answered the command `op_name` with the error code `err`
    Kernel { op_name: String, err: i32 },
}

/// `n` in decimal, with a `-` in front when it is negative.
pub open spec fn signed_decimal(n: int) -> Seq<char> {
    if n < 0 {
        seq!['-'] + decimal((-n) as nat)
    } else {
        decimal(n as nat)
    }
}

fn signed_decimal_string(n: i32) -> (r: String)
    ensures
        r@ == signed_decimal(n as int),
{
    if n < 0 {
        let m: i64 = -(n as i64);
        let mut s = String::new();
        push_char(&mut s, '-');
        let d = decimal_string(m as usize);
        s.append(d.as_str());
        s
    } else {
        decimal_string(n as usize)
    }
}

/// The text of an error, as the command-line tool prints it.
pub open spec fn error_message(e: SusfsError) -> Seq<char> {
    match e {
        SusfsError::PathTooLong { len, max } => "path too long ("@ + decimal(len as nat) + " bytes, max "@
            + decimal(max as nat) + ")"@,
        SusfsError::UnameTooLong => "uname string too long"@,
        SusfsError::FileTooLarge { len, max } => "file too large ("@ + decimal(len as nat) + " bytes, max "@
            + decimal(max as nat) + ")"@,
        SusfsError::Kernel { op_name, err } => op_name@ + ": kernel returned err="@ + signed_decimal(err as int),
    }
}

fn size_message(prefix: &str, len: usize, max: usize) -> (r: String)
    ensures
        r@ == prefix@ + decimal(len as nat) + " bytes, max "@ + decimal(max as nat) + ")"@,
{
    let mut s = prefix.to_owned();
    let l = decimal_string(len);
    s.append(l.as_str());
    s.append(" bytes, max ");
    let m = decimal_string(max);
    s.append(m.as_str());
    s.append(")");
    s
}

impl SusfsError {
    /// The text of the error.
    pub fn message(&self) -> (r: String)
        ensures
            r@ == error_message(*self),
    {
        match self {
            SusfsError::PathTooLong { len, max } => size_message("path too long (", *len, *max),
            SusfsError::UnameTooLong => "uname string too long".to_owned(),
            SusfsError::FileTooLarge { len, max } => size_message("file too large (", *len, *max),
            SusfsError::Kernel { op_name, err } => {
                let mut s = op_name.clone();
                s.append(": kernel returned err=");
                let e = signed_decimal_string(*err);
                s.append(e.as_str());
                s
            },
        }
    }
}

/// The kernel accepted the command: no error, or a kernel without the
/// feature (which is not treated as a failure).
pub open spec fn reply_ok(err: i32) -> bool {
    err == 0 || err == ERR_CMD_NOT_SUPPORTED
}

/// The verdict on the error code `err` that the kernel left in the payload
/// of the command `op_name`.
pub fn check_reply(err: i32, op_name: &str) -> (r: Result<(), SusfsError>)
    ensures
        r is Ok <==> reply_ok(err),
        r matches Err(e) ==> e matches SusfsError::Kernel { op_name: o, err: x } && o@ == op_name@ && x == err,
{
    if err == 0 || err == ERR_CMD_NOT_SUPPORTED {
        Ok(())
    } else {
        Err(SusfsError::Kernel { op_name: op_name.to_owned(), err })
    }
}

/// The error code of a payload.
pub trait HasErr {
    fn err(&self) -> i32;
}

impl HasErr for SusfsVersion {
    fn err(&self) -> (r: i32)
        ensures
            r == self.err,
    {
        self.err
    }
}

impl HasErr for SusfsFeatures {
    fn err(&self) -> (r: i32)
        ensures
            r == self.err,
    {
        self.err
    }
}

impl HasErr for SusfsVariant {
    fn err(&self) -> (r: i32)
        ensures
            r == self.err,
    {
        self.err
    }
}

impl HasErr for SusfsUname {
    fn err(&self) -> (r: i32)
        ensures
            r == self.err,
    {
        self.err
    }
}

impl HasErr for SusfsLog {
    fn err(&self) -> (r: i32)
        ensures
            r == self.err,
    {
        self.err
    }
}

impl HasErr for SusfsAvcLogSpoofing {
    fn err(&self) -> (r: i32)
        ensures
            r == self.err,
    {
        self.err
    }
}

impl HasErr for SusfsHideSusMnts {
    fn err(&self) -> (r: i32)
        ensures
            r == self.err,
    {
        self.err
    }
}

impl HasErr for SusfsOpenRedirect {
    fn err(&self) -> (r: i32)
        ensures
            r == self.err,
    {
        self.err
    }
}

impl HasErr for SusfsKstat {
    fn err(&self) -> (r: i32)
        ensures
            r == self.err,
    {
        self.err
    }
}

impl HasErr for SusfsMap {
    fn err(&self) -> (r: i32)
        ensures
            r == self.err,
    {
        self.err
    }
}

impl HasErr for SusfsSusPath {
    fn err(&self) -> (r: i32)
        ensures
            r == self.err,
    {
        self.err
    }
}

impl HasErr for SusfsCmdlineOrBootconfig {
    fn err(&self) -> (r: i32)
        ensures
            r == self.err,
    {
        self.err
    }
}

} // verus!
