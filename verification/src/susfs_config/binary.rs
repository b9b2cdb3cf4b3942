//! Binary on-disk format of the SuSFS Manager config.
//!
//! ```text
//! magic   : u32 LE   // 0x53555346 ("SUSF")
//! version : u32 LE   // currently 1
//! count   : u32 LE   // number of (key, value) pairs
//! for each record:
//!     key_len   : u32 LE
//!     key_data  : [u8; key_len]
//!     value_len : u32 LE
//!     value_data: [u8; value_len]
//! ```
use vstd::bytes::{spec_u32_from_le_bytes, spec_u32_to_le_bytes, u32_from_le_bytes, u32_to_le_bytes};
use vstd::prelude::*;
use vstd::slice::{slice_subrange, slice_to_vec};
use vstd::utf8::{decode_utf8, encode_utf8, valid_utf8};

use crate::susfs_config::config_map::{map_of, keys_distinct, ConfigMap};
use crate::susfs_config::json::{hex_digit, hex_lower};
use crate::text::{decimal, decimal_string, push_char, utf8_to_string};

verus! {

pub const SUSFS_CONFIG_MAGIC: u32 = 0x5355_5346;
pub const SUSFS_CONFIG_VERSION: u32 = 1;
pub const SUSFS_CONFIG_FILE: &'static str = "/data/adb/ksu/susfs_config";

/// Where the config file lives.
pub fn config_path() -> (r: &'static str)
    ensures
        r@ == SUSFS_CONFIG_FILE@,
{
    SUSFS_CONFIG_FILE
}

/// Why a config file could not be decoded.
#[derive(Debug, Clone, Copy, PartialEq, Eq, Structural)]
pub enum ConfigFormatError {
    TruncatedHeader,
    InvalidMagic(u32),
    TruncatedVersion,
    UnsupportedVersion(u32),
    TruncatedCount,
    TruncatedKeyLength,
    TruncatedKeyData,
    InvalidKeyUtf8,
    TruncatedValueLength,
    TruncatedValueData,
    InvalidValueUtf8,
}

/// The last `n` lower-case hexadecimal digits of `x`, zero-padded.
pub open spec fn hex_digits(x: nat, n: nat) -> Seq<char>
    decreases n,
{
    if n == 0 {
        Seq::empty()
    } else {
        hex_digits(x / 16, (n - 1) as nat).push(hex_lower((x % 16) as int))
    }
}

fn hex_digits_string(x: u32, n: usize) -> (r: Vec<char>)
    ensures
        r@ == hex_digits(x as nat, n as nat),
    decreases n,
{
    if n == 0 {
        Vec::new()
    } else {
        let mut r = hex_digits_string(x / 16, n - 1);
        r.push(hex_digit(x % 16));
        r
    }
}

/// The text of a decoding error, as the command-line tool prints it.
pub open spec fn format_error_message(e: ConfigFormatError) -> Seq<char> {
    match e {
        ConfigFormatError::TruncatedHeader => "Truncated header"@,
        ConfigFormatError::InvalidMagic(m) => "Invalid magic: expected 0x53555346, got 0x"@ + hex_digits(m as nat, 8),
        ConfigFormatError::TruncatedVersion => "Truncated version"@,
        ConfigFormatError::UnsupportedVersion(v) => "Unsupported version: expected 1, got "@ + decimal(v as nat),
        ConfigFormatError::TruncatedCount => "Truncated count"@,
        ConfigFormatError::TruncatedKeyLength => "Truncated key length"@,
        ConfigFormatError::TruncatedKeyData => "Truncated key data"@,
        ConfigFormatError::InvalidKeyUtf8 => "Invalid UTF-8 in key"@,
        ConfigFormatError::TruncatedValueLength => "Truncated value length"@,
        ConfigFormatError::TruncatedValueData => "Truncated value data"@,
        ConfigFormatError::InvalidValueUtf8 => "Invalid UTF-8 in value"@,
    }
}

impl ConfigFormatError {
    /// The text of the error.
    pub fn message(&self) -> (r: String)
        ensures
            r@ == format_error_message(*self),
    {
        match self {
            ConfigFormatError::TruncatedHeader => "Truncated header".to_owned(),
            ConfigFormatError::InvalidMagic(m) => {
                let mut s = "Invalid magic: expected 0x53555346, got 0x".to_owned();
                let d = hex_digits_string(*m, 8);
                let mut i: usize = 0;
                let ghost start = s@;
                while i < d.len()
                    invariant
                        i <= d@.len(),
                        s@ == start + d@.take(i as int),
                    decreases d@.len() - i,
                {
                    push_char(&mut s, d[i]);
                    assert(d@.take(i + 1) =~= d@.take(i as int).push(d@[i as int]));
                    i = i + 1;
                }
                assert(d@.take(d@.len() as int) =~= d@);
                s
            },
            ConfigFormatError::TruncatedVersion => "Truncated version".to_owned(),
            ConfigFormatError::UnsupportedVersion(v) => {
                let mut s = "Unsupported version: expected 1, got ".to_owned();
                let d = decimal_string(*v as usize);
                s.append(d.as_str());
                s
            },
            ConfigFormatError::TruncatedCount => "Truncated count".to_owned(),
            ConfigFormatError::TruncatedKeyLength => "Truncated key length".to_owned(),
            ConfigFormatError::TruncatedKeyData => "Truncated key data".to_owned(),
            ConfigFormatError::InvalidKeyUtf8 => "Invalid UTF-8 in key".to_owned(),
            ConfigFormatError::TruncatedValueLength => "Truncated value length".to_owned(),
            ConfigFormatError::TruncatedValueData => "Truncated value data".to_owned(),
            ConfigFormatError::InvalidValueUtf8 => "Invalid UTF-8 in value".to_owned(),
        }
    }
}

pub type Record = (Seq<char>, Seq<char>);

/// A length-prefixed UTF-8 field.
pub open spec fn encode_field(s: Seq<char>) -> Seq<u8> {
    spec_u32_to_le_bytes(encode_utf8(s).len() as u32) + encode_utf8(s)
}

pub open spec fn encode_record(r: Record) -> Seq<u8> {
    encode_field(r.0) + encode_field(r.1)
}

pub open spec fn encode_records(rs: Seq<Record>) -> Seq<u8>
    decreases rs.len(),
{
    if rs.len() == 0 {
        Seq::empty()
    } else {
        encode_record(rs[0]) + encode_records(rs.drop_first())
    }
}

/// The bytes that `write_binary` produces for the records `rs`, in order.
pub open spec fn spec_write_binary(rs: Seq<Record>) -> Seq<u8> {
    spec_u32_to_le_bytes(SUSFS_CONFIG_MAGIC) + spec_u32_to_le_bytes(SUSFS_CONFIG_VERSION)
        + spec_u32_to_le_bytes(rs.len() as u32) + encode_records(rs)
}

/// Decode one length-prefixed UTF-8 field at the front of `r`, with the
/// errors to report for a missing length, missing data or bad UTF-8.
pub open spec fn parse_field(
    r: Seq<u8>,
    no_len: ConfigFormatError,
    no_data: ConfigFormatError,
    bad_utf8: ConfigFormatError,
) -> Result<(Seq<char>, Seq<u8>), ConfigFormatError> {
    if r.len() < 4 {
        Err(no_len)
    } else {
        let n = spec_u32_from_le_bytes(r.take(4)) as int;
        let rest = r.skip(4);
        if rest.len() < n {
            Err(no_data)
        } else if !valid_utf8(rest.take(n)) {
            Err(bad_utf8)
        } else {
            Ok((decode_utf8(rest.take(n)), rest.skip(n)))
        }
    }
}

pub open spec fn parse_record(r: Seq<u8>) -> Result<(Record, Seq<u8>), ConfigFormatError> {
    match parse_field(
        r,
        ConfigFormatError::TruncatedKeyLength,
        ConfigFormatError::TruncatedKeyData,
        ConfigFormatError::InvalidKeyUtf8,
    ) {
        Err(e) => Err(e),
        Ok((k, r1)) => match parse_field(
            r1,
            ConfigFormatError::TruncatedValueLength,
            ConfigFormatError::TruncatedValueData,
            ConfigFormatError::InvalidValueUtf8,
        ) {
            Err(e) => Err(e),
            Ok((v, r2)) => Ok(((k, v), r2)),
        },
    }
}

/// `count` records read from the front of `r`, in file order.
pub open spec fn parse_records(r: Seq<u8>, count: nat) -> Result<Seq<Record>, ConfigFormatError>
    decreases count,
{
    if count == 0 {
        Ok(Seq::empty())
    } else {
        match parse_record(r) {
            Err(e) => Err(e),
            Ok((rec, rest)) => match parse_records(rest, (count - 1) as nat) {
                Err(e) => Err(e),
                Ok(rs) => Ok(seq![rec] + rs),
            },
        }
    }
}

/// The records of a config file in file order, or the first error met.
/// Bytes after the last record are ignored.
pub open spec fn spec_read_binary(data: Seq<u8>) -> Result<Seq<Record>, ConfigFormatError> {
    if data.len() < 4 {
        Err(ConfigFormatError::TruncatedHeader)
    } else if spec_u32_from_le_bytes(data.take(4)) != SUSFS_CONFIG_MAGIC {
        Err(ConfigFormatError::InvalidMagic(spec_u32_from_le_bytes(data.take(4))))
    } else if data.len() < 8 {
        Err(ConfigFormatError::TruncatedVersion)
    } else if spec_u32_from_le_bytes(data.subrange(4, 8)) != SUSFS_CONFIG_VERSION {
        Err(ConfigFormatError::UnsupportedVersion(spec_u32_from_le_bytes(data.subrange(4, 8))))
    } else if data.len() < 12 {
        Err(ConfigFormatError::TruncatedCount)
    } else {
        parse_records(data.skip(12), spec_u32_from_le_bytes(data.subrange(8, 12)) as nat)
    }
}

fn append_u32_le(buf: &mut Vec<u8>, x: u32)
    ensures
        final(buf)@ == old(buf)@ + spec_u32_to_le_bytes(x),
{
    let mut b = u32_to_le_bytes(x);
    buf.append(&mut b);
}

fn append_field(buf: &mut Vec<u8>, s: &String)
    ensures
        final(buf)@ == old(buf)@ + encode_field(s@),
{
    let bytes = s.as_str().as_bytes();
    append_u32_le(buf, bytes.len() as u32);
    let mut v = slice_to_vec(bytes);
    buf.append(&mut v);
}

proof fn lemma_encode_records_take(rs: Seq<Record>, i: int)
    requires
        0 <= i < rs.len(),
    ensures
        encode_records(rs.take(i + 1)) == encode_records(rs.take(i)) + encode_record(rs[i]),
    decreases i,
{
    if i == 0 {
        assert(rs.take(1).drop_first() =~= Seq::<Record>::empty());
        assert(encode_records(rs.take(1).drop_first()) == Seq::<u8>::empty());
        assert(encode_records(rs.take(0)) == Seq::<u8>::empty());
        assert(encode_records(rs.take(1)) =~= encode_record(rs[0]));
    } else {
        let d = rs.drop_first();
        lemma_encode_records_take(d, i - 1);
        assert(rs.take(i + 1).drop_first() =~= d.take(i));
        assert(rs.take(i).drop_first() =~= d.take(i - 1));
        assert(d[i - 1] == rs[i]);
        assert(encode_records(rs.take(i + 1)) =~= encode_record(rs[0]) + encode_records(d.take(i)));
        assert(encode_records(rs.take(i)) =~= encode_record(rs[0]) + encode_records(d.take(i - 1)));
    }
}

/// Serialize `config` in its entry order.  When every length fits its
/// `u32` field, decoding the result gives back the same map.
pub fn write_binary(config: &ConfigMap) -> (buf: Vec<u8>)
    ensures
        buf@ == spec_write_binary(config.entry_seq()),
        lengths_fit(config.entry_seq()) ==> (spec_read_binary(buf@) matches Ok(rs) && map_of(rs) == config@),
{
    proof {
        if lengths_fit(config.entry_seq()) {
            lemma_read_write_records(config.entry_seq());
        }
    }
    let mut buf: Vec<u8> = Vec::new();
    append_u32_le(&mut buf, SUSFS_CONFIG_MAGIC);
    append_u32_le(&mut buf, SUSFS_CONFIG_VERSION);
    let n = config.len();
    append_u32_le(&mut buf, n as u32);
    let ghost header = buf@;
    let ghost rs = config.entry_seq();
    let mut i: usize = 0;
    while i < n
        invariant
            n == rs.len(),
            rs == config.entry_seq(),
            i <= n,
            header == spec_u32_to_le_bytes(SUSFS_CONFIG_MAGIC) + spec_u32_to_le_bytes(SUSFS_CONFIG_VERSION)
                + spec_u32_to_le_bytes(rs.len() as u32),
            buf@ == header + encode_records(rs.take(i as int)),
        decreases n - i,
    {
        let (k, v) = config.entry(i);
        proof { lemma_encode_records_take(rs, i as int); }
        append_field(&mut buf, k);
        append_field(&mut buf, v);
        assert(buf@ =~= header + encode_records(rs.take(i + 1)));
        i = i + 1;
    }
    assert(rs.take(n as int) =~= rs);
    assert(buf@ =~= spec_write_binary(rs));
    buf
}

fn read_u32_at(data: &[u8], pos: usize) -> (x: u32)
    requires
        pos + 4 <= data@.len(),
    ensures
        x == spec_u32_from_le_bytes(data@.skip(pos as int).take(4)),
{
    let len = data.len();
    let end = pos + 4;
    let s = slice_subrange(data, pos, end);
    assert(s@ =~= data@.skip(pos as int).take(4));
    u32_from_le_bytes(s)
}

/// Exec counterpart of `parse_field` on the bytes of `data` from `pos`.
fn read_field(
    data: &[u8],
    pos: usize,
    no_len: ConfigFormatError,
    no_data: ConfigFormatError,
    bad_utf8: ConfigFormatError,
) -> (r: Result<(String, usize), ConfigFormatError>)
    requires
        pos <= data@.len(),
    ensures
        match parse_field(data@.skip(pos as int), no_len, no_data, bad_utf8) {
            Ok((s, rest)) => r matches Ok((t, p)) && t@ == s && pos <= p <= data@.len() && rest == data@.skip(p as int),
            Err(e) => r == Err::<(String, usize), ConfigFormatError>(e),
        },
{
    let ghost r0 = data@.skip(pos as int);
    if data.len() - pos < 4 {
        return Err(no_len);
    }
    let n = read_u32_at(data, pos) as usize;
    let start = pos + 4;
    assert(r0.skip(4) =~= data@.skip(start as int));
    if data.len() - start < n {
        return Err(no_data);
    }
    let bytes = slice_subrange(data, start, start + n);
    assert(bytes@ =~= r0.skip(4).take(n as int));
    match utf8_to_string(bytes) {
        None => Err(bad_utf8),
        Some(s) => {
            assert(r0.skip(4).skip(n as int) =~= data@.skip((start + n) as int));
            Ok((s, start + n))
        },
    }
}

proof fn lemma_parse_records_step(r: Seq<u8>, count: nat)
    requires
        count > 0,
    ensures
        parse_records(r, count) == match parse_record(r) {
            Err(e) => Err(e),
            Ok((rec, rest)) => match parse_records(rest, (count - 1) as nat) {
                Err(e) => Err(e),
                Ok(rs) => Ok(seq![rec] + rs),
            },
        },
{
}

/// Decode a config file; duplicate keys keep the last value read.
pub fn read_binary(data: &[u8]) -> (r: Result<ConfigMap, ConfigFormatError>)
    ensures
        match spec_read_binary(data@) {
            Ok(rs) => r matches Ok(m) && m@ == map_of(rs),
            Err(e) => r matches Err(e2) && e2 == e,
        },
{
    if data.len() < 4 {
        return Err(ConfigFormatError::TruncatedHeader);
    }
    let magic = read_u32_at(data, 0);
    assert(data@.skip(0) =~= data@);
    if magic != SUSFS_CONFIG_MAGIC {
        return Err(ConfigFormatError::InvalidMagic(magic));
    }
    if data.len() < 8 {
        return Err(ConfigFormatError::TruncatedVersion);
    }
    let version = read_u32_at(data, 4);
    assert(data@.skip(4).take(4) =~= data@.subrange(4, 8));
    if version != SUSFS_CONFIG_VERSION {
        return Err(ConfigFormatError::UnsupportedVersion(version));
    }
    if data.len() < 12 {
        return Err(ConfigFormatError::TruncatedCount);
    }
    let count = read_u32_at(data, 8);
    assert(data@.skip(8).take(4) =~= data@.subrange(8, 12));
    let ghost total = parse_records(data@.skip(12), count as nat);
    let mut config = ConfigMap::new();
    let mut pos: usize = 12;
    let mut i: u32 = 0;
    let ghost mut done: Seq<Record> = Seq::empty();
    while i < count
        invariant
            12 <= pos <= data@.len(),
            i <= count,
            total == parse_records(data@.skip(12), count as nat),
            spec_read_binary(data@) == total,
            total == match parse_records(data@.skip(pos as int), (count - i) as nat) {
                Err(e) => Err(e),
                Ok(rs) => Ok(done + rs),
            },
            config@ == map_of(done),
        decreases count - i,
    {
        proof { lemma_parse_records_step(data@.skip(pos as int), (count - i) as nat); }
        let (key, p1) = match read_field(
            data,
            pos,
            ConfigFormatError::TruncatedKeyLength,
            ConfigFormatError::TruncatedKeyData,
            ConfigFormatError::InvalidKeyUtf8,
        ) {
            Ok(x) => x,
            Err(e) => {
                return Err(e);
            },
        };
        let (value, p2) = match read_field(
            data,
            p1,
            ConfigFormatError::TruncatedValueLength,
            ConfigFormatError::TruncatedValueData,
            ConfigFormatError::InvalidValueUtf8,
        ) {
            Ok(x) => x,
            Err(e) => {
                return Err(e);
            },
        };
        let ghost rec = (key@, value@);
        proof {
            let rest = parse_records(data@.skip(p2 as int), (count - i - 1) as nat);
            match rest {
                Ok(rs) => {
                    assert(done + (seq![rec] + rs) =~= done.push(rec) + rs);
                },
                Err(e) => {},
            }
        }
        config.insert(key, value);
        proof {
            let nd = done.push(rec);
            assert(nd.drop_last() =~= done);
            done = nd;
        }
        pos = p2;
        i = i + 1;
    }
    assert(done + Seq::<Record>::empty() =~= done);
    Ok(config)
}

/// Every key and value of `rs` has a UTF-8 encoding whose length fits the
/// `u32` length prefix, and the record count fits the `u32` count field.
pub open spec fn lengths_fit(rs: Seq<Record>) -> bool {
    &&& rs.len() <= u32::MAX
    &&& forall|i: int|
        0 <= i < rs.len() ==> encode_utf8(#[trigger] rs[i].0).len() <= u32::MAX && encode_utf8(
            rs[i].1,
        ).len() <= u32::MAX
}

proof fn lemma_parse_field_encoded(
    s: Seq<char>,
    rest: Seq<u8>,
    no_len: ConfigFormatError,
    no_data: ConfigFormatError,
    bad_utf8: ConfigFormatError,
)
    requires
        encode_utf8(s).len() <= u32::MAX,
    ensures
        parse_field(encode_field(s) + rest, no_len, no_data, bad_utf8) == Ok::<
            (Seq<char>, Seq<u8>),
            ConfigFormatError,
        >((s, rest)),
{
    broadcast use vstd::utf8::encode_utf8_valid_utf8, vstd::utf8::encode_utf8_decode_utf8;
    vstd::bytes::lemma_auto_spec_u32_to_from_le_bytes();
    let e = encode_utf8(s);
    let x = e.len() as u32;
    let all = encode_field(s) + rest;
    assert(spec_u32_to_le_bytes(x).len() == 4);
    assert(all.take(4) =~= spec_u32_to_le_bytes(x));
    assert(all.skip(4) =~= e + rest);
    assert((e + rest).take(e.len() as int) =~= e);
    assert((e + rest).skip(e.len() as int) =~= rest);
}

proof fn lemma_parse_records_encoded(rs: Seq<Record>)
    requires
        lengths_fit(rs),
    ensures
        parse_records(encode_records(rs), rs.len()) == Ok::<Seq<Record>, ConfigFormatError>(rs),
    decreases rs.len(),
{
    if rs.len() > 0 {
        let d = rs.drop_first();
        assert(lengths_fit(d)) by {
            assert forall|i: int| 0 <= i < d.len() implies encode_utf8(#[trigger] d[i].0).len() <= u32::MAX
                && encode_utf8(d[i].1).len() <= u32::MAX by {
                assert(d[i] == rs[i + 1]);
            }
        }
        lemma_parse_records_encoded(d);
        let tail = encode_records(d);
        assert(encode_utf8(rs[0].0).len() <= u32::MAX && encode_utf8(rs[0].1).len() <= u32::MAX);
        lemma_parse_field_encoded(
            rs[0].0,
            encode_field(rs[0].1) + tail,
            ConfigFormatError::TruncatedKeyLength,
            ConfigFormatError::TruncatedKeyData,
            ConfigFormatError::InvalidKeyUtf8,
        );
        lemma_parse_field_encoded(
            rs[0].1,
            tail,
            ConfigFormatError::TruncatedValueLength,
            ConfigFormatError::TruncatedValueData,
            ConfigFormatError::InvalidValueUtf8,
        );
        assert(encode_records(rs) =~= encode_field(rs[0].0) + (encode_field(rs[0].1) + tail));
        assert(parse_record(encode_records(rs)) == Ok::<(Record, Seq<u8>), ConfigFormatError>((rs[0], tail)));
        assert(seq![rs[0]] + d =~= rs);
        assert(((rs.len() - 1) as nat) == d.len());
        lemma_parse_records_step(encode_records(rs), rs.len());
    } else {
        assert(rs =~= Seq::<Record>::empty());
    }
}

/// Decoding the bytes written for a record sequence gives the same records
/// back, provided every length fits its `u32` field.
pub proof fn lemma_read_write_records(rs: Seq<Record>)
    requires
        lengths_fit(rs),
    ensures
        spec_read_binary(spec_write_binary(rs)) == Ok::<Seq<Record>, ConfigFormatError>(rs),
{
    vstd::bytes::lemma_auto_spec_u32_to_from_le_bytes();
    let data = spec_write_binary(rs);
    let h1 = spec_u32_to_le_bytes(SUSFS_CONFIG_MAGIC);
    let h2 = spec_u32_to_le_bytes(SUSFS_CONFIG_VERSION);
    let h3 = spec_u32_to_le_bytes(rs.len() as u32);
    assert(h1.len() == 4 && h2.len() == 4 && h3.len() == 4);
    assert(data.take(4) =~= h1);
    assert(data.subrange(4, 8) =~= h2);
    assert(data.subrange(8, 12) =~= h3);
    assert(data.skip(12) =~= encode_records(rs));
    lemma_parse_records_encoded(rs);
}

/// Law: a config written with `write_binary` and read back with
/// `read_binary` is the same map, as long as every length fits the
/// format's `u32` fields.
pub proof fn law_read_binary_of_write_binary(config: ConfigMap)
    requires
        keys_distinct(config.entry_seq()),
        lengths_fit(config.entry_seq()),
    ensures
        spec_read_binary(spec_write_binary(config.entry_seq())) matches Ok(rs) && map_of(rs) == config@,
{
    lemma_read_write_records(config.entry_seq());
}

} // verus!
