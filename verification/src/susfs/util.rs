//! Helpers shared by the commands: paths and files copied into fixed-size
//! buffers, stat results copied into a kstat payload, and C strings read
//! back from the kernel's answers.
use vstd::prelude::*;

use crate::susfs::abi::syscall::SusfsError;
use crate::susfs::abi::types::SusfsKstat;
use crate::text::utf8_to_string;

verus! {

/// `buf` with its first bytes replaced by `bytes`.
pub open spec fn with_prefix(buf: Seq<u8>, bytes: Seq<u8>) -> Seq<u8> {
    bytes + buf.skip(bytes.len() as int)
}

/// Copy `bytes` into the start of `buf` when they leave room for the
/// terminating NUL; otherwise leave `buf` alone and give the most bytes
/// it could take.
pub fn copy_bytes_into(buf: &mut Vec<u8>, bytes: &[u8]) -> (r: Result<(), usize>)
    requires
        old(buf)@.len() > 0,
    ensures
        r is Ok <==> bytes@.len() < old(buf)@.len(),
        r is Ok ==> final(buf)@ == with_prefix(old(buf)@, bytes@),
        r is Err ==> final(buf)@ == old(buf)@,
        r matches Err(max) ==> max == old(buf)@.len() - 1,
{
    if bytes.len() >= buf.len() {
        return Err(buf.len() - 1);
    }
    let mut i: usize = 0;
    while i < bytes.len()
        invariant
            bytes@.len() < old(buf)@.len(),
            i <= bytes@.len(),
            buf@.len() == old(buf)@.len(),
            forall|k: int| 0 <= k < i ==> buf@[k] == bytes@[k],
            forall|k: int| i <= k < buf@.len() ==> buf@[k] == old(buf)@[k],
        decreases bytes@.len() - i,
    {
        buf.set(i, bytes[i]);
        i = i + 1;
    }
    assert(buf@ =~= with_prefix(old(buf)@, bytes@));
    Ok(())
}

/// Write `path` into a fixed-size C string buffer; `PathTooLong` when its
/// UTF-8 bytes leave no room for the terminating NUL.
pub fn copy_path_into(buf: &mut Vec<u8>, path: &str) -> (r: Result<(), SusfsError>)
    requires
        old(buf)@.len() > 0,
    ensures
        r is Ok <==> vstd::utf8::encode_utf8(path@).len() < old(buf)@.len(),
        r is Ok ==> final(buf)@ == with_prefix(old(buf)@, vstd::utf8::encode_utf8(path@)),
        r is Err ==> final(buf)@ == old(buf)@,
        r matches Err(e) ==> e matches SusfsError::PathTooLong { len, max } && len == vstd::utf8::encode_utf8(
            path@,
        ).len() && max == old(buf)@.len() - 1,
{
    let bytes = path.as_bytes();
    match copy_bytes_into(buf, bytes) {
        Ok(()) => Ok(()),
        Err(max) => Err(SusfsError::PathTooLong { len: bytes.len(), max }),
    }
}

/// What `stat(2)` reports of a file, as `std::os::unix::fs::MetadataExt`
/// gives it.
pub struct StatInfo {
    pub ino: u64,
    pub dev: u64,
    pub nlink: u64,
    pub size: u64,
    pub atime: i64,
    pub atime_nsec: i64,
    pub mtime: i64,
    pub mtime_nsec: i64,
    pub ctime: i64,
    pub ctime_nsec: i64,
    pub blocks: u64,
    pub blksize: u64,
}

/// The spoofed members of `k` are those of `md`, converted to the
/// payload's field types as `as` converts them.
pub open spec fn kstat_copied_from(k: SusfsKstat, md: StatInfo) -> bool {
    &&& k.target_ino == md.ino
    &&& k.spoofed_ino == md.ino
    &&& k.spoofed_dev == md.dev
    &&& k.spoofed_nlink == md.nlink as u32
    &&& k.spoofed_size == md.size
    &&& k.spoofed_atime_tv_sec == md.atime
    &&& k.spoofed_atime_tv_nsec == md.atime_nsec as u64
    &&& k.spoofed_mtime_tv_sec == md.mtime
    &&& k.spoofed_mtime_tv_nsec == md.mtime_nsec as u64
    &&& k.spoofed_ctime_tv_sec == md.ctime
    &&& k.spoofed_ctime_tv_nsec == md.ctime_nsec as u64
    &&& k.spoofed_blocks == md.blocks
    &&& k.spoofed_blksize == md.blksize as i64
}

/// Fill the `spoofed_*` members (and `target_ino`) of `kstat` from a stat
/// result; the other members are left as they were.
pub fn copy_metadata_into_kstat(kstat: &mut SusfsKstat, md: &StatInfo)
    ensures
        kstat_copied_from(*final(kstat), *md),
        final(kstat).is_statically == old(kstat).is_statically,
        final(kstat).target_pathname@ == old(kstat).target_pathname@,
        final(kstat).flags == old(kstat).flags,
        final(kstat).err == old(kstat).err,
{
    kstat.target_ino = md.ino;
    kstat.spoofed_ino = md.ino;
    kstat.spoofed_dev = md.dev;
    kstat.spoofed_nlink = md.nlink as u32;
    kstat.spoofed_size = md.size;
    kstat.spoofed_atime_tv_sec = md.atime;
    kstat.spoofed_atime_tv_nsec = md.atime_nsec as u64;
    kstat.spoofed_mtime_tv_sec = md.mtime;
    kstat.spoofed_mtime_tv_nsec = md.mtime_nsec as u64;
    kstat.spoofed_ctime_tv_sec = md.ctime;
    kstat.spoofed_ctime_tv_nsec = md.ctime_nsec as u64;
    kstat.spoofed_blocks = md.blocks;
    kstat.spoofed_blksize = md.blksize as i64;
}

/// The index of the first NUL byte of `buf` from `j` on, or its length.
pub open spec fn first_nul(buf: Seq<u8>, j: int) -> int
    decreases buf.len() - j,
{
    if j >= buf.len() {
        buf.len() as int
    } else if buf[j] == 0u8 {
        j
    } else {
        first_nul(buf, j + 1)
    }
}

/// The C string at the start of `buf` (up to its first NUL, or all of it),
/// decoded as UTF-8, or `<invalid>` when it is not UTF-8.
pub open spec fn spec_cstr(buf: Seq<u8>) -> Seq<char> {
    let bytes = buf.take(first_nul(buf, 0));
    if vstd::utf8::valid_utf8(bytes) {
        vstd::utf8::decode_utf8(bytes)
    } else {
        "<invalid>"@
    }
}

proof fn lemma_first_nul_bounds(buf: Seq<u8>, j: int)
    requires
        0 <= j <= buf.len(),
    ensures
        j <= first_nul(buf, j) <= buf.len(),
    decreases buf.len() - j,
{
    if j < buf.len() && buf[j] != 0u8 {
        lemma_first_nul_bounds(buf, j + 1);
    }
}

/// The string in a buffer that may or may not be NUL-terminated.
pub fn cstr_buf_to_string(buf: &[u8]) -> (r: String)
    ensures
        r@ == spec_cstr(buf@),
{
    let n = buf.len();
    let mut nul: usize = 0;
    while nul < n && buf[nul] != 0u8
        invariant
            nul <= n,
            n == buf@.len(),
            first_nul(buf@, 0) == first_nul(buf@, nul as int),
        decreases n - nul,
    {
        nul = nul + 1;
    }
    proof {
        lemma_first_nul_bounds(buf@, 0);
    }
    let bytes = vstd::slice::slice_subrange(buf, 0, nul);
    assert(bytes@ =~= buf@.take(first_nul(buf@, 0)));
    match utf8_to_string(bytes) {
        Some(s) => s,
        None => "<invalid>".to_owned(),
    }
}

} // verus!

verus! {

/// `bytes` followed by zeros up to `size` bytes.
pub open spec fn zero_padded(bytes: Seq<u8>, size: nat) -> Seq<u8> {
    bytes + Seq::new((size - bytes.len()) as nat, |i: int| 0u8)
}

/// The UTF-8 bytes of `path` fit a pathname buffer with its NUL.
pub open spec fn path_fits(path: Seq<char>) -> bool {
    vstd::utf8::encode_utf8(path).len() < crate::susfs::abi::consts::SUSFS_MAX_PATHNAME
}

/// `e` reports that `path` is too long for a pathname buffer.
pub open spec fn path_too_long(e: SusfsError, path: Seq<char>) -> bool {
    e matches SusfsError::PathTooLong { len, max } && len == vstd::utf8::encode_utf8(path).len() && max
        == crate::susfs::abi::consts::SUSFS_MAX_PATHNAME - 1
}

/// A zeroed pathname buffer holding `path`.
pub fn pathname_buffer(path: &str) -> (r: Result<Vec<u8>, SusfsError>)
    ensures
        r is Ok <==> path_fits(path@),
        r matches Ok(b) ==> b@ == zero_padded(
            vstd::utf8::encode_utf8(path@),
            crate::susfs::abi::consts::SUSFS_MAX_PATHNAME as nat,
        ),
        r matches Err(e) ==> path_too_long(e, path@),
{
    let mut buf = crate::susfs::abi::types::zeroed(crate::susfs::abi::consts::SUSFS_MAX_PATHNAME);
    let ghost zeros = buf@;
    match copy_path_into(&mut buf, path) {
        Ok(()) => {
            assert(buf@ =~= zero_padded(
                vstd::utf8::encode_utf8(path@),
                crate::susfs::abi::consts::SUSFS_MAX_PATHNAME as nat,
            ));
            Ok(buf)
        },
        Err(e) => Err(e),
    }
}

} // verus!

verus! {

/// No character of `s` is NUL.
pub open spec fn has_no_nul(s: Seq<char>) -> bool {
    forall|i: int| 0 <= i < s.len() ==> s[i] != '\0'
}

proof fn lemma_scalar_bytes_nonzero(v: u32)
    requires
        v != 0,
    ensures
        forall|i: int| 0 <= i < vstd::utf8::encode_scalar(v).len() ==> #[trigger] vstd::utf8::encode_scalar(v)[i] != 0u8,
{
    let b1 = (v & 0x7F) as u8;
    assert(v <= 0x7F ==> b1 != 0u8) by (bit_vector)
        requires
            v != 0,
            b1 == (v & 0x7F) as u8,
    ;
    let l2 = 0xC0u8 | ((v >> 6) & 0x1F) as u8;
    let l3 = 0xE0u8 | ((v >> 12) & 0x0F) as u8;
    let l4 = 0xF0u8 | ((v >> 18) & 0x7) as u8;
    let c1 = 0x80u8 | (v & 0x3F) as u8;
    let c2 = 0x80u8 | ((v >> 6) & 0x3F) as u8;
    let c3 = 0x80u8 | ((v >> 12) & 0x3F) as u8;
    assert(l2 != 0u8 && l3 != 0u8 && l4 != 0u8 && c1 != 0u8 && c2 != 0u8 && c3 != 0u8) by (bit_vector)
        requires
            l2 == 0xC0u8 | ((v >> 6) & 0x1F) as u8,
            l3 == 0xE0u8 | ((v >> 12) & 0x0F) as u8,
            l4 == 0xF0u8 | ((v >> 18) & 0x7) as u8,
            c1 == 0x80u8 | (v & 0x3F) as u8,
            c2 == 0x80u8 | ((v >> 6) & 0x3F) as u8,
            c3 == 0x80u8 | ((v >> 12) & 0x3F) as u8,
    ;
}

proof fn lemma_encode_no_zero(s: Seq<char>)
    requires
        has_no_nul(s),
    ensures
        forall|i: int| 0 <= i < vstd::utf8::encode_utf8(s).len() ==> #[trigger] vstd::utf8::encode_utf8(s)[i] != 0u8,
    decreases s.len(),
{
    if s.len() > 0 {
        let head = vstd::utf8::encode_scalar(s[0] as u32);
        let rest = s.drop_first();
        assert(has_no_nul(rest)) by {
            assert forall|i: int| 0 <= i < rest.len() implies rest[i] != '\0' by {
                assert(rest[i] == s[i + 1]);
            }
        }
        lemma_encode_no_zero(rest);
        assert(s[0] != '\0');
        assert((s[0] as u32) != 0) by {
            vstd::utf8::char_u32_cast(s[0], s[0] as u32);
        }
        lemma_scalar_bytes_nonzero(s[0] as u32);
        let e = vstd::utf8::encode_utf8(s);
        assert(e == head + vstd::utf8::encode_utf8(rest));
        assert forall|i: int| 0 <= i < e.len() implies #[trigger] e[i] != 0u8 by {
            if i < head.len() {
                assert(e[i] == head[i]);
            } else {
                assert(e[i] == vstd::utf8::encode_utf8(rest)[i - head.len()]);
            }
        }
    }
}

proof fn lemma_first_nul_at(buf: Seq<u8>, j: int, n: int)
    requires
        0 <= j <= n < buf.len(),
        buf[n] == 0u8,
        forall|k: int| j <= k < n ==> buf[k] != 0u8,
    ensures
        first_nul(buf, j) == n,
    decreases n - j,
{
    if j < n {
        lemma_first_nul_at(buf, j + 1, n);
    }
}

/// A string written into a zeroed fixed-size buffer (a pathname or a
/// uname field) reads back, as a C string, as the string itself, when it
/// leaves room for the NUL and holds no NUL character.
pub proof fn law_c_buffer_reads_back(text: Seq<char>, size: nat)
    requires
        vstd::utf8::encode_utf8(text).len() < size,
        has_no_nul(text),
    ensures
        spec_cstr(zero_padded(vstd::utf8::encode_utf8(text), size)) == text,
{
    let bytes = vstd::utf8::encode_utf8(text);
    let buf = zero_padded(bytes, size);
    lemma_encode_no_zero(text);
    assert(buf[bytes.len() as int] == 0u8);
    assert forall|k: int| 0 <= k < bytes.len() implies buf[k] != 0u8 by {
        assert(buf[k] == bytes[k]);
    }
    lemma_first_nul_at(buf, 0, bytes.len() as int);
    assert(buf.take(bytes.len() as int) =~= bytes);
    vstd::utf8::encode_utf8_valid_utf8(text);
    vstd::utf8::encode_utf8_decode_utf8(text);
}


/// Law: every member of a kstat payload filled from a stat result holds
/// the same-named value of that result: the inode (also as the target
/// inode), device, link count (as `u32`), size, each of the access,
/// modification and change times with its nanoseconds (as `u64`), blocks,
/// and block size (as `i64`).
pub proof fn law_kstat_members_from_stat(k: SusfsKstat, md: StatInfo)
    requires
        kstat_copied_from(k, md),
    ensures
        k.target_ino == md.ino,
        k.spoofed_ino == md.ino,
        k.spoofed_dev == md.dev,
        k.spoofed_nlink == md.nlink as u32,
        k.spoofed_size == md.size,
        k.spoofed_atime_tv_sec == md.atime,
        k.spoofed_atime_tv_nsec == md.atime_nsec as u64,
        k.spoofed_mtime_tv_sec == md.mtime,
        k.spoofed_mtime_tv_nsec == md.mtime_nsec as u64,
        k.spoofed_ctime_tv_sec == md.ctime,
        k.spoofed_ctime_tv_nsec == md.ctime_nsec as u64,
        k.spoofed_blocks == md.blocks,
        k.spoofed_blksize == md.blksize as i64,
{
}

} // verus!
