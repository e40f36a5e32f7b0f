//! The on-disk frame: a header (magic marker, shift byte, name length, name)
//! followed by the transformed payload.

use vstd::prelude::*;
use vstd::utf8::{decode_utf8, encode_utf8, valid_utf8};
use crate::transform::{transform_chunk, transformed, Direction};

verus! {

/// Length of the magic marker.
pub const MAGIC_LEN: usize = 7;

/// Length of the fixed part of the header: magic, shift byte, name length.
pub const FIXED_HEADER_LEN: usize = 9;

/// Why a frame cannot be produced or read back.
#[derive(Clone, Copy, Debug, PartialEq, Eq, Structural)]
pub enum FrameError {
    /// The input ends before the header is complete.
    Truncated,
    /// The first seven bytes are not the magic marker.
    BadMagic,
    /// The header records a name of length zero.
    EmptyName,
    /// The recorded name is `.`, `..`, or holds a path separator.
    UnsafeName,
    /// The name is longer than a length byte can record.
    NameTooLong,
}

/// The magic marker, the ASCII text `SHIFTED`.
pub open spec fn magic() -> Seq<u8> {
    seq![0x53u8, 0x48u8, 0x49u8, 0x46u8, 0x54u8, 0x45u8, 0x44u8]
}

/// The header written for a name (as bytes) and a shift value.
pub open spec fn header_seq(name: Seq<u8>, shift: u8) -> Seq<u8> {
    magic() + seq![shift, name.len() as u8] + name
}

/// A name that can be joined to a directory without leaving it: not `.` or
/// `..`, and without `/` or `\`.
pub open spec fn is_safe_name(n: Seq<u8>) -> bool {
    &&& n != seq![0x2Eu8]
    &&& n != seq![0x2Eu8, 0x2Eu8]
    &&& forall|i: int| 0 <= i < n.len() ==> n[i] != 0x2Fu8 && n[i] != 0x5Cu8
}

/// The bytes of the header at the start of `b` that a reader asks for before it
/// can decide: the fixed part, then the name that the length byte announces.
pub open spec fn header_len_spec(b: Seq<u8>) -> int {
    if b.len() < 9 {
        9
    } else {
        9 + b[8]
    }
}

/// What the header at the start of `b` holds: its shift value and name bytes,
/// or the first reason, in reading order, why it is not a valid header.
pub open spec fn header_spec(b: Seq<u8>) -> Result<(u8, Seq<u8>), FrameError> {
    if b.len() < 8 {
        Err(FrameError::Truncated)
    } else if b.subrange(0, 7) != magic() {
        Err(FrameError::BadMagic)
    } else if b.len() < 9 {
        Err(FrameError::Truncated)
    } else if b[8] == 0 {
        Err(FrameError::EmptyName)
    } else if b.len() < 9 + b[8] {
        Err(FrameError::Truncated)
    } else if !is_safe_name(b.subrange(9, 9 + b[8])) {
        Err(FrameError::UnsafeName)
    } else {
        Ok((b[7], b.subrange(9, 9 + b[8])))
    }
}

/// A whole obfuscated file read back: the recorded name bytes and the
/// restored payload.
pub open spec fn restore_spec(f: Seq<u8>) -> Result<(Seq<u8>, Seq<u8>), FrameError> {
    match header_spec(f) {
        Ok((s, n)) => Ok((n, transformed(f.skip(9 + n.len() as int), s, Direction::Decode))),
        Err(e) => Err(e),
    }
}

/// A parsed header.
pub struct Header {
    pub shift: u8,
    /// The recorded name, as the bytes stored in the file.
    pub name: Vec<u8>,
}

fn magic_vec() -> (r: Vec<u8>)
    ensures
        r@ == magic(),
{
    let mut r: Vec<u8> = Vec::new();
    r.push(0x53u8);
    r.push(0x48u8);
    r.push(0x49u8);
    r.push(0x46u8);
    r.push(0x54u8);
    r.push(0x45u8);
    r.push(0x44u8);
    assert(r@ =~= magic());
    r
}

/// Appends every byte of `src` to `dst`.
fn append_bytes(dst: &mut Vec<u8>, src: &[u8])
    ensures
        final(dst)@ == old(dst)@ + src@,
{
    let n = src.len();
    let mut i: usize = 0;
    while i < n
        invariant
            n == src@.len(),
            i <= n,
            dst@ == old(dst)@ + src@.subrange(0, i as int),
        decreases n - i,
    {
        dst.push(src[i]);
        i = i + 1;
        assert(dst@ =~= old(dst)@ + src@.subrange(0, i as int));
    }
    assert(src@.subrange(0, n as int) =~= src@);
}

/// The header for the file name `name` and the shift value `shift`.
/// A name longer than 255 bytes cannot be recorded and is refused.
pub fn encode_header(name: &str, shift: u8) -> (r: Result<Vec<u8>, FrameError>)
    ensures
        encode_utf8(name@).len() <= 255 ==> r == Ok::<Vec<u8>, FrameError>(r->Ok_0)
            && r->Ok_0@ == header_seq(encode_utf8(name@), shift),
        encode_utf8(name@).len() > 255 ==> r == Err::<Vec<u8>, FrameError>(FrameError::NameTooLong),
{
    let bytes = name.as_bytes();
    if bytes.len() > 255 {
        return Err(FrameError::NameTooLong);
    }
    let mut r = magic_vec();
    r.push(shift);
    r.push(bytes.len() as u8);
    append_bytes(&mut r, bytes);
    assert(r@ =~= header_seq(encode_utf8(name@), shift));
    Ok(r)
}

/// What lossy UTF-8 decoding makes of a byte sequence.
pub uninterp spec fn lossy_utf8(b: Seq<u8>) -> Seq<char>;

/// Relies on `String::from_utf8_lossy`: the text depends on the bytes alone,
/// and bytes that are valid UTF-8 give exactly the text they encode.
#[verifier::external_body]
fn decode_lossy(b: &[u8]) -> (r: String)
    ensures
        r@ == lossy_utf8(b@),
        valid_utf8(b@) ==> r@ == decode_utf8(b@),
{
    String::from_utf8_lossy(b).into_owned()
}

/// A copy of `src[from..to]`.
fn copy_range(src: &[u8], from: usize, to: usize) -> (r: Vec<u8>)
    requires
        from <= to <= src@.len(),
    ensures
        r@ == src@.subrange(from as int, to as int),
{
    let mut r: Vec<u8> = Vec::new();
    let mut i: usize = from;
    while i < to
        invariant
            from <= i <= to <= src@.len(),
            r@ == src@.subrange(from as int, i as int),
        decreases to - i,
    {
        r.push(src[i]);
        i = i + 1;
        assert(r@ =~= src@.subrange(from as int, i as int));
    }
    r
}

/// Whether `n` is a name that can be joined to a directory without leaving it.
pub fn name_is_safe(n: &[u8]) -> (r: bool)
    ensures
        r == is_safe_name(n@),
{
    let len = n.len();
    if len == 1 && n[0] == 0x2Eu8 {
        assert(n@ =~= seq![0x2Eu8]);
        return false;
    }
    if len == 2 && n[0] == 0x2Eu8 && n[1] == 0x2Eu8 {
        assert(n@ =~= seq![0x2Eu8, 0x2Eu8]);
        return false;
    }
    let mut i: usize = 0;
    while i < len
        invariant
            len == n@.len(),
            i <= len,
            forall|j: int| 0 <= j < i ==> n@[j] != 0x2Fu8 && n@[j] != 0x5Cu8,
        decreases len - i,
    {
        if n[i] == 0x2Fu8 || n[i] == 0x5Cu8 {
            return false;
        }
        i = i + 1;
    }
    assert(n@ != seq![0x2Eu8] && n@ != seq![0x2Eu8, 0x2Eu8]) by {
        if len == 1 {
            assert(seq![0x2Eu8][0] == 0x2Eu8);
        }
        if len == 2 {
            assert(seq![0x2Eu8, 0x2Eu8][0] == 0x2Eu8);
            assert(seq![0x2Eu8, 0x2Eu8][1] == 0x2Eu8);
        }
    }
    true
}

/// How many bytes from the start of a file a reader needs to decide on its
/// header, given the bytes `prefix` read so far.
pub fn header_len_needed(prefix: &[u8]) -> (r: usize)
    ensures
        r == header_len_spec(prefix@),
{
    if prefix.len() < FIXED_HEADER_LEN {
        FIXED_HEADER_LEN
    } else {
        FIXED_HEADER_LEN + prefix[8] as usize
    }
}

/// Reads the header at the start of `bytes`.
pub fn parse_header(bytes: &[u8]) -> (r: Result<Header, FrameError>)
    ensures
        match r {
            Ok(h) => header_spec(bytes@) == Ok::<(u8, Seq<u8>), FrameError>((h.shift, h.name@)),
            Err(e) => header_spec(bytes@) == Err::<(u8, Seq<u8>), FrameError>(e),
        },
{
    if bytes.len() < 8 {
        return Err(FrameError::Truncated);
    }
    let m = magic_vec();
    let mut i: usize = 0;
    while i < MAGIC_LEN
        invariant
            bytes@.len() >= 8,
            m@ == magic(),
            i <= MAGIC_LEN,
            forall|j: int| 0 <= j < i ==> bytes@[j] == m@[j],
        decreases MAGIC_LEN - i,
    {
        if bytes[i] != m[i] {
            assert(bytes@.subrange(0, 7)[i as int] != magic()[i as int]);
            return Err(FrameError::BadMagic);
        }
        i = i + 1;
    }
    assert(bytes@.subrange(0, 7) =~= magic());
    if bytes.len() < FIXED_HEADER_LEN {
        return Err(FrameError::Truncated);
    }
    let len = bytes[8] as usize;
    if len == 0 {
        return Err(FrameError::EmptyName);
    }
    if bytes.len() < FIXED_HEADER_LEN + len {
        return Err(FrameError::Truncated);
    }
    let name = copy_range(bytes, FIXED_HEADER_LEN, FIXED_HEADER_LEN + len);
    if !name_is_safe(name.as_slice()) {
        return Err(FrameError::UnsafeName);
    }
    Ok(Header { shift: bytes[7], name })
}

impl Header {
    /// The recorded name as text; bytes that are not valid UTF-8 are replaced.
    pub fn file_name(&self) -> (r: String)
        ensures
            r@ == lossy_utf8(self.name@),
            valid_utf8(self.name@) ==> r@ == decode_utf8(self.name@),
    {
        decode_lossy(self.name.as_slice())
    }
}

/// A file read back from its obfuscated form.
pub struct Restored {
    /// The original file name.
    pub name: String,
    /// The original content.
    pub content: Vec<u8>,
}

/// The whole obfuscated form of a file named `name` with content `content`:
/// the header, then the content shifted by `shift`.
pub fn shift_frame(name: &str, content: &[u8], shift: u8) -> (r: Result<Vec<u8>, FrameError>)
    ensures
        encode_utf8(name@).len() <= 255 ==> r == Ok::<Vec<u8>, FrameError>(r->Ok_0)
            && r->Ok_0@ == header_seq(encode_utf8(name@), shift) + transformed(
            content@,
            shift,
            Direction::Encode,
        ),
        encode_utf8(name@).len() > 255 ==> r == Err::<Vec<u8>, FrameError>(FrameError::NameTooLong),
{
    let mut out = match encode_header(name, shift) {
        Ok(h) => h,
        Err(e) => return Err(e),
    };
    let mut payload = copy_range(content, 0, content.len());
    assert(content@.subrange(0, content@.len() as int) =~= content@);
    transform_chunk(payload.as_mut_slice(), shift, Direction::Encode);
    append_bytes(&mut out, payload.as_slice());
    Ok(out)
}

/// Reads a whole obfuscated file back into its name and content.
pub fn restore_frame(file: &[u8]) -> (r: Result<Restored, FrameError>)
    ensures
        match r {
            Ok(x) => {
                &&& restore_spec(file@) is Ok
                &&& x.content@ == restore_spec(file@)->Ok_0.1
                &&& x.name@ == lossy_utf8(restore_spec(file@)->Ok_0.0)
                &&& valid_utf8(restore_spec(file@)->Ok_0.0) ==> x.name@ == decode_utf8(
                    restore_spec(file@)->Ok_0.0,
                )
            },
            Err(e) => restore_spec(file@) == Err::<(Seq<u8>, Seq<u8>), FrameError>(e),
        },
{
    let header = match parse_header(file) {
        Ok(h) => h,
        Err(e) => return Err(e),
    };
    let start = FIXED_HEADER_LEN + header.name.len();
    let mut content = copy_range(file, start, file.len());
    assert(file@.subrange(start as int, file@.len() as int) =~= file@.skip(start as int));
    transform_chunk(content.as_mut_slice(), header.shift, Direction::Decode);
    let name = header.file_name();
    Ok(Restored { name, content })
}

/// Restoring what shifting wrote gives back the name and the content, for every
/// shift value, wherever the name is non-empty, fits its length byte and is safe
/// to join to a directory.
pub proof fn lemma_round_trip(name: Seq<char>, content: Seq<u8>, shift: u8)
    requires
        1 <= encode_utf8(name).len() <= 255,
        is_safe_name(encode_utf8(name)),
    ensures
        restore_spec(header_seq(encode_utf8(name), shift) + transformed(
            content,
            shift,
            Direction::Encode,
        )) == Ok::<(Seq<u8>, Seq<u8>), FrameError>((encode_utf8(name), content)),
        valid_utf8(encode_utf8(name)),
        decode_utf8(encode_utf8(name)) == name,
{
    broadcast use vstd::utf8::encode_utf8_valid_utf8, vstd::utf8::encode_utf8_decode_utf8;

    let n = encode_utf8(name);
    let enc = transformed(content, shift, Direction::Encode);
    let f = header_seq(n, shift) + enc;
    assert(f.subrange(0, 7) =~= magic());
    assert(f[7] == shift);
    assert(f[8] == n.len() as u8);
    assert(f.subrange(9, 9 + n.len() as int) =~= n);
    assert(f.skip(9 + n.len() as int) =~= enc);
    crate::transform::lemma_decode_inverts_encode(content, shift);
}

/// The header read from the first `k` bytes of a file is the header of the
/// whole file, once `k` covers the length that the header announces.
pub proof fn lemma_header_from_prefix(f: Seq<u8>, k: int)
    requires
        header_len_spec(f) <= k <= f.len(),
    ensures
        header_spec(f.take(k)) == header_spec(f),
{
    let p = f.take(k);
    assert(p.subrange(0, 7) =~= f.subrange(0, 7));
    assert(p[7] == f[7]);
    assert(p[8] == f[8]);
    assert(p.subrange(9, 9 + f[8]) =~= f.subrange(9, 9 + f[8]));
}

/// A file whose first seven bytes are not the magic marker is rejected.
pub proof fn lemma_bad_magic_rejected(f: Seq<u8>)
    requires
        f.len() >= 7,
        f.subrange(0, 7) != magic(),
    ensures
        restore_spec(f) is Err,
        f.len() >= 8 ==> restore_spec(f) == Err::<(Seq<u8>, Seq<u8>), FrameError>(
            FrameError::BadMagic,
        ),
{
}

/// A file whose header records a name of length zero is rejected.
pub proof fn lemma_empty_name_rejected(f: Seq<u8>)
    requires
        f.len() >= 9,
        f[8] == 0,
    ensures
        restore_spec(f) is Err,
{
}

} // verus!
