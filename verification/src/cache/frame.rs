//! The byte layout of a cache file. All integers are little-endian:
//! magic, version, metadata length, metadata, tree length, tree, and a CRC-32
//! over everything before it.

use vstd::prelude::*;
use vstd::string::StringExecFns;
use crate::cache::metadata::{CACHE_MAGIC, CACHE_VERSION};
use crate::error::DuxError;
use crate::text::{decimal_digits, push_decimal};

verus! {

/// The CRC-32 (IEEE) checksum of `bytes`, as `crc32fast::hash` computes it.
pub uninterp spec fn crc32(bytes: Seq<u8>) -> u32;

/// Calls `crc32fast::hash`, which computes the checksum from the bytes alone.
#[verifier::external_body]
fn checksum(data: &[u8]) -> (c: u32)
    ensures
        c == crc32(data@),
{
    crc32fast::hash(data)
}

/// The four bytes of `v`, least significant first.
pub open spec fn le32(v: u32) -> Seq<u8> {
    seq![
        (v % 256) as u8,
        ((v / 256) % 256) as u8,
        ((v / 65536) % 256) as u8,
        (v / 16777216) as u8,
    ]
}

/// The integer whose little-endian bytes stand at `at` in `data`.
pub open spec fn read_le32(data: Seq<u8>, at: int) -> u32 {
    (data[at] + 256 * data[at + 1] + 65536 * data[at + 2] + 16777216 * data[at + 3]) as u32
}

pub open spec fn magic() -> Seq<u8> {
    seq![0x44u8, 0x55u8, 0x58u8, 0x43u8]
}

/// Everything the checksum covers: header, metadata and tree.
pub open spec fn frame_body(meta: Seq<u8>, tree: Seq<u8>) -> Seq<u8> {
    magic() + le32(CACHE_VERSION) + le32(meta.len() as u32) + meta + le32(tree.len() as u32) + tree
}

/// A whole cache file.
pub open spec fn frame(meta: Seq<u8>, tree: Seq<u8>) -> Seq<u8> {
    frame_body(meta, tree) + le32(crc32(frame_body(meta, tree)))
}

/// The two payloads of a cache file, still encoded.
#[derive(Debug, Clone)]
pub struct Frame {
    pub metadata: Vec<u8>,
    pub tree: Vec<u8>,
}

/// Why a file is no cache file.
#[derive(Debug, Clone, Copy, PartialEq, Eq, Structural)]
pub enum FrameError {
    /// Shorter than the 20 bytes of the smallest frame.
    TooSmall,
    /// The stored checksum is not that of the bytes before it.
    ChecksumMismatch,
    /// The file does not begin with the magic bytes.
    BadMagic,
    /// The file is of another format version.
    VersionMismatch { found: u32 },
    /// The metadata would reach past the end of the checked bytes.
    BadMetadataLength,
    /// The tree would reach past the end of the checked bytes.
    BadTreeLength,
    /// A payload is too long for its length field.
    TooLarge,
}

/// What reading `data` as a cache file gives: the payloads, or the first check
/// that fails, in the order size, checksum, magic, version, lengths.
pub open spec fn decoded(data: Seq<u8>) -> std::result::Result<(Seq<u8>, Seq<u8>), FrameError> {
    let end = data.len() - 4;
    let n = read_le32(data, 8) as int;
    let m = read_le32(data, 12 + n) as int;
    if data.len() < 20 {
        Err(FrameError::TooSmall)
    } else if read_le32(data, end) != crc32(data.subrange(0, end)) {
        Err(FrameError::ChecksumMismatch)
    } else if data.subrange(0, 4) != magic() {
        Err(FrameError::BadMagic)
    } else if read_le32(data, 4) != CACHE_VERSION {
        Err(FrameError::VersionMismatch { found: read_le32(data, 4) })
    } else if 12 + n > end {
        Err(FrameError::BadMetadataLength)
    } else if 16 + n + m > end {
        Err(FrameError::BadTreeLength)
    } else {
        Ok((data.subrange(12, 12 + n), data.subrange(16 + n, 16 + n + m)))
    }
}

fn push_le32(out: &mut Vec<u8>, v: u32)
    ensures
        final(out)@ == old(out)@ + le32(v),
{
    out.push((v % 256) as u8);
    out.push(((v / 256) % 256) as u8);
    out.push(((v / 65536) % 256) as u8);
    out.push((v / 16777216) as u8);
    assert(final(out)@ =~= old(out)@ + le32(v));
}

fn push_all(out: &mut Vec<u8>, bytes: &Vec<u8>)
    ensures
        final(out)@ == old(out)@ + bytes@,
{
    let mut i: usize = 0;
    while i < bytes.len()
        invariant
            i <= bytes@.len(),
            out@ == old(out)@ + bytes@.subrange(0, i as int),
        decreases bytes@.len() - i,
    {
        out.push(bytes[i]);
        assert(out@ =~= old(out)@ + bytes@.subrange(0, i as int + 1));
        i = i + 1;
    }
    assert(bytes@.subrange(0, i as int) =~= bytes@);
}

fn get_le32(data: &Vec<u8>, at: usize) -> (v: u32)
    requires
        at + 4 <= data.len(),
    ensures
        v == read_le32(data@, at as int),
{
    let b0 = data[at] as u32;
    let b1 = data[at + 1] as u32;
    let b2 = data[at + 2] as u32;
    let b3 = data[at + 3] as u32;
    b0 + 256 * b1 + 65536 * b2 + 16777216 * b3
}

fn copy_range(data: &Vec<u8>, from: usize, to: usize) -> (out: Vec<u8>)
    requires
        from <= to <= data@.len(),
    ensures
        out@ == data@.subrange(from as int, to as int),
{
    let mut out: Vec<u8> = Vec::new();
    let mut i: usize = from;
    while i < to
        invariant
            from <= i <= to <= data@.len(),
            out@ == data@.subrange(from as int, i as int),
        decreases to - i,
    {
        out.push(data[i]);
        assert(out@ =~= data@.subrange(from as int, i as int + 1));
        i = i + 1;
    }
    out
}

/// Lay out a cache file around the two encoded payloads. Fails only where a
/// payload is too long for its 32-bit length field.
pub fn encode_frame(meta: &Vec<u8>, tree: &Vec<u8>) -> (r: std::result::Result<Vec<u8>, FrameError>)
    ensures
        r is Ok <==> meta@.len() <= u32::MAX && tree@.len() <= u32::MAX,
        r is Ok ==> r->Ok_0@ == frame(meta@, tree@),
        r is Err ==> r->Err_0 == FrameError::TooLarge,
{
    if meta.len() > 0xffff_ffff || tree.len() > 0xffff_ffff {
        return Err(FrameError::TooLarge);
    }
    let mut data: Vec<u8> = Vec::new();
    data.push(CACHE_MAGIC[0]);
    data.push(CACHE_MAGIC[1]);
    data.push(CACHE_MAGIC[2]);
    data.push(CACHE_MAGIC[3]);
    assert(data@ =~= magic());
    push_le32(&mut data, CACHE_VERSION);
    push_le32(&mut data, meta.len() as u32);
    push_all(&mut data, meta);
    push_le32(&mut data, tree.len() as u32);
    push_all(&mut data, tree);
    assert(data@ =~= frame_body(meta@, tree@));
    let sum = checksum(data.as_slice());
    push_le32(&mut data, sum);
    Ok(data)
}

/// Take a cache file apart. The checks come in this order: at least 20 bytes;
/// the trailing checksum is that of the bytes before it; magic; version; the two
/// lengths stay within the checked bytes.
pub fn decode_frame(data: &Vec<u8>) -> (r: std::result::Result<Frame, FrameError>)
    ensures
        r is Ok <==> decoded(data@) is Ok,
        r is Ok ==> r->Ok_0.metadata@ == decoded(data@)->Ok_0.0 && r->Ok_0.tree@ == decoded(
            data@,
        )->Ok_0.1,
        r is Err ==> r->Err_0 == decoded(data@)->Err_0,
{
    if data.len() < 20 {
        return Err(FrameError::TooSmall);
    }
    let end: usize = data.len() - 4;
    let stored = get_le32(data, end);
    let head = vstd::slice::slice_subrange(data.as_slice(), 0, end);
    let computed = checksum(head);
    if stored != computed {
        return Err(FrameError::ChecksumMismatch);
    }
    if data[0] != CACHE_MAGIC[0] || data[1] != CACHE_MAGIC[1] || data[2] != CACHE_MAGIC[2]
        || data[3] != CACHE_MAGIC[3] {
        assert(data@.subrange(0, 4)[0] == data@[0]);
        assert(data@.subrange(0, 4)[1] == data@[1]);
        assert(data@.subrange(0, 4)[2] == data@[2]);
        assert(data@.subrange(0, 4)[3] == data@[3]);
        return Err(FrameError::BadMagic);
    }
    assert(data@.subrange(0, 4) =~= magic());
    let version = get_le32(data, 4);
    if version != CACHE_VERSION {
        return Err(FrameError::VersionMismatch { found: version });
    }
    let n = get_le32(data, 8) as u64;
    if 12 + n > end as u64 {
        return Err(FrameError::BadMetadataLength);
    }
    let meta_start: usize = 12;
    let meta_end: usize = 12 + n as usize;
    let m = get_le32(data, meta_end) as u64;
    if 16 + n + m > end as u64 {
        return Err(FrameError::BadTreeLength);
    }
    let tree_start: usize = meta_end + 4;
    let tree_end: usize = tree_start + m as usize;
    let metadata = copy_range(data, meta_start, meta_end);
    let tree = copy_range(data, tree_start, tree_end);
    Ok(Frame { metadata, tree })
}

/// Four bytes written least significant first read back as the same integer.
pub proof fn lemma_le32_round_trip(v: u32)
    ensures
        le32(v).len() == 4,
        read_le32(le32(v), 0) == v,
{
    let s = le32(v);
    assert(s[0] == (v % 256) as u8);
    assert(s[1] == ((v / 256) % 256) as u8);
    assert(s[2] == ((v / 65536) % 256) as u8);
    assert(s[3] == (v / 16777216) as u8);
}

/// Reading an integer depends only on the four bytes it stands in.
pub proof fn lemma_read_le32_at(data: Seq<u8>, at: int, v: u32)
    requires
        0 <= at,
        at + 4 <= data.len(),
        data.subrange(at, at + 4) == le32(v),
    ensures
        read_le32(data, at) == v,
{
    lemma_le32_round_trip(v);
    let s = data.subrange(at, at + 4);
    assert(s[0] == data[at]);
    assert(s[1] == data[at + 1]);
    assert(s[2] == data[at + 2]);
    assert(s[3] == data[at + 3]);
}

/// Framing round trip: what `encode_frame` lays out, `decode_frame` takes apart
/// into the same two payloads.
pub proof fn lemma_frame_round_trip(meta: Seq<u8>, tree: Seq<u8>)
    requires
        meta.len() <= u32::MAX,
        tree.len() <= u32::MAX,
    ensures
        decoded(frame(meta, tree)) == Ok::<(Seq<u8>, Seq<u8>), FrameError>((meta, tree)),
{
    let body = frame_body(meta, tree);
    let data = frame(meta, tree);
    let n = meta.len() as int;
    let m = tree.len() as int;
    let end = data.len() - 4;
    lemma_le32_round_trip(CACHE_VERSION);
    lemma_le32_round_trip(n as u32);
    lemma_le32_round_trip(m as u32);
    lemma_le32_round_trip(crc32(body));
    assert(body.len() == 16 + n + m);
    assert(end == 16 + n + m);
    assert(data.subrange(0, end) =~= body);
    assert(data.subrange(end, end + 4) =~= le32(crc32(body)));
    lemma_read_le32_at(data, end, crc32(body));
    assert(data.subrange(0, 4) =~= magic());
    assert(data.subrange(4, 8) =~= le32(CACHE_VERSION));
    lemma_read_le32_at(data, 4, CACHE_VERSION);
    assert(data.subrange(8, 12) =~= le32(n as u32));
    lemma_read_le32_at(data, 8, n as u32);
    assert(data.subrange(12 + n, 16 + n) =~= le32(m as u32));
    lemma_read_le32_at(data, 12 + n, m as u32);
    assert(data.subrange(12, 12 + n) =~= meta);
    assert(data.subrange(16 + n, 16 + n + m) =~= tree);
}

/// Damage is rejected. Take a cache file and change the bytes before its
/// checksum in any way that changes their CRC-32, leaving the stored checksum
/// alone: the result is refused for its checksum.
pub proof fn lemma_changed_body_rejected(meta: Seq<u8>, tree: Seq<u8>, damaged: Seq<u8>)
    requires
        meta.len() <= u32::MAX,
        tree.len() <= u32::MAX,
        damaged.len() == frame(meta, tree).len(),
        damaged.subrange(damaged.len() - 4, damaged.len() as int) == le32(
            crc32(frame_body(meta, tree)),
        ),
        crc32(damaged.subrange(0, damaged.len() - 4)) != crc32(frame_body(meta, tree)),
    ensures
        decoded(damaged) == Err::<(Seq<u8>, Seq<u8>), FrameError>(FrameError::ChecksumMismatch),
{
    let body = frame_body(meta, tree);
    lemma_le32_round_trip(CACHE_VERSION);
    lemma_le32_round_trip(meta.len() as u32);
    lemma_le32_round_trip(tree.len() as u32);
    lemma_le32_round_trip(crc32(body));
    assert(body.len() == 16 + meta.len() + tree.len());
    lemma_read_le32_at(damaged, damaged.len() - 4, crc32(body));
}

impl FrameError {
    pub open spec fn spec_message(self) -> Seq<char> {
        match self {
            FrameError::TooSmall => "Cache file too small"@,
            FrameError::ChecksumMismatch => "Cache checksum mismatch"@,
            FrameError::BadMagic => "Invalid cache magic"@,
            FrameError::VersionMismatch { found } => "Cache version mismatch: expected "@
                + decimal_digits(CACHE_VERSION as nat) + ", got "@ + decimal_digits(found as nat),
            FrameError::BadMetadataLength => "Invalid metadata length"@,
            FrameError::BadTreeLength => "Invalid tree length"@,
            FrameError::TooLarge => "Cache payload too large"@,
        }
    }

    /// The reason as text.
    pub fn message(&self) -> (s: String)
        ensures
            s@ == self.spec_message(),
    {
        match self {
            FrameError::TooSmall => String::from_str("Cache file too small"),
            FrameError::ChecksumMismatch => String::from_str("Cache checksum mismatch"),
            FrameError::BadMagic => String::from_str("Invalid cache magic"),
            FrameError::VersionMismatch { found } => {
                let mut s = String::from_str("Cache version mismatch: expected ");
                push_decimal(&mut s, CACHE_VERSION as u64);
                s.append(", got ");
                push_decimal(&mut s, *found as u64);
                s
            },
            FrameError::BadMetadataLength => String::from_str("Invalid metadata length"),
            FrameError::BadTreeLength => String::from_str("Invalid tree length"),
            FrameError::TooLarge => String::from_str("Cache payload too large"),
        }
    }

    /// The reason as the library's cache error.
    pub fn into_error(self) -> (e: DuxError)
        ensures
            e is Cache,
            e->Cache_0@ == self.spec_message(),
    {
        DuxError::Cache(self.message())
    }
}

} // verus!
