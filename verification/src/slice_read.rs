//! Bounds-checked reads of big-endian words and null-terminated byte runs
//! from a borrowed byte region.

use vstd::prelude::*;

verus! {

/// Why a read from a byte region failed.
#[derive(Debug, Copy, Clone, PartialEq, Eq, Structural)]
pub enum SliceReadError {
    /// The `width` bytes starting at `position` do not all lie inside the
    /// region. The fields are `(position, width)`.
    InvalidOffset(usize, usize),
    /// A scan for a zero byte ran out of bytes before finding one.
    UnexpectedEndOfInput,
}

// ----- Big-endian words -----

/// The value of four bytes read as a big-endian word.
pub open spec fn spec_be_u32(b: Seq<u8>) -> u32
    recommends
        b.len() == 4,
{
    (b[0] * 0x100_0000 + b[1] * 0x1_0000 + b[2] * 0x100 + b[3]) as u32
}

/// The value of eight bytes read as a big-endian word.
pub open spec fn spec_be_u64(b: Seq<u8>) -> u64
    recommends
        b.len() == 8,
{
    (b[0] * 0x100_0000_0000_0000 + b[1] * 0x1_0000_0000_0000 + b[2] * 0x100_0000_0000 + b[3]
        * 0x1_0000_0000 + b[4] * 0x100_0000 + b[5] * 0x1_0000 + b[6] * 0x100 + b[7]) as u64
}

/// The four bytes that store `v` as a big-endian word.
pub open spec fn spec_u32_be_bytes(v: u32) -> Seq<u8> {
    seq![
        (v / 0x100_0000) as u8,
        (v / 0x1_0000 % 0x100) as u8,
        (v / 0x100 % 0x100) as u8,
        (v % 0x100) as u8,
    ]
}

/// The result of reading a 32-bit big-endian word at byte offset `pos`.
pub open spec fn spec_read_be_u32(buf: Seq<u8>, pos: usize) -> Result<u32, SliceReadError> {
    if pos + 4 <= buf.len() {
        Ok(spec_be_u32(buf.subrange(pos as int, pos + 4)))
    } else {
        Err(SliceReadError::InvalidOffset(pos, 4))
    }
}

/// The result of reading a 64-bit big-endian word at byte offset `pos`.
pub open spec fn spec_read_be_u64(buf: Seq<u8>, pos: usize) -> Result<u64, SliceReadError> {
    if pos + 8 <= buf.len() {
        Ok(spec_be_u64(buf.subrange(pos as int, pos + 8)))
    } else {
        Err(SliceReadError::InvalidOffset(pos, 8))
    }
}

/// Decoding the big-endian bytes of a word gives the word back.
pub proof fn lemma_be_u32_round_trip(v: u32)
    ensures
        spec_u32_be_bytes(v).len() == 4,
        spec_be_u32(spec_u32_be_bytes(v)) == v,
{
    assert(v / 0x100_0000 < 0x100 && v == (v / 0x100_0000) * 0x100_0000 + (v / 0x1_0000 % 0x100)
        * 0x1_0000 + (v / 0x100 % 0x100) * 0x100 + v % 0x100) by (bit_vector);
}

/// A word whose bytes do not all lie inside the region is not read: the read
/// fails with the offset and the width that it was asked for.
pub proof fn lemma_read_be_out_of_range(buf: Seq<u8>, pos: usize)
    ensures
        pos + 4 > buf.len() ==> spec_read_be_u32(buf, pos) == Err::<u32, SliceReadError>(
            SliceReadError::InvalidOffset(pos, 4),
        ),
        pos + 8 > buf.len() ==> spec_read_be_u64(buf, pos) == Err::<u64, SliceReadError>(
            SliceReadError::InvalidOffset(pos, 8),
        ),
{
}

/// Whether the `width` bytes at `pos` all lie inside a region of `len` bytes.
fn in_range(len: usize, pos: usize, width: usize) -> (r: bool)
    ensures
        r <==> pos + width <= len,
{
    pos <= len && len - pos >= width
}

/// Decodes the four bytes at `pos` as a big-endian word.
fn be_word_at(buf: &[u8], pos: usize) -> (r: u32)
    requires
        pos + 4 <= buf@.len(),
    ensures
        r == spec_be_u32(buf@.subrange(pos as int, pos + 4)),
{
    let b0: u8 = buf[pos];
    let b1: u8 = buf[pos + 1];
    let b2: u8 = buf[pos + 2];
    let b3: u8 = buf[pos + 3];
    let word: u32 = ((b0 as u32) << 24) | ((b1 as u32) << 16) | ((b2 as u32) << 8) | (b3 as u32);
    assert(word == b0 * 0x100_0000 + b1 * 0x1_0000 + b2 * 0x100 + b3) by (bit_vector)
        requires
            word == ((b0 as u32) << 24) | ((b1 as u32) << 16) | ((b2 as u32) << 8) | (b3 as u32),
    ;
    word
}

/// Reads the 32-bit big-endian word at byte offset `pos`, which need not be a
/// multiple of four. Fails with `InvalidOffset(pos, 4)` unless `pos + 4` is
/// within the region.
pub fn read_be_u32(buf: &[u8], pos: usize) -> (r: Result<u32, SliceReadError>)
    ensures
        r == spec_read_be_u32(buf@, pos),
{
    if !in_range(buf.len(), pos, 4) {
        return Err(SliceReadError::InvalidOffset(pos, 4));
    }
    Ok(be_word_at(buf, pos))
}

/// Reads the 64-bit big-endian word at byte offset `pos`, which need not be a
/// multiple of eight. Fails with `InvalidOffset(pos, 8)` unless `pos + 8` is
/// within the region.
pub fn read_be_u64(buf: &[u8], pos: usize) -> (r: Result<u64, SliceReadError>)
    ensures
        r == spec_read_be_u64(buf@, pos),
{
    if !in_range(buf.len(), pos, 8) {
        return Err(SliceReadError::InvalidOffset(pos, 8));
    }
    let hi: u32 = be_word_at(buf, pos);
    let lo: u32 = be_word_at(buf, pos + 4);
    let word: u64 = ((hi as u64) << 32) | (lo as u64);
    assert(word == hi * 0x1_0000_0000 + lo) by (bit_vector)
        requires
            word == ((hi as u64) << 32) | (lo as u64),
    ;
    Ok(word)
}

/// Reads the 32-bit big-endian word at byte offset `pos`, for callers whose
/// regions hold their words at multiples of four bytes, such as the value of
/// a property. Words are decoded byte by byte, so a caller that breaks this
/// promise still gets what `read_be_u32` returns, and the same failure:
/// `InvalidOffset(pos, 4)` unless `pos + 4` is within the region.
pub fn unsafe_read_be_u32(buf: &[u8], pos: usize) -> (r: Result<u32, SliceReadError>)
    ensures
        r == spec_read_be_u32(buf@, pos),
{
    read_be_u32(buf, pos)
}

/// Reads the 64-bit big-endian word at byte offset `pos`, for callers whose
/// regions hold their words at multiples of eight bytes. It returns what
/// `read_be_u64` returns, and fails as it does: with `InvalidOffset(pos, 8)`
/// unless `pos + 8` is within the region.
pub fn unsafe_read_be_u64(buf: &[u8], pos: usize) -> (r: Result<u64, SliceReadError>)
    ensures
        r == spec_read_be_u64(buf@, pos),
{
    read_be_u64(buf, pos)
}

// ----- Null-terminated runs -----

/// `end` is the index of the first zero byte of `buf` at or after `pos` and
/// before `cap`.
pub open spec fn is_first_zero(buf: Seq<u8>, pos: int, cap: int, end: int) -> bool {
    &&& 0 <= pos <= end < cap
    &&& end < buf.len()
    &&& buf[end] == 0
    &&& forall|k: int| pos <= k < end ==> buf[k] != 0
}

/// No byte of `buf` at or after `pos` and before `cap` is zero.
pub open spec fn no_zero(buf: Seq<u8>, pos: int, cap: int) -> bool {
    forall|k: int| pos <= k < cap && 0 <= k < buf.len() ==> buf[k] != 0
}

/// The index of the first zero byte of `buf` at or after `pos` and before
/// `cap`, if there is one.
pub open spec fn first_zero(buf: Seq<u8>, pos: int, cap: int) -> Option<int> {
    if exists|end: int| is_first_zero(buf, pos, cap, end) {
        Some(choose|end: int| is_first_zero(buf, pos, cap, end))
    } else {
        None
    }
}

/// The end of a scan that starts at `pos` and may look at no more than
/// `max_len` bytes of a region of `len` bytes.
pub open spec fn scan_cap(len: int, pos: int, max_len: int) -> int {
    if pos + max_len < len {
        pos + max_len
    } else {
        len
    }
}

/// What a scan for a null-terminated run yields: the bytes from `pos` up to,
/// and without, the first zero byte before `cap`.
pub open spec fn spec_scan_bstring0(buf: Seq<u8>, pos: int, cap: int) -> Result<
    Seq<u8>,
    SliceReadError,
> {
    match first_zero(buf, pos, cap) {
        Some(end) => Ok(buf.subrange(pos, end)),
        None => Err(SliceReadError::UnexpectedEndOfInput),
    }
}

/// The result of `read_bstring0` on the bytes `buf`.
pub open spec fn spec_read_bstring0(buf: Seq<u8>, pos: int) -> Result<Seq<u8>, SliceReadError> {
    spec_scan_bstring0(buf, pos, buf.len() as int)
}

/// The result of `nread_bstring0` on the bytes `buf`.
pub open spec fn spec_nread_bstring0(buf: Seq<u8>, pos: int, max_len: int) -> Result<
    Seq<u8>,
    SliceReadError,
> {
    spec_scan_bstring0(buf, pos, scan_cap(buf.len() as int, pos, max_len))
}

/// `got` is the outcome `want`, with the returned slice taken by its bytes.
pub open spec fn same_bytes(
    got: Result<&[u8], SliceReadError>,
    want: Result<Seq<u8>, SliceReadError>,
) -> bool {
    match got {
        Ok(run) => want == Ok::<Seq<u8>, SliceReadError>(run@),
        Err(e) => want == Err::<Seq<u8>, SliceReadError>(e),
    }
}

/// A first zero byte is unique: once one index qualifies, it is the value of
/// `first_zero`.
pub proof fn lemma_first_zero_found(buf: Seq<u8>, pos: int, cap: int, end: int)
    requires
        is_first_zero(buf, pos, cap, end),
    ensures
        first_zero(buf, pos, cap) == Some(end),
{
    let found = choose|e: int| is_first_zero(buf, pos, cap, e);
    assert(is_first_zero(buf, pos, cap, found));
    if found < end {
        assert(buf[found] != 0);
    } else if end < found {
        assert(buf[end] != 0);
    }
}

/// Where no byte is zero, `first_zero` finds nothing.
pub proof fn lemma_first_zero_absent(buf: Seq<u8>, pos: int, cap: int)
    requires
        no_zero(buf, pos, cap),
    ensures
        first_zero(buf, pos, cap) is None,
{
    if exists|end: int| is_first_zero(buf, pos, cap, end) {
        let end = choose|end: int| is_first_zero(buf, pos, cap, end);
        assert(buf[end] != 0);
    }
}

/// A scan that succeeds returns the bytes up to a first zero byte: the run
/// ends where that byte lies, inside the region and before `cap`.
pub proof fn lemma_scan_found(buf: Seq<u8>, pos: int, cap: int)
    requires
        spec_scan_bstring0(buf, pos, cap) is Ok,
    ensures
        is_first_zero(buf, pos, cap, pos + spec_scan_bstring0(buf, pos, cap)->Ok_0.len()),
{
}

/// A region without a zero byte holds no string: the scan fails with
/// `UnexpectedEndOfInput` wherever it starts.
pub proof fn lemma_read_bstring0_without_zero(buf: Seq<u8>, pos: int)
    requires
        forall|k: int| 0 <= k < buf.len() ==> buf[k] != 0,
    ensures
        spec_read_bstring0(buf, pos) == Err::<Seq<u8>, SliceReadError>(
            SliceReadError::UnexpectedEndOfInput,
        ),
{
    lemma_first_zero_absent(buf, pos, buf.len() as int);
}

/// A region that is a run of nonzero bytes followed by its terminator reads
/// back as that run: the terminator may be the region's last byte.
pub proof fn lemma_read_bstring0_terminated(run: Seq<u8>)
    requires
        forall|k: int| 0 <= k < run.len() ==> run[k] != 0,
    ensures
        spec_read_bstring0(run.push(0), 0) == Ok::<Seq<u8>, SliceReadError>(run),
{
    let buf = run.push(0);
    assert(is_first_zero(buf, 0, buf.len() as int, run.len() as int));
    lemma_first_zero_found(buf, 0, buf.len() as int, run.len() as int);
    assert(buf.subrange(0, run.len() as int) == run);
}

/// A bounded scan does not see a terminator that lies at or beyond its bound:
/// it fails with `UnexpectedEndOfInput` although the unbounded scan from the
/// same offset succeeds.
pub proof fn lemma_nread_bstring0_stops_at_bound(buf: Seq<u8>, pos: int, max_len: int, end: int)
    requires
        is_first_zero(buf, pos, buf.len() as int, end),
        pos + max_len <= end,
    ensures
        spec_nread_bstring0(buf, pos, max_len) == Err::<Seq<u8>, SliceReadError>(
            SliceReadError::UnexpectedEndOfInput,
        ),
        spec_read_bstring0(buf, pos) == Ok::<Seq<u8>, SliceReadError>(buf.subrange(pos, end)),
{
    lemma_first_zero_found(buf, pos, buf.len() as int, end);
    lemma_first_zero_absent(buf, pos, scan_cap(buf.len() as int, pos, max_len));
}

/// A bounded scan whose bound lies beyond the terminator finds what the
/// unbounded scan finds.
pub proof fn lemma_nread_bstring0_within_bound(buf: Seq<u8>, pos: int, max_len: int, end: int)
    requires
        is_first_zero(buf, pos, buf.len() as int, end),
        end < pos + max_len,
    ensures
        spec_nread_bstring0(buf, pos, max_len) == spec_read_bstring0(buf, pos),
{
    lemma_first_zero_found(buf, pos, buf.len() as int, end);
    lemma_first_zero_found(buf, pos, scan_cap(buf.len() as int, pos, max_len), end);
}

/// Scans the bytes of `buf` from `pos` up to `cap` for the first zero byte.
fn scan_bstring0<'a>(buf: &'a [u8], pos: usize, cap: usize) -> (r: Result<&'a [u8], SliceReadError>)
    requires
        cap <= buf@.len(),
    ensures
        same_bytes(r, spec_scan_bstring0(buf@, pos as int, cap as int)),
        match r {
            Ok(run) => is_first_zero(buf@, pos as int, cap as int, pos + run@.len()),
            Err(_) => no_zero(buf@, pos as int, cap as int),
        },
{
    let mut i: usize = pos;
    while i < cap
        invariant
            pos <= i,
            cap <= buf@.len(),
            no_zero(buf@, pos as int, i as int),
        decreases cap - i,
    {
        if buf[i] == 0 {
            proof {
                lemma_first_zero_found(buf@, pos as int, cap as int, i as int);
            }
            return Ok(vstd::slice::slice_subrange(buf, pos, i));
        }
        i += 1;
    }
    proof {
        lemma_first_zero_absent(buf@, pos as int, cap as int);
    }
    Err(SliceReadError::UnexpectedEndOfInput)
}

/// Returns the bytes from `pos` up to the first zero byte, without it. Fails
/// with `UnexpectedEndOfInput` when no zero byte lies at or after `pos`.
pub fn read_bstring0<'a>(buf: &'a [u8], pos: usize) -> (r: Result<&'a [u8], SliceReadError>)
    ensures
        same_bytes(r, spec_read_bstring0(buf@, pos as int)),
        match r {
            Ok(run) => is_first_zero(buf@, pos as int, buf@.len() as int, pos + run@.len()),
            Err(_) => no_zero(buf@, pos as int, buf@.len() as int),
        },
{
    scan_bstring0(buf, pos, buf.len())
}

/// Like `read_bstring0`, but looks at no more than `len` bytes: a zero byte
/// at or beyond `pos + len` is not found, and the scan then fails with
/// `UnexpectedEndOfInput`.
pub fn nread_bstring0<'a>(buf: &'a [u8], pos: usize, len: usize) -> (r: Result<
    &'a [u8],
    SliceReadError,
>)
    ensures
        same_bytes(r, spec_nread_bstring0(buf@, pos as int, len as int)),
        match r {
            Ok(run) => is_first_zero(
                buf@,
                pos as int,
                scan_cap(buf@.len() as int, pos as int, len as int),
                pos + run@.len(),
            ),
            Err(_) => no_zero(
                buf@,
                pos as int,
                scan_cap(buf@.len() as int, pos as int, len as int),
            ),
        },
{
    let end: usize = match pos.checked_add(len) {
        Some(sum) => if sum < buf.len() {
            sum
        } else {
            buf.len()
        },
        None => buf.len(),
    };
    scan_bstring0(buf, pos, end)
}

} // verus!
