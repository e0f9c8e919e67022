//! Typed reads of a property's value: words, handles, strings and string
//! lists.

use crate::base::tree::{DevTree, DevTreeView};
use crate::error::DevTreeError;
use crate::slice_read::{
    lemma_be_u32_round_trip, lemma_first_zero_absent, lemma_scan_found, read_be_u64,
    read_bstring0, spec_be_u32, spec_be_u64, spec_read_bstring0, spec_u32_be_bytes,
    unsafe_read_be_u32, SliceReadError,
};
use core::str::from_utf8;
use vstd::prelude::*;
use vstd::string::StringSliceAdditionalSpecFns;
use vstd::utf8::{decode_utf8, valid_utf8};

verus! {

/// A handle value that refers to a node: one 32-bit word.
pub type Phandle = u32;

/// The byte offset of the `index`-th word of `width` bytes, as an error
/// reports it: `index * width`, or `usize::MAX` where that is beyond every
/// offset.
pub open spec fn spec_word_offset(index: usize, width: usize) -> usize {
    if index * width <= usize::MAX {
        (index * width) as usize
    } else {
        usize::MAX
    }
}

/// The `index`-th 32-bit big-endian word of `region`, or the error that says
/// which four bytes are not there.
pub open spec fn spec_prop_u32(region: Seq<u8>, index: usize) -> Result<u32, DevTreeError> {
    if index * 4 + 4 <= region.len() {
        Ok(spec_be_u32(region.subrange(index * 4, index * 4 + 4)))
    } else {
        Err(DevTreeError::InvalidOffset(spec_word_offset(index, 4), 4))
    }
}

/// The `index`-th 64-bit big-endian word of `region`, or the error that says
/// which eight bytes are not there.
pub open spec fn spec_prop_u64(region: Seq<u8>, index: usize) -> Result<u64, DevTreeError> {
    if index * 8 + 8 <= region.len() {
        Ok(spec_be_u64(region.subrange(index * 8, index * 8 + 8)))
    } else {
        Err(DevTreeError::InvalidOffset(spec_word_offset(index, 8), 8))
    }
}

/// A word stored big-endian at byte offset `4 * index` of a region is the
/// word that a 32-bit read at `index` returns.
pub proof fn lemma_u32_reads_stored_word(region: Seq<u8>, index: usize, v: u32)
    requires
        index * 4 + 4 <= region.len(),
        region.subrange(index * 4, index * 4 + 4) == spec_u32_be_bytes(v),
    ensures
        spec_prop_u32(region, index) == Ok::<u32, DevTreeError>(v),
{
    lemma_be_u32_round_trip(v);
}

/// A read of the `index`-th word of `width` bytes that does not lie wholly
/// inside the region yields no value: it fails with
/// `InvalidOffset(index * width, width)`. This is stated for every index whose
/// byte offset is a `usize`.
pub proof fn lemma_word_out_of_range(region: Seq<u8>, index: usize)
    ensures
        index * 4 + 4 > region.len() && index * 4 <= usize::MAX ==> spec_prop_u32(region, index)
            == Err::<u32, DevTreeError>(DevTreeError::InvalidOffset((index * 4) as usize, 4)),
        index * 8 + 8 > region.len() && index * 8 <= usize::MAX ==> spec_prop_u64(region, index)
            == Err::<u64, DevTreeError>(DevTreeError::InvalidOffset((index * 8) as usize, 8)),
{
}

/// The bytes of the name that starts `nameoff` bytes into the name table of
/// `doc`: they run up to the first zero byte.
pub open spec fn spec_name_bytes(doc: DevTreeView, nameoff: nat) -> Result<
    Seq<u8>,
    SliceReadError,
> {
    spec_read_bstring0(doc.buf, (doc.off_dt_strings + nameoff) as int)
}

/// `got` is what decoding the outcome `read` of a scan gives: the error of a
/// failed scan with its kind kept, the text of bytes that are valid UTF-8, and
/// `StrError` for bytes that are not.
pub open spec fn is_decoding_of(
    got: Result<&str, DevTreeError>,
    read: Result<Seq<u8>, SliceReadError>,
) -> bool {
    match read {
        Err(e) => got == Err::<&str, DevTreeError>(DevTreeError::of_read(e)),
        Ok(bytes) => if valid_utf8(bytes) {
            got matches Ok(s) && s@ == decode_utf8(bytes) && s.spec_bytes() == bytes
        } else {
            got matches Err(DevTreeError::StrError(_))
        },
    }
}

/// Decodes the outcome of a scan: see `is_decoding_of`.
pub fn decode_bstring0<'a>(read: Result<&'a [u8], SliceReadError>) -> (r: Result<
    &'a str,
    DevTreeError,
>)
    ensures
        match read {
            Ok(bytes) => is_decoding_of(r, Ok(bytes@)),
            Err(e) => is_decoding_of(r, Err(e)),
        },
{
    match read {
        Err(e) => Err(DevTreeError::from_read(e)),
        Ok(bytes) => match from_utf8(bytes) {
            Ok(s) => {
                proof {
                    vstd::utf8::encode_utf8_decode_utf8(s@);
                }
                Ok(s)
            },
            Err(e) => Err(DevTreeError::StrError(e)),
        },
    }
}

/// What a string reader is, as plain values.
pub struct StringPropIterView {
    /// The bytes of the value region.
    pub region: Seq<u8>,
    /// Where the next string starts.
    pub offset: nat,
}

impl StringPropIterView {
    /// Where the reader stands after one step. It moves only when it yields
    /// a string, and then to just past that string's terminator. A step that
    /// fails leaves it where it was.
    pub open spec fn next_offset(self) -> nat {
        if self.offset >= self.region.len() {
            self.offset
        } else {
            match spec_read_bstring0(self.region, self.offset as int) {
                Ok(bytes) => if valid_utf8(bytes) {
                    self.offset + bytes.len() + 1
                } else {
                    self.offset
                },
                Err(_) => self.offset,
            }
        }
    }

    /// `got` is what one step of the reader yields: nothing at the end of the
    /// region, `InvalidOffset(offset, 0)` beyond it, and otherwise the
    /// decoding of the string that starts at the reader's offset.
    pub open spec fn yields(self, got: Result<Option<&str>, DevTreeError>) -> bool {
        if self.offset == self.region.len() {
            got == Ok::<Option<&str>, DevTreeError>(None)
        } else if self.offset > self.region.len() {
            got == Err::<Option<&str>, DevTreeError>(
                DevTreeError::InvalidOffset(self.offset as usize, 0),
            )
        } else {
            match got {
                Ok(Some(s)) => is_decoding_of(
                    Ok(s),
                    spec_read_bstring0(self.region, self.offset as int),
                ),
                Ok(None) => false,
                Err(e) => is_decoding_of(
                    Err(e),
                    spec_read_bstring0(self.region, self.offset as int),
                ),
            }
        }
    }

}

/// `got` is what reading `region` as one string yields: `ParseError` where
/// the region is empty, otherwise what the first step of a string reader
/// yields, the decoding of the string that starts at offset 0.
pub open spec fn is_single_string_of(got: Result<&str, DevTreeError>, region: Seq<u8>) -> bool {
    if region.len() == 0 {
        got == Err::<&str, DevTreeError>(DevTreeError::ParseError)
    } else {
        is_decoding_of(got, spec_read_bstring0(region, 0))
    }
}

/// Two outcomes of a step are the same: both are the end, both the same
/// text, or both the same kind of error.
pub open spec fn same_step(
    a: Result<Option<&str>, DevTreeError>,
    b: Result<Option<&str>, DevTreeError>,
) -> bool {
    match (a, b) {
        (Ok(None), Ok(None)) => true,
        (Ok(Some(s)), Ok(Some(t))) => s@ == t@,
        (Err(DevTreeError::InvalidOffset(p, w)), Err(DevTreeError::InvalidOffset(q, v))) => p == q
            && w == v,
        (Err(DevTreeError::UnexpectedEndOfInput), Err(DevTreeError::UnexpectedEndOfInput)) => true,
        (Err(DevTreeError::ParseError), Err(DevTreeError::ParseError)) => true,
        (Err(DevTreeError::StrError(_)), Err(DevTreeError::StrError(_))) => true,
        (Err(DevTreeError::CorruptStructure), Err(DevTreeError::CorruptStructure)) => true,
        _ => false,
    }
}

/// What a reader yields, and where it goes, depends on nothing but its region
/// and its offset. So a fresh reader over the same region yields the same
/// strings again, one by one.
pub proof fn lemma_step_is_repeatable(
    a: StringPropIterView,
    b: StringPropIterView,
    got_a: Result<Option<&str>, DevTreeError>,
    got_b: Result<Option<&str>, DevTreeError>,
)
    requires
        a.region == b.region,
        a.offset == b.offset,
        a.yields(got_a),
        b.yields(got_b),
    ensures
        same_step(got_a, got_b),
        a.next_offset() == b.next_offset(),
{
}

/// A step that yields a string moves the reader forward, and never beyond
/// the end of the region: a reader yields finitely many strings.
pub proof fn lemma_step_advances(v: StringPropIterView)
    requires
        v.offset < v.region.len(),
        spec_read_bstring0(v.region, v.offset as int) matches Ok(bytes) && valid_utf8(bytes),
    ensures
        v.offset < v.next_offset() <= v.region.len(),
{
    lemma_scan_found(v.region, v.offset as int, v.region.len() as int);
}

/// A step that fails leaves the reader where it was, so the next step fails
/// in the same way.
pub proof fn lemma_failed_step_stays(v: StringPropIterView, got: Result<Option<&str>, DevTreeError>)
    requires
        v.yields(got),
        got is Err,
    ensures
        v.next_offset() == v.offset,
{
}

/// Reads the strings packed into a value region, one after another.
#[derive(Debug)]
pub struct StringPropIter<'dt> {
    offset: usize,
    propbuf: &'dt [u8],
}

impl<'dt> View for StringPropIter<'dt> {
    type V = StringPropIterView;

    closed spec fn view(&self) -> StringPropIterView {
        StringPropIterView { region: self.propbuf@, offset: self.offset as nat }
    }
}

impl<'dt> Clone for StringPropIter<'dt> {
    /// A second reader at the same place in the same region. The two move
    /// independently from then on.
    fn clone(&self) -> (r: Self)
        ensures
            r@ == self@,
    {
        StringPropIter { offset: self.offset, propbuf: self.propbuf }
    }
}

impl<'dt> StringPropIter<'dt> {
    /// A reader that stands at the start of `propbuf`.
    pub fn new(propbuf: &'dt [u8]) -> (r: Self)
        ensures
            r@ == (StringPropIterView { region: propbuf@, offset: 0 }),
    {
        StringPropIter { propbuf, offset: 0 }
    }

    /// Yields the next string of the region and moves past its terminator.
    /// At the end of the region it yields `Ok(None)`, and goes on doing so.
    ///
    /// Where no terminator follows, the reader fails with
    /// `UnexpectedEndOfInput`; where the bytes before the terminator are not
    /// valid UTF-8, with `StrError`. Either way it stays where it is, and the
    /// next step fails in the same way.
    pub fn next(&mut self) -> (r: Result<Option<&'dt str>, DevTreeError>)
        ensures
            old(self)@.yields(r),
            final(self)@.region == old(self)@.region,
            final(self)@.offset == old(self)@.next_offset(),
    {
        if self.offset == self.propbuf.len() {
            return Ok(None);
        }
        if self.offset > self.propbuf.len() {
            return Err(DevTreeError::InvalidOffset(self.offset, 0));
        }
        let read = read_bstring0(self.propbuf, self.offset);
        match decode_bstring0(read) {
            Ok(s) => {
                if let Ok(u8_slice) = read {
                    // Include the terminator.
                    self.offset += u8_slice.len() + 1;
                }
                Ok(Some(s))
            },
            Err(e) => Err(e),
        }
    }
}

/// The typed reads that every property handle offers. A handle says where its
/// value region, its name and its document are; the reads are built on those.
pub trait PropReader<'dt> {
    /// The handle to a node that `node` returns.
    type NodeType;

    /// The bytes of the value region.
    spec fn region(&self) -> Seq<u8>;

    /// The offset of the property's name in the document's name table.
    spec fn name_offset(&self) -> nat;

    /// The document that holds the property.
    spec fn document(&self) -> DevTreeView;

    /// The node that the property belongs to, if it belongs to one.
    spec fn owner(&self) -> Option<Self::NodeType>;

    /// The value region.
    fn propbuf(&self) -> (r: &'dt [u8])
        ensures
            r@ == self.region(),
    ;

    /// The offset of the property's name in the document's name table.
    fn nameoff(&self) -> (r: usize)
        ensures
            r == self.name_offset(),
    ;

    /// The document that holds the property.
    fn fdt(&self) -> (r: &DevTree<'dt>)
        ensures
            r@ == self.document(),
    ;

    /// The property's name: the null-terminated string that starts
    /// `nameoff` bytes into the document's name table. Fails with
    /// `UnexpectedEndOfInput` where no zero byte follows that place in the
    /// buffer, and with `StrError` where the bytes are not valid UTF-8.
    fn name(&self) -> (r: Result<&'dt str, DevTreeError>)
        ensures
            is_decoding_of(
                r,
                spec_name_bytes(self.document(), self.name_offset()),
            ),
    {
        let fdt = self.fdt();
        let buf = fdt.buf();
        match fdt.off_dt_strings().checked_add(self.nameoff()) {
            Some(str_offset) => decode_bstring0(read_bstring0(buf, str_offset)),
            None => {
                proof {
                    assert(buf@.len() == buf.len());
                    lemma_first_zero_absent(
                        buf@,
                        (fdt@.off_dt_strings + self.name_offset()) as int,
                        buf@.len() as int,
                    );
                }
                Err(DevTreeError::UnexpectedEndOfInput)
            },
        }
    }

    /// The length of the value region in bytes.
    fn length(&self) -> (r: usize)
        ensures
            r == self.region().len(),
    {
        self.propbuf().len()
    }

    /// The node that the property belongs to. Every property of a sound
    /// document has one. Where there is none, this fails with
    /// `CorruptStructure`, on every call: no other node is returned in its
    /// place.
    fn node(&self) -> (r: Result<Self::NodeType, DevTreeError>)
        ensures
            match self.owner() {
                Some(node) => r == Ok::<Self::NodeType, DevTreeError>(node),
                None => r == Err::<Self::NodeType, DevTreeError>(DevTreeError::CorruptStructure),
            },
    ;

    /// The `index`-th 32-bit big-endian word of the value, which lies at byte
    /// offset `4 * index`. Fails with `InvalidOffset(4 * index, 4)` unless
    /// all four bytes lie inside the region; an offset too large for a
    /// `usize` is reported as `usize::MAX`.
    fn u32(&self, index: usize) -> (r: Result<u32, DevTreeError>)
        ensures
            r == spec_prop_u32(self.region(), index),
    {
        let propbuf = self.propbuf();
        match index.checked_mul(4) {
            Some(offset) => match unsafe_read_be_u32(propbuf, offset) {
                Ok(word) => Ok(word),
                Err(e) => Err(DevTreeError::from_read(e)),
            },
            None => {
                assert(propbuf@.len() == propbuf.len());
                Err(DevTreeError::InvalidOffset(usize::MAX, 4))
            },
        }
    }

    /// The `index`-th 64-bit big-endian word of the value, which lies at byte
    /// offset `8 * index`. Fails with `InvalidOffset(8 * index, 8)` unless
    /// all eight bytes lie inside the region; an offset too large for a
    /// `usize` is reported as `usize::MAX`.
    fn u64(&self, index: usize) -> (r: Result<u64, DevTreeError>)
        ensures
            r == spec_prop_u64(self.region(), index),
    {
        let propbuf = self.propbuf();
        match index.checked_mul(8) {
            Some(offset) => match read_be_u64(propbuf, offset) {
                Ok(word) => Ok(word),
                Err(e) => Err(DevTreeError::from_read(e)),
            },
            None => {
                assert(propbuf@.len() == propbuf.len());
                Err(DevTreeError::InvalidOffset(usize::MAX, 8))
            },
        }
    }

    /// The `index`-th handle of the value. A handle is one 32-bit word, so
    /// this reads what `u32` reads.
    fn phandle(&self, index: usize) -> (r: Result<Phandle, DevTreeError>)
        ensures
            r == spec_prop_u32(self.region(), index),
    {
        self.u32(index)
    }

    /// The value as one string: the first string of the region. Fails with
    /// `ParseError` where the region is empty.
    fn str(&self) -> (r: Result<&'dt str, DevTreeError>)
        ensures
            is_single_string_of(r, self.region()),
    {
        let mut strings = self.iter_str();
        match strings.next() {
            Ok(Some(s)) => Ok(s),
            Ok(None) => Err(DevTreeError::ParseError),
            Err(e) => Err(e),
        }
    }

    /// A reader of the strings packed into the value, standing at its start.
    fn iter_str(&self) -> (r: StringPropIter<'dt>)
        ensures
            r@ == (StringPropIterView { region: self.region(), offset: 0 }),
    {
        StringPropIter::new(self.propbuf())
    }

    /// The value region as it is.
    fn raw(&self) -> (r: &'dt [u8])
        ensures
            r@ == self.region(),
    {
        self.propbuf()
    }
}

} // verus!
