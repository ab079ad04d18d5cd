//! A record: a tag, a payload and the checksum that guards both, with the
//! exact byte layout in which records are written and read.

use vstd::prelude::*;
use vstd::slice::slice_subrange;
use vstd::utf8::{decode_utf8, valid_utf8};

use crate::bytes::{
    be_bytes, be_value, copy_bytes, lemma_be_bytes_of_value, lemma_be_value_of_bytes,
    u32_from_be_bytes, u32_to_be_bytes,
};
use crate::checksum::{checksum, crc32_iso_hdlc};
use crate::chunk_type::{valid_tag, ChunkType};
use crate::error::ChunkError;

verus! {

/// Bytes of framing around a payload: length, tag and checksum, four each.
pub const FRAME_BYTES: usize = 12;

/// What a record holds, as plain mathematical values.
pub struct ChunkView {
    /// The four bytes of the tag.
    pub chunk_type: Seq<u8>,
    /// The payload.
    pub data: Seq<u8>,
    /// The stored checksum.
    pub crc: u32,
}

impl ChunkView {
    /// The record that carries `data` under the tag `chunk_type`, with the
    /// checksum that belongs to them.
    pub open spec fn of(chunk_type: Seq<u8>, data: Seq<u8>) -> ChunkView {
        ChunkView { chunk_type, data, crc: crc32_iso_hdlc(chunk_type + data) }
    }

    /// What holds of every record: the tag is four ASCII letters, the payload
    /// length fits in 32 bits, and the checksum is the CRC-32 of tag and
    /// payload.
    pub open spec fn well_formed(self) -> bool {
        &&& valid_tag(self.chunk_type)
        &&& self.data.len() <= u32::MAX
        &&& self.crc == crc32_iso_hdlc(self.chunk_type + self.data)
    }

    /// The on-wire form: big-endian payload length, tag, payload, big-endian
    /// checksum.
    pub open spec fn serialized(self) -> Seq<u8> {
        be_bytes(self.data.len() as u32) + self.chunk_type + self.data + be_bytes(self.crc)
    }
}

/// What reading `bytes` as a record yields: the record at the front of
/// `bytes`, or the first reason to reject them.
pub open spec fn parse(bytes: Seq<u8>) -> Result<ChunkView, ChunkError> {
    if bytes.len() < 12 {
        Err(ChunkError::TooSmall)
    } else {
        let len = be_value(bytes.subrange(0, 4)) as int;
        let chunk_type = bytes.subrange(4, 8);
        if !valid_tag(chunk_type) {
            Err(ChunkError::InvalidChunkType)
        } else if bytes.len() - 8 < len + 4 {
            Err(ChunkError::InvalidDataLength)
        } else {
            let data = bytes.subrange(8, 8 + len);
            let crc = be_value(bytes.subrange(8 + len, 12 + len));
            if crc != crc32_iso_hdlc(chunk_type + data) {
                Err(ChunkError::CrcMismatch)
            } else {
                Ok(ChunkView { chunk_type, data, crc })
            }
        }
    }
}

/// The text rendering of a payload: the text it encodes, or nothing where it
/// is not valid UTF-8.
pub open spec fn payload_text(data: Seq<u8>) -> Seq<char> {
    if valid_utf8(data) {
        decode_utf8(data)
    } else {
        Seq::empty()
    }
}

/// A record. Its view is a [`ChunkView`], which is always well formed.
#[derive(Debug)]
pub struct Chunk {
    chunk_type: ChunkType,
    data: Vec<u8>,
    crc: u32,
}

impl View for Chunk {
    type V = ChunkView;

    closed spec fn view(&self) -> ChunkView {
        ChunkView { chunk_type: self.chunk_type@, data: self.data@, crc: self.crc }
    }
}

impl Chunk {
    #[verifier::type_invariant]
    closed spec fn intact(&self) -> bool {
        self@.well_formed()
    }

    /// Builds the record that carries `data` under `chunk_type`, computing its
    /// checksum. The payload is taken as it is, up to the longest that the
    /// length field can encode.
    pub fn new(chunk_type: ChunkType, data: Vec<u8>) -> (chunk: Chunk)
        requires
            data@.len() <= u32::MAX,
        ensures
            chunk@ == ChunkView::of(chunk_type@, data@),
            chunk@.well_formed(),
    {
        let tag: [u8; 4] = chunk_type.bytes();
        let crc: u32 = Chunk::calc_crc(tag.as_slice(), data.as_slice());
        Chunk { chunk_type, data, crc }
    }

    /// The number of payload bytes.
    pub fn length(&self) -> (n: u32)
        ensures
            n == self@.data.len(),
    {
        proof {
            use_type_invariant(self);
        }
        self.data.len() as u32
    }

    /// The tag of the record.
    pub fn chunk_type(&self) -> (tag: &ChunkType)
        ensures
            tag@ == self@.chunk_type,
            valid_tag(tag@),
    {
        proof {
            use_type_invariant(self);
        }
        &self.chunk_type
    }

    /// The payload.
    pub fn data(&self) -> (bytes: &[u8])
        ensures
            bytes@ == self@.data,
    {
        self.data.as_slice()
    }

    /// The checksum of the record, which is always the CRC-32 of its tag
    /// followed by its payload.
    pub fn crc(&self) -> (sum: u32)
        ensures
            sum == self@.crc,
            sum == crc32_iso_hdlc(self@.chunk_type + self@.data),
    {
        proof {
            use_type_invariant(self);
        }
        self.crc
    }

    /// The payload as text, where it is valid UTF-8.
    pub fn data_as_string(&self) -> (res: Result<String, ChunkError>)
        ensures
            valid_utf8(self@.data) ==> res is Ok && res->Ok_0@ == decode_utf8(self@.data),
            !valid_utf8(self@.data) ==> res == Err::<String, ChunkError>(ChunkError::NotUtf8),
    {
        match String::from_utf8(copy_bytes(self.data.as_slice())) {
            Ok(text) => Ok(text),
            Err(_) => Err(ChunkError::NotUtf8),
        }
    }

    /// The payload as text, or no text at all where it is not valid UTF-8.
    pub fn to_string(&self) -> (text: String)
        ensures
            text@ == payload_text(self@.data),
    {
        match self.data_as_string() {
            Ok(text) => text,
            Err(_) => String::new(),
        }
    }

    /// The on-wire form of the record.
    pub fn as_bytes(&self) -> (out: Vec<u8>)
        ensures
            out@ == self@.serialized(),
            out@.len() == self@.data.len() + 12,
    {
        let len_bytes: [u8; 4] = u32_to_be_bytes(self.length());
        let tag: [u8; 4] = self.chunk_type.bytes();
        let crc_bytes: [u8; 4] = u32_to_be_bytes(self.crc);
        let mut out: Vec<u8> = Vec::new();
        out.extend_from_slice(len_bytes.as_slice());
        out.extend_from_slice(tag.as_slice());
        out.extend_from_slice(self.data.as_slice());
        out.extend_from_slice(crc_bytes.as_slice());
        assert(out@ =~= self@.serialized());
        out
    }

    /// The size of the on-wire form in bytes, found without building it.
    ///
    /// The size has to fit the machine word, which it always does where
    /// `usize` is wider than 32 bits.
    pub fn chunk_size(&self) -> (size: usize)
        requires
            self@.data.len() + 12 <= usize::MAX,
        ensures
            size == self@.data.len() + 12,
            size == self@.serialized().len(),
    {
        proof {
            use_type_invariant(self);
        }
        self.data.len() + FRAME_BYTES
    }

    /// The checksum over `chunk_type` followed by `data`.
    fn calc_crc(chunk_type: &[u8], data: &[u8]) -> (sum: u32)
        ensures
            sum == crc32_iso_hdlc(chunk_type@ + data@),
    {
        let mut covered: Vec<u8> = Vec::new();
        covered.extend_from_slice(chunk_type);
        covered.extend_from_slice(data);
        assert(covered@ =~= chunk_type@ + data@);
        checksum(covered.as_slice())
    }
}

impl<'a> TryFrom<&'a [u8]> for Chunk {
    type Error = ChunkError;

    /// Reads the record at the front of `value`, checking its framing, its tag
    /// and its checksum. Bytes after the record are ignored.
    fn try_from(value: &'a [u8]) -> (res: Result<Self, ChunkError>)
        ensures
            match parse(value@) {
                Ok(view) => res is Ok && res->Ok_0@ == view,
                Err(e) => res == Err::<Self, ChunkError>(e),
            },
            res is Ok ==> res->Ok_0@.well_formed(),
            value@.len() < 12 ==> res == Err::<Self, ChunkError>(ChunkError::TooSmall),
    {
        let total: usize = value.len();
        if total < FRAME_BYTES {
            return Err(ChunkError::TooSmall);
        }
        let len: u32 = u32_from_be_bytes(value, 0);
        let tag: [u8; 4] = [value[4], value[5], value[6], value[7]];
        assert(tag@ =~= value@.subrange(4, 8));
        let chunk_type: ChunkType = match ChunkType::try_from(tag) {
            Ok(t) => t,
            Err(e) => {
                return Err(e);
            },
        };
        if total - FRAME_BYTES < len as usize {
            return Err(ChunkError::InvalidDataLength);
        }
        let size: usize = len as usize;
        let crc: u32 = u32_from_be_bytes(value, 8 + size);
        let covered: &[u8] = slice_subrange(value, 4, 8 + size);
        assert(covered@ =~= value@.subrange(4, 8) + value@.subrange(8, 8 + size));
        if crc != checksum(covered) {
            return Err(ChunkError::CrcMismatch);
        }
        let data: Vec<u8> = copy_bytes(slice_subrange(value, 8, 8 + size));
        Ok(Chunk { chunk_type, data, crc })
    }
}

impl<'a> vstd::std_specs::convert::TryFromSpecImpl<&'a [u8]> for Chunk {
    /// A parse fixes the record it returns only up to its view, so `try_from`
    /// states its result over views in its own `ensures` and does not promise
    /// the very value named below.
    open spec fn obeys_try_from_spec() -> bool {
        false
    }

    open spec fn try_from_spec(value: &'a [u8]) -> Result<Self, ChunkError> {
        match parse(value@) {
            Ok(view) => Ok(choose|chunk: Chunk| chunk@ == view),
            Err(e) => Err(e),
        }
    }
}

/// Reading what was written gives back the record: for every tag of four
/// ASCII letters and every payload that the length field can encode, parsing
/// the on-wire form of the record built from them yields that record, with
/// the same tag, payload and checksum.
pub proof fn lemma_parse_of_serialized(chunk_type: Seq<u8>, data: Seq<u8>)
    requires
        valid_tag(chunk_type),
        data.len() <= u32::MAX,
    ensures
        parse(ChunkView::of(chunk_type, data).serialized()) == Ok::<ChunkView, ChunkError>(
            ChunkView::of(chunk_type, data),
        ),
{
    lemma_parse_ignores_trailing(ChunkView::of(chunk_type, data), Seq::empty());
    assert(ChunkView::of(chunk_type, data).serialized() + Seq::<u8>::empty()
        =~= ChunkView::of(chunk_type, data).serialized());
}

/// Bytes after a record do not matter: the on-wire form of a well-formed
/// record, followed by anything, parses to that record.
pub proof fn lemma_parse_ignores_trailing(record: ChunkView, extra: Seq<u8>)
    requires
        record.well_formed(),
    ensures
        parse(record.serialized() + extra) == Ok::<ChunkView, ChunkError>(record),
{
    let len = record.data.len() as int;
    let bytes = record.serialized() + extra;
    lemma_be_value_of_bytes(len as u32);
    lemma_be_value_of_bytes(record.crc);
    assert(bytes.subrange(0, 4) =~= be_bytes(len as u32));
    assert(bytes.subrange(4, 8) =~= record.chunk_type);
    assert(bytes.subrange(8, 8 + len) =~= record.data);
    assert(bytes.subrange(8 + len, 12 + len) =~= be_bytes(record.crc));
}

/// Writing what was read gives back the bytes that were read: whenever
/// `bytes` parse, the record is well formed and its on-wire form is the
/// front of `bytes`, as long as the record; what follows it is left out.
pub proof fn lemma_serialized_of_parse(bytes: Seq<u8>)
    requires
        parse(bytes) is Ok,
    ensures
        parse(bytes)->Ok_0.well_formed(),
        12 + parse(bytes)->Ok_0.data.len() <= bytes.len(),
        parse(bytes)->Ok_0.serialized() == bytes.subrange(
            0,
            12 + parse(bytes)->Ok_0.data.len() as int,
        ),
{
    let record = parse(bytes)->Ok_0;
    let len = be_value(bytes.subrange(0, 4)) as int;
    lemma_be_bytes_of_value(bytes.subrange(0, 4));
    lemma_be_bytes_of_value(bytes.subrange(8 + len, 12 + len));
    assert(record.data.len() == len);
    assert(record.serialized() =~= bytes.subrange(0, 12 + len));
}

/// The on-wire form of a record is twelve bytes longer than its payload.
pub proof fn lemma_serialized_len(record: ChunkView)
    requires
        record.chunk_type.len() == 4,
    ensures
        record.serialized().len() == record.data.len() + 12,
{
}

/// A sequence is any of its prefixes followed by what the prefix leaves.
proof fn lemma_prefix_then_rest(front: Seq<u8>, whole: Seq<u8>)
    requires
        front.is_prefix_of(whole),
    ensures
        front + whole.skip(front.len() as int) == whole,
{
    assert(front + whole.skip(front.len() as int) =~= whole);
}

/// Which bytes parse, and to what: `bytes` parse to `record` exactly when
/// `record` is well formed and `bytes` begin with its on-wire form.
pub proof fn lemma_parse_accepts_records(bytes: Seq<u8>, record: ChunkView)
    ensures
        parse(bytes) == Ok::<ChunkView, ChunkError>(record) <==> record.well_formed()
            && record.serialized().is_prefix_of(bytes),
{
    let accepted = parse(bytes) == Ok::<ChunkView, ChunkError>(record);
    let begins = record.well_formed() && record.serialized().is_prefix_of(bytes);
    assert(accepted ==> begins) by {
        if accepted {
            lemma_serialized_of_parse(bytes);
            lemma_serialized_len(record);
        }
    }
    assert(begins ==> accepted) by {
        if begins {
            let written = record.serialized();
            let extra = bytes.skip(written.len() as int);
            lemma_parse_ignores_trailing(record, extra);
            lemma_prefix_then_rest(written, bytes);
        }
    }
}

/// The checksum is a function of tag and payload: two well-formed records
/// with the same tag and the same payload have the same checksum, and so are
/// the same record.
pub proof fn lemma_checksum_determined(a: ChunkView, b: ChunkView)
    requires
        a.well_formed(),
        b.well_formed(),
        a.chunk_type == b.chunk_type,
        a.data == b.data,
    ensures
        a.crc == b.crc,
        a == b,
{
}

} // verus!
