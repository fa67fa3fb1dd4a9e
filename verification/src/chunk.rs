//! The chunk itself: a payload coupled with its type tag, guarded by a
//! CRC-32 checksum, and its exact on-disk byte layout
//! `[length:4][tag:4][payload:N][checksum:4]` (big-endian integers).

use vstd::prelude::*;
use vstd::utf8::decode_utf8;
use vstd::utf8::valid_utf8;

use crate::be32::lemma_u32_to_from_be_bytes;
use crate::be32::spec_u32_from_be_bytes;
use crate::be32::spec_u32_to_be_bytes;
use crate::be32::u32_from_be_bytes;
use crate::be32::u32_to_be_bytes;
use crate::chunk_type::all_ascii_letters;
use crate::chunk_type::ChunkType;
use crate::crc32::crc32;
use crate::crc32::crc32_of;
use crate::text::dec_chars;
use crate::text::string_from_utf8;
use crate::text::u32_to_dec_string;

verus! {

/// Why an operation on a [`Chunk`] failed.
#[derive(Debug, Clone, Copy)]
pub enum ChunkError {
    /// A decoded buffer's stored checksum disagrees with the checksum
    /// recomputed over its tag and payload: the bytes are corrupt or forged.
    InvalidCRC,
    /// The payload was asked for as text but its bytes are not valid UTF-8.
    UTF8UncompatibleChunk,
    /// A decoded buffer's tag bytes are not all ASCII letters.
    InvalidChunkTypeBytes,
    /// The buffer is too short for a declared field or for the declared
    /// payload length.
    TruncatedInput,
}

/// The mathematical content of a chunk: its four fields as plain values.
#[verifier::ext_equal]
pub ghost struct ChunkModel {
    /// The payload's byte count, as the 32-bit length field holds it.
    pub data_length: u32,
    /// The 4 tag bytes.
    pub chunk_type: Seq<u8>,
    /// The payload bytes.
    pub chunk_data: Seq<u8>,
    /// The stored CRC-32 checksum.
    pub crc: u32,
}

/// A well-formed chunk: a 4-letter tag, a length field that equals the
/// payload's byte count, and a checksum that equals the CRC-32 of the tag
/// bytes followed by the payload bytes. Both construction paths establish
/// this and nothing mutates a chunk afterwards.
pub open spec fn chunk_wf(m: ChunkModel) -> bool {
    &&& m.chunk_type.len() == 4
    &&& all_ascii_letters(m.chunk_type)
    &&& m.data_length == m.chunk_data.len()
    &&& m.crc == crc32_of(m.chunk_type + m.chunk_data)
}

/// The canonical byte layout of a chunk: 4 length bytes, the 4 tag bytes,
/// the payload verbatim, then 4 checksum bytes, integers big-endian.
pub open spec fn spec_serialize(m: ChunkModel) -> Seq<u8> {
    spec_u32_to_be_bytes(m.data_length) + m.chunk_type + m.chunk_data + spec_u32_to_be_bytes(
        m.crc,
    )
}

/// What decoding a byte buffer that begins at a chunk boundary yields:
/// the declared payload length is read first; the buffer must hold the 12
/// fixed bytes plus that many payload bytes (else `TruncatedInput`), the
/// tag bytes must all be ASCII letters (else `InvalidChunkTypeBytes`), and
/// the stored checksum must equal the checksum recomputed over tag and
/// payload (else `InvalidCRC`). Trailing bytes beyond the declared length
/// are not consumed.
pub open spec fn spec_decode(b: Seq<u8>) -> Result<ChunkModel, ChunkError> {
    if b.len() < 4 {
        Err(ChunkError::TruncatedInput)
    } else {
        let n = spec_u32_from_be_bytes(b.subrange(0, 4)) as int;
        if b.len() < 12 + n {
            Err(ChunkError::TruncatedInput)
        } else {
            let tag = b.subrange(4, 8);
            let payload = b.subrange(8, 8 + n);
            let stored = spec_u32_from_be_bytes(b.subrange(8 + n, 12 + n));
            if !all_ascii_letters(tag) {
                Err(ChunkError::InvalidChunkTypeBytes)
            } else if stored != crc32_of(tag + payload) {
                Err(ChunkError::InvalidCRC)
            } else {
                Ok(
                    ChunkModel {
                        data_length: spec_u32_from_be_bytes(b.subrange(0, 4)),
                        chunk_type: tag,
                        chunk_data: payload,
                        crc: stored,
                    },
                )
            }
        }
    }
}

/// A length-prefixed, type-tagged, checksum-verified byte record; the
/// atomic unit of the PNG container format.
#[derive(Debug)]
pub struct Chunk {
    data_length: u32,
    chunk_type: ChunkType,
    chunk_data: Vec<u8>,
    crc: u32,
}

impl View for Chunk {
    type V = ChunkModel;

    closed spec fn view(&self) -> ChunkModel {
        ChunkModel {
            data_length: self.data_length,
            chunk_type: self.chunk_type@,
            chunk_data: self.chunk_data@,
            crc: self.crc,
        }
    }
}

/// The CRC-32 checksum of the 4 tag bytes followed by the payload bytes:
/// the quantity every chunk's checksum field must equal.
fn checksum_over(tag: &[u8; 4], payload: &[u8]) -> (r: u32)
    ensures
        r == crc32_of(tag@ + payload@),
{
    let mut checked: Vec<u8> = Vec::new();
    checked.push(tag[0]);
    checked.push(tag[1]);
    checked.push(tag[2]);
    checked.push(tag[3]);
    let mut i: usize = 0;
    while i < payload.len()
        invariant
            i <= payload@.len(),
            checked@ == tag@ + payload@.subrange(0, i as int),
        decreases payload@.len() - i,
    {
        checked.push(payload[i]);
        proof {
            assert(checked@ =~= tag@ + payload@.subrange(0, i + 1));
        }
        i = i + 1;
    }
    proof {
        assert(checked@ =~= tag@ + payload@);
    }
    crc32(checked.as_slice())
}

impl Chunk {
    /// A chunk is well-formed when its model is; see [`chunk_wf`].
    pub open spec fn wf(&self) -> bool {
        chunk_wf(self@)
    }

    /// Builds a chunk from an already validated tag and an arbitrary
    /// payload; the length field and the checksum are computed here, so
    /// the result is always well-formed.
    pub fn new(chunk_type: ChunkType, chunk_data: Vec<u8>) -> (r: Chunk)
        requires
            chunk_type.wf(),
            chunk_data@.len() <= u32::MAX,
        ensures
            r.wf(),
            r@.chunk_type == chunk_type@,
            r@.chunk_data == chunk_data@,
            r@.data_length == chunk_data@.len(),
    {
        let data_length = chunk_data.len() as u32;
        let tag = chunk_type.bytes();
        let crc = checksum_over(&tag, chunk_data.as_slice());
        Chunk { data_length, chunk_type, chunk_data, crc }
    }

    /// The payload's byte count, as the length field holds it.
    pub fn length(&self) -> (r: u32)
        ensures
            r == self@.data_length,
    {
        self.data_length
    }

    /// The chunk's type tag.
    pub fn chunk_type(&self) -> (r: &ChunkType)
        ensures
            r@ == self@.chunk_type,
    {
        &self.chunk_type
    }

    /// The payload bytes.
    pub fn data(&self) -> (r: &[u8])
        ensures
            r@ == self@.chunk_data,
    {
        self.chunk_data.as_slice()
    }

    /// The chunk's checksum, recomputed over the current tag and payload
    /// on every call rather than read from the stored field: on a
    /// well-formed chunk the two always agree, and exposing the recomputed
    /// value keeps any drift from being observable.
    pub fn crc(&self) -> (r: u32)
        ensures
            r == crc32_of(self@.chunk_type + self@.chunk_data),
            self.wf() ==> r == self@.crc,
    {
        let tag = self.chunk_type.bytes();
        checksum_over(&tag, self.chunk_data.as_slice())
    }

    /// The payload interpreted as UTF-8 text: the decoded text when the
    /// payload is valid UTF-8, `UTF8UncompatibleChunk` otherwise. Pure; no
    /// other operation on the chunk is affected either way.
    pub fn data_as_string(&self) -> (r: Result<String, ChunkError>)
        ensures
            r is Ok <==> valid_utf8(self@.chunk_data),
            r matches Ok(s) ==> s@ == decode_utf8(self@.chunk_data),
            r matches Err(e) ==> e is UTF8UncompatibleChunk,
    {
        let mut copy: Vec<u8> = Vec::new();
        let mut i: usize = 0;
        while i < self.chunk_data.len()
            invariant
                i <= self.chunk_data@.len(),
                copy@ == self.chunk_data@.subrange(0, i as int),
            decreases self.chunk_data@.len() - i,
        {
            copy.push(self.chunk_data[i]);
            proof {
                assert(copy@ =~= self.chunk_data@.subrange(0, i + 1));
            }
            i = i + 1;
        }
        proof {
            assert(copy@ =~= self.chunk_data@);
        }
        match string_from_utf8(copy) {
            Some(s) => Ok(s),
            None => Err(ChunkError::UTF8UncompatibleChunk),
        }
    }

    /// Serializes the chunk to its canonical byte layout; see
    /// [`spec_serialize`]. The result is always `12 + length` bytes long.
    pub fn as_bytes(&self) -> (r: Vec<u8>)
        ensures
            r@ == spec_serialize(self@),
            r@.len() == 12 + self@.chunk_data.len(),
    {
        let mut out: Vec<u8> = Vec::new();
        let len_bytes = u32_to_be_bytes(self.data_length);
        out.push(len_bytes[0]);
        out.push(len_bytes[1]);
        out.push(len_bytes[2]);
        out.push(len_bytes[3]);
        let tag = self.chunk_type.bytes();
        out.push(tag[0]);
        out.push(tag[1]);
        out.push(tag[2]);
        out.push(tag[3]);
        let mut i: usize = 0;
        while i < self.chunk_data.len()
            invariant
                i <= self.chunk_data@.len(),
                out@ == spec_u32_to_be_bytes(self@.data_length) + self@.chunk_type
                    + self@.chunk_data.subrange(0, i as int),
            decreases self.chunk_data@.len() - i,
        {
            out.push(self.chunk_data[i]);
            proof {
                assert(out@ =~= spec_u32_to_be_bytes(self@.data_length) + self@.chunk_type
                    + self@.chunk_data.subrange(0, i + 1));
            }
            i = i + 1;
        }
        let crc_bytes = u32_to_be_bytes(self.crc);
        out.push(crc_bytes[0]);
        out.push(crc_bytes[1]);
        out.push(crc_bytes[2]);
        out.push(crc_bytes[3]);
        proof {
            assert(self.chunk_data@.subrange(0, self.chunk_data@.len() as int)
                =~= self.chunk_data@);
            assert(out@ =~= spec_serialize(self@));
        }
        out
    }

    /// Decodes one chunk from a byte buffer that begins at a chunk
    /// boundary; see [`spec_decode`] for exactly which buffers succeed and
    /// which error each failing buffer yields. Trailing bytes beyond the
    /// declared payload length belong to the next chunk and are ignored.
    pub fn try_from(bytes: &[u8]) -> (r: Result<Chunk, ChunkError>)
        ensures
            match r {
                Ok(c) => c.wf() && spec_decode(bytes@) == Ok::<ChunkModel, ChunkError>(c@),
                Err(e) => spec_decode(bytes@) == Err::<ChunkModel, ChunkError>(e),
            },
    {
        if bytes.len() < 4 {
            return Err(ChunkError::TruncatedInput);
        }
        let data_length = u32_from_be_bytes(bytes[0], bytes[1], bytes[2], bytes[3]);
        proof {
            assert(seq![bytes@[0], bytes@[1], bytes@[2], bytes@[3]] =~= bytes@.subrange(0, 4));
        }
        let n = data_length as usize;
        if bytes.len() < 12 || bytes.len() - 12 < n {
            return Err(ChunkError::TruncatedInput);
        }
        let tag_bytes: [u8; 4] = [bytes[4], bytes[5], bytes[6], bytes[7]];
        proof {
            assert(tag_bytes@ =~= bytes@.subrange(4, 8));
        }
        let chunk_type = match ChunkType::try_from(tag_bytes) {
            Ok(t) => t,
            Err(_) => {
                return Err(ChunkError::InvalidChunkTypeBytes);
            },
        };
        let mut chunk_data: Vec<u8> = Vec::new();
        let mut i: usize = 0;
        while i < n
            invariant
                i <= n,
                n <= usize::MAX - 12,
                12 + n <= bytes@.len(),
                chunk_data@ == bytes@.subrange(8, 8 + i as int),
            decreases n - i,
        {
            chunk_data.push(bytes[8 + i]);
            proof {
                assert(chunk_data@ =~= bytes@.subrange(8, 8 + (i + 1)));
            }
            i = i + 1;
        }
        let crc = u32_from_be_bytes(bytes[8 + n], bytes[9 + n], bytes[10 + n], bytes[11 + n]);
        proof {
            assert(seq![bytes@[8 + n], bytes@[9 + n], bytes@[10 + n], bytes@[11 + n]]
                =~= bytes@.subrange(8 + n as int, 12 + n as int));
        }
        let calculated_crc = checksum_over(&tag_bytes, chunk_data.as_slice());
        if crc == calculated_crc {
            let c = Chunk { data_length, chunk_type, chunk_data, crc };
            proof {
                assert(spec_decode(bytes@) matches Ok(m) && m =~= c@);
            }
            Ok(c)
        } else {
            Err(ChunkError::InvalidCRC)
        }
    }
}

/// The text of a chunk's multi-line human-readable summary: its length,
/// tag text, payload byte count and checksum value. Presentation only.
pub open spec fn spec_render(m: ChunkModel) -> Seq<char> {
    "Chunk {\n   length: "@ + dec_chars(m.data_length) + "\n   chunk type: "@ + decode_utf8(
        m.chunk_type,
    ) + "\n   data: "@ + dec_chars(m.data_length) + "\n   crc: "@ + dec_chars(m.crc) + "\n}\n"@
}

impl Chunk {
    /// A multi-line human-readable summary of the chunk; see
    /// [`spec_render`]. Informative only: nothing else depends on it.
    pub fn render(&self) -> (r: String)
        requires
            self.wf(),
        ensures
            r@ == spec_render(self@),
    {
        let mut s = "Chunk {\n   length: ".to_owned();
        s.append(u32_to_dec_string(self.data_length).as_str());
        s.append("\n   chunk type: ");
        s.append(self.chunk_type.to_text().as_str());
        s.append("\n   data: ");
        s.append(u32_to_dec_string(self.data_length).as_str());
        s.append("\n   crc: ");
        s.append(u32_to_dec_string(self.crc).as_str());
        s.append("\n}\n");
        s
    }
}

impl ChunkError {
    /// A short description of the failure, as a user-facing layer would
    /// show it.
    pub fn message(&self) -> (r: &'static str)
        ensures
            self is InvalidCRC ==> r@ == "Invalid CRC"@,
            self is UTF8UncompatibleChunk ==> r@ == "Chunk data is not compatible with UTF-8"@,
            self is InvalidChunkTypeBytes ==> r@ == "Invalid ChunkType bytes"@,
            self is TruncatedInput ==> r@ == "Input too short for the declared chunk"@,
    {
        match self {
            ChunkError::InvalidCRC => "Invalid CRC",
            ChunkError::UTF8UncompatibleChunk => "Chunk data is not compatible with UTF-8",
            ChunkError::InvalidChunkTypeBytes => "Invalid ChunkType bytes",
            ChunkError::TruncatedInput => "Input too short for the declared chunk",
        }
    }
}

/// Round trip: decoding the serialization of any well-formed chunk
/// succeeds and yields exactly that chunk — same length, tag, payload and
/// checksum.
pub proof fn lemma_round_trip(m: ChunkModel)
    requires
        chunk_wf(m),
    ensures
        spec_decode(spec_serialize(m)) == Ok::<ChunkModel, ChunkError>(m),
{
    lemma_u32_to_from_be_bytes();
    let b = spec_serialize(m);
    let n = m.chunk_data.len() as int;
    assert(b.subrange(0, 4) =~= spec_u32_to_be_bytes(m.data_length));
    assert(b.subrange(4, 8) =~= m.chunk_type);
    assert(b.subrange(8, 8 + n) =~= m.chunk_data);
    assert(b.subrange(8 + n, 12 + n) =~= spec_u32_to_be_bytes(m.crc));
    assert(spec_decode(b) matches Ok(d) && d =~= m);
}

/// Checksum determinism: the checksum is a function of the tag and payload
/// bytes alone, so any two values computed over the same tag and payload
/// are equal.
pub proof fn lemma_checksum_deterministic(m: ChunkModel, c1: u32, c2: u32)
    requires
        c1 == crc32_of(m.chunk_type + m.chunk_data),
        c2 == crc32_of(m.chunk_type + m.chunk_data),
    ensures
        c1 == c2,
{
}

/// Tampering detection: take the serialization of a well-formed chunk and
/// alter its tag or payload region while keeping the length and checksum
/// fields; as long as the altered tag bytes are still ASCII letters and
/// the altered content does not collide with the untampered content under
/// CRC-32,
/// decoding the altered buffer fails with `InvalidCRC`.
pub proof fn lemma_tampering_detected(m: ChunkModel, b: Seq<u8>)
    requires
        chunk_wf(m),
        b.len() == spec_serialize(m).len(),
        b.subrange(0, 4) == spec_serialize(m).subrange(0, 4),
        b.subrange(b.len() - 4, b.len() as int) == spec_serialize(m).subrange(
            b.len() - 4,
            b.len() as int,
        ),
        all_ascii_letters(b.subrange(4, 8)),
        crc32_of(b.subrange(4, 8) + b.subrange(8, 8 + m.chunk_data.len() as int)) != m.crc,
    ensures
        spec_decode(b) == Err::<ChunkModel, ChunkError>(ChunkError::InvalidCRC),
{
    lemma_u32_to_from_be_bytes();
    let s = spec_serialize(m);
    let n = m.chunk_data.len() as int;
    assert(s.subrange(0, 4) =~= spec_u32_to_be_bytes(m.data_length));
    assert(s.subrange(8 + n, 12 + n) =~= spec_u32_to_be_bytes(m.crc));
    assert(b.subrange(0, 4) == spec_u32_to_be_bytes(m.data_length));
    assert(b.subrange(8 + n, 12 + n) =~= b.subrange(b.len() - 4, b.len() as int));
    assert(s.subrange(b.len() - 4, b.len() as int) =~= spec_u32_to_be_bytes(m.crc));
}

/// Empty payload: a well-formed chunk with no payload serializes to
/// exactly 12 bytes, its checksum is the CRC-32 of the 4 tag bytes alone,
/// and it round-trips like any other chunk.
pub proof fn lemma_empty_payload(m: ChunkModel)
    requires
        chunk_wf(m),
        m.chunk_data.len() == 0,
    ensures
        spec_serialize(m).len() == 12,
        m.crc == crc32_of(m.chunk_type),
        spec_decode(spec_serialize(m)) == Ok::<ChunkModel, ChunkError>(m),
{
    assert(m.chunk_type + m.chunk_data =~= m.chunk_type);
    lemma_round_trip(m);
}

} // verus!
