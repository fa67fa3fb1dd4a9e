//! The 4-byte chunk type tag: per-byte ASCII-letter validation and the
//! bit-flag semantics carried by each byte's letter case.

use vstd::prelude::*;
use vstd::string::StringSliceAdditionalSpecFns;
use vstd::utf8::decode_utf8;
use vstd::utf8::decode_utf8_encode_utf8;
use vstd::utf8::encode_utf8;

use crate::text::lemma_ascii_bytes_valid_utf8;
use crate::text::string_from_utf8;

verus! {

/// True of a byte that is an ASCII uppercase letter (`A`-`Z`).
pub open spec fn is_ascii_upper(b: u8) -> bool {
    65 <= b && b <= 90
}

/// True of a byte that is an ASCII lowercase letter (`a`-`z`).
pub open spec fn is_ascii_lower(b: u8) -> bool {
    97 <= b && b <= 122
}

/// True of a byte that is an ASCII letter of either case.
pub open spec fn is_ascii_letter(b: u8) -> bool {
    is_ascii_upper(b) || is_ascii_lower(b)
}

/// True when every byte of `s` is an ASCII letter.
pub open spec fn all_ascii_letters(s: Seq<u8>) -> bool {
    forall|i: int| 0 <= i < s.len() ==> is_ascii_letter(#[trigger] s[i])
}

/// Why constructing a [`ChunkType`] failed.
#[derive(Debug, Clone, Copy)]
pub enum ChunkTypeError {
    /// The textual form handed in was not exactly 4 bytes long.
    InvalidString,
    /// One of the 4 tag bytes is not an ASCII letter.
    InvalidChunkTypeBytes,
}

/// A chunk's 4-byte identifier. Each byte is an ASCII letter, and the case
/// of each byte carries one boolean property of the chunk.
#[derive(Debug)]
pub struct ChunkType {
    chunk: [u8; 4],
}

impl View for ChunkType {
    type V = Seq<u8>;

    closed spec fn view(&self) -> Seq<u8> {
        self.chunk@
    }
}

impl ChunkType {
    /// A well-formed tag holds exactly 4 bytes, all ASCII letters.
    pub open spec fn wf(&self) -> bool {
        self@.len() == 4 && all_ascii_letters(self@)
    }

    /// Builds a tag from 4 raw bytes; fails unless every byte is an ASCII
    /// letter, so no partially valid tag ever exists.
    pub fn try_from(bytes: [u8; 4]) -> (r: Result<ChunkType, ChunkTypeError>)
        ensures
            match r {
                Ok(t) => t@ == bytes@ && t.wf() && all_ascii_letters(bytes@),
                Err(e) => e is InvalidChunkTypeBytes && !all_ascii_letters(bytes@),
            },
    {
        let mut i: usize = 0;
        while i < 4
            invariant
                i <= 4,
                forall|j: int| 0 <= j < i ==> is_ascii_letter(#[trigger] bytes@[j]),
            decreases 4 - i,
        {
            let b = bytes[i];
            if !(65 <= b && b <= 90) && !(97 <= b && b <= 122) {
                return Err(ChunkTypeError::InvalidChunkTypeBytes);
            }
            i = i + 1;
        }
        Ok(ChunkType { chunk: bytes })
    }

    /// Builds a tag from text: fails with `InvalidString` unless the text's
    /// UTF-8 byte form is exactly 4 bytes long, then validates those bytes
    /// as [`ChunkType::try_from`] does.
    pub fn from_str(s: &str) -> (r: Result<ChunkType, ChunkTypeError>)
        ensures
            match r {
                Ok(t) => {
                    &&& encode_utf8(s@).len() == 4
                    &&& all_ascii_letters(encode_utf8(s@))
                    &&& t@ == encode_utf8(s@)
                    &&& t.wf()
                },
                Err(ChunkTypeError::InvalidString) => encode_utf8(s@).len() != 4,
                Err(ChunkTypeError::InvalidChunkTypeBytes) => encode_utf8(s@).len() == 4
                    && !all_ascii_letters(encode_utf8(s@)),
            },
    {
        let b = s.as_bytes();
        if b.len() != 4 {
            return Err(ChunkTypeError::InvalidString);
        }
        let bytes: [u8; 4] = [b[0], b[1], b[2], b[3]];
        proof {
            assert(bytes@ =~= s.spec_bytes());
        }
        ChunkType::try_from(bytes)
    }

    /// The 4 raw tag bytes, unmodified and in order.
    pub fn bytes(&self) -> (r: [u8; 4])
        ensures
            r@ == self@,
    {
        self.chunk
    }

    /// Overall validity: in this codec the reserved-bit convention (byte 2
    /// uppercase) is the sole check on top of the letter validation that
    /// construction already guarantees.
    pub fn is_valid(&self) -> (r: bool)
        ensures
            r == is_ascii_upper(self@[2]),
    {
        if self.is_reserved_bit_valid() {
            return true;
        }
        false
    }

    /// Byte 0 uppercase: the chunk is critical rather than ancillary.
    pub fn is_critical(&self) -> (r: bool)
        ensures
            r == is_ascii_upper(self@[0]),
    {
        let b = self.chunk[0];
        65 <= b && b <= 90
    }

    /// Byte 1 uppercase: the chunk is public rather than private.
    pub fn is_public(&self) -> (r: bool)
        ensures
            r == is_ascii_upper(self@[1]),
    {
        let b = self.chunk[1];
        65 <= b && b <= 90
    }

    /// Byte 2 uppercase: the reserved bit has its valid setting.
    pub fn is_reserved_bit_valid(&self) -> (r: bool)
        ensures
            r == is_ascii_upper(self@[2]),
    {
        let b = self.chunk[2];
        65 <= b && b <= 90
    }

    /// Byte 3 lowercase: the chunk is safe to copy by editors.
    pub fn is_safe_to_copy(&self) -> (r: bool)
        ensures
            r == is_ascii_lower(self@[3]),
    {
        let b = self.chunk[3];
        97 <= b && b <= 122
    }

    /// Renders the tag back to its 4-letter string form; always succeeds
    /// because construction already guarantees ASCII-letter content.
    pub fn to_text(&self) -> (r: String)
        requires
            self.wf(),
        ensures
            r@ == decode_utf8(self@),
            encode_utf8(r@) == self@,
    {
        let mut v: Vec<u8> = Vec::new();
        v.push(self.chunk[0]);
        v.push(self.chunk[1]);
        v.push(self.chunk[2]);
        v.push(self.chunk[3]);
        proof {
            assert(v@ =~= self@);
            assert(forall|i: int| 0 <= i < v@.len() ==> #[trigger] v@[i] < 0x80);
            lemma_ascii_bytes_valid_utf8(v@);
            decode_utf8_encode_utf8(v@);
        }
        string_from_utf8(v).unwrap()
    }
}

impl ChunkTypeError {
    /// A short description of the failure, as a user-facing layer would
    /// show it.
    pub fn message(&self) -> (r: &'static str)
        ensures
            self is InvalidString ==> r@ == "Invalid string"@,
            self is InvalidChunkTypeBytes ==> r@ == "Invalid ChunkType bytes"@,
    {
        match self {
            ChunkTypeError::InvalidString => "Invalid string",
            ChunkTypeError::InvalidChunkTypeBytes => "Invalid ChunkType bytes",
        }
    }
}

impl PartialEq for ChunkType {
    /// Structural equality: two tags are equal exactly when their 4 bytes
    /// are equal, in order.
    fn eq(&self, other: &ChunkType) -> (r: bool) {
        let r = self.chunk[0] == other.chunk[0] && self.chunk[1] == other.chunk[1]
            && self.chunk[2] == other.chunk[2] && self.chunk[3] == other.chunk[3];
        proof {
            if r {
                assert(self@ =~= other@);
            }
        }
        r
    }
}

impl vstd::std_specs::cmp::PartialEqSpecImpl for ChunkType {
    open spec fn obeys_eq_spec() -> bool {
        true
    }

    open spec fn eq_spec(&self, other: &ChunkType) -> bool {
        self@ == other@
    }
}

} // verus!
