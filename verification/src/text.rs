//! Turning byte sequences into text, against vstd's specification of UTF-8.

use vstd::prelude::*;
use vstd::string::StringExecFns;
use vstd::utf8::*;

verus! {

/// Relies on std's `String::from_utf8`: it succeeds exactly on bytes that
/// form valid UTF-8 and returns the text those bytes encode.
#[verifier::external_body]
pub(crate) fn string_from_utf8(bytes: Vec<u8>) -> (r: Option<String>)
    ensures
        r is Some <==> valid_utf8(bytes@),
        r matches Some(s) ==> s@ == decode_utf8(bytes@),
{
    String::from_utf8(bytes).ok()
}

/// Bytes that all lie below `0x80` are valid UTF-8: each is its own
/// 1-byte scalar encoding.
pub proof fn lemma_ascii_bytes_valid_utf8(bytes: Seq<u8>)
    requires
        forall|i: int| 0 <= i < bytes.len() ==> #[trigger] bytes[i] < 0x80,
    ensures
        valid_utf8(bytes),
    decreases bytes.len(),
{
    if bytes.len() != 0 {
        let b = bytes[0];
        assert(is_leading_byte_width_1(b));
        assert(b & 0x7f == b) by (bit_vector)
            requires
                b < 0x80,
        ;
        assert(decode_first_codepoint(bytes) == b as u32);
        assert(not_overlong_encoding(decode_first_codepoint(bytes), length_of_first_codepoint(
            bytes,
        )));
        assert(not_surrogate(decode_first_codepoint(bytes)));
        assert(valid_first_scalar(bytes));
        let rest = pop_first_scalar(bytes);
        assert(rest =~= bytes.subrange(1, bytes.len() as int));
        lemma_ascii_bytes_valid_utf8(rest);
    }
}

/// The character for one decimal digit.
pub open spec fn dec_digit_char(d: u32) -> char
    recommends
        d < 10,
{
    if d == 0 {
        '0'
    } else if d == 1 {
        '1'
    } else if d == 2 {
        '2'
    } else if d == 3 {
        '3'
    } else if d == 4 {
        '4'
    } else if d == 5 {
        '5'
    } else if d == 6 {
        '6'
    } else if d == 7 {
        '7'
    } else if d == 8 {
        '8'
    } else {
        '9'
    }
}

/// The decimal rendering of `n`: most significant digit first, no leading
/// zeroes (except for `n == 0` itself).
pub open spec fn dec_chars(n: u32) -> Seq<char>
    decreases n,
{
    if n < 10 {
        seq![dec_digit_char(n)]
    } else {
        dec_chars(n / 10) + seq![dec_digit_char(n % 10)]
    }
}

/// One decimal digit as text.
fn digit_str(d: u32) -> (r: &'static str)
    requires
        d < 10,
    ensures
        r@ == seq![dec_digit_char(d)],
{
    let r: &'static str = if d == 0 {
        "0"
    } else if d == 1 {
        "1"
    } else if d == 2 {
        "2"
    } else if d == 3 {
        "3"
    } else if d == 4 {
        "4"
    } else if d == 5 {
        "5"
    } else if d == 6 {
        "6"
    } else if d == 7 {
        "7"
    } else if d == 8 {
        "8"
    } else {
        "9"
    };
    proof {
        reveal_strlit("0");
        reveal_strlit("1");
        reveal_strlit("2");
        reveal_strlit("3");
        reveal_strlit("4");
        reveal_strlit("5");
        reveal_strlit("6");
        reveal_strlit("7");
        reveal_strlit("8");
        reveal_strlit("9");
        assert(r@ =~= seq![dec_digit_char(d)]);
    }
    r
}

/// Renders `n` in decimal.
pub fn u32_to_dec_string(n: u32) -> (r: String)
    ensures
        r@ == dec_chars(n),
    decreases n,
{
    if n < 10 {
        digit_str(n).to_owned()
    } else {
        let mut s = u32_to_dec_string(n / 10);
        s.append(digit_str(n % 10));
        proof {
            assert(s@ =~= dec_chars(n));
        }
        s
    }
}

} // verus!
