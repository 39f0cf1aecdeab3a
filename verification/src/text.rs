//! Text as the checker needs it: an index written in decimal digits, and a
//! part of a text cut out by a range of byte offsets.

use vstd::prelude::*;
use vstd::string::{StringExecFns, StringSliceAdditionalSpecFns};

use vstd::utf8::{
    decode_utf8, encode_utf8, encode_utf8_decode_utf8, encode_utf8_valid_utf8, is_char_boundary,
    is_char_boundary_iff_not_is_continuation_byte, is_char_boundary_start_end_of_seq,
    valid_utf8_split,
};

verus! {

/// The character of one decimal digit.
pub open spec fn digit_char(digit: nat) -> char {
    if digit == 0 {
        '0'
    } else if digit == 1 {
        '1'
    } else if digit == 2 {
        '2'
    } else if digit == 3 {
        '3'
    } else if digit == 4 {
        '4'
    } else if digit == 5 {
        '5'
    } else if digit == 6 {
        '6'
    } else if digit == 7 {
        '7'
    } else if digit == 8 {
        '8'
    } else {
        '9'
    }
}

/// A number written in decimal digits, without leading zeros.
pub open spec fn decimal_text(n: nat) -> Seq<char>
    decreases n,
{
    if n < 10 {
        seq![digit_char(n)]
    } else {
        decimal_text(n / 10).push(digit_char(n % 10))
    }
}

fn digit_text(digit: u64) -> (text: &'static str)
    requires
        digit < 10,
    ensures
        text@ == seq![digit_char(digit as nat)],
{
    proof {
        reveal_strlit("0");
        reveal_strlit("1");
        reveal_strlit("2");
        reveal_strlit("3");
        reveal_strlit("4");
        reveal_strlit("5");
        reveal_strlit("6");
        reveal_strlit("7");
        reveal_strlit("8");
        reveal_strlit("9");
    }
    let text = if digit == 0 {
        "0"
    } else if digit == 1 {
        "1"
    } else if digit == 2 {
        "2"
    } else if digit == 3 {
        "3"
    } else if digit == 4 {
        "4"
    } else if digit == 5 {
        "5"
    } else if digit == 6 {
        "6"
    } else if digit == 7 {
        "7"
    } else if digit == 8 {
        "8"
    } else {
        "9"
    };
    text
}

/// Writes `n` in decimal digits.
pub fn decimal_string(n: u64) -> (text: String)
    ensures
        text@ == decimal_text(n as nat),
    decreases n,
{
    if n < 10 {
        String::from_str(digit_text(n))
    } else {
        let mut text = decimal_string(n / 10);
        text.append(digit_text(n % 10));
        text
    }
}

/// The part of `text` whose encoding lies at the byte offsets from `start`
/// up to `end`, where both are boundaries of characters and in order.
pub open spec fn text_between(text: Seq<char>, start: int, end: int) -> Option<Seq<char>> {
    let bytes = encode_utf8(text);
    if 0 <= start <= end && is_char_boundary(bytes, start) && is_char_boundary(bytes, end) {
        Some(decode_utf8(bytes.subrange(start, end)))
    } else {
        None
    }
}

/// A boundary of a text is a boundary of each part that ends at a later boundary.
proof fn lemma_boundary_of_head(bytes: Seq<u8>, start: int, end: int)
    requires
        vstd::utf8::valid_utf8(bytes),
        0 <= start <= end,
        is_char_boundary(bytes, start),
        is_char_boundary(bytes, end),
    ensures
        end <= bytes.len(),
        vstd::utf8::valid_utf8(bytes.subrange(0, end)),
        is_char_boundary(bytes.subrange(0, end), start),
{
    valid_utf8_split(bytes, end);
    let head = bytes.subrange(0, end);
    if start == end {
        is_char_boundary_start_end_of_seq(head);
    } else {
        is_char_boundary_iff_not_is_continuation_byte(bytes, start);
        is_char_boundary_iff_not_is_continuation_byte(head, start);
    }
}

/// Cuts the part of `text` between two byte offsets out, or `None` where
/// they are not boundaries of characters in order.
pub fn slice_text(text: &str, start: usize, end: usize) -> (part: Option<String>)
    ensures
        match part {
            Some(part) => text_between(text@, start as int, end as int) == Some(part@),
            None => text_between(text@, start as int, end as int) is None,
        },
{
    proof {
        encode_utf8_valid_utf8(text@);
    }
    if start <= end && text.is_char_boundary(start) && text.is_char_boundary(end) {
        proof {
            lemma_boundary_of_head(text.spec_bytes(), start as int, end as int);
        }
        let (head, _) = text.split_at(end);
        let (_, middle) = head.split_at(start);
        let part = middle.to_owned();
        proof {
            let bytes = text.spec_bytes();
            assert(middle.spec_bytes() =~= bytes.subrange(start as int, end as int));
            encode_utf8_decode_utf8(middle@);
        }
        Some(part)
    } else {
        None
    }
}

} // verus!
