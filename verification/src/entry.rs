//! What the text of one entry means.
//!
//! An entry is UTF-8 text of the form `KEY=VALUE`. The key is what stands
//! before the first `=`, the value is everything behind it, further `=`
//! included.

use crate::error::Error;
use vstd::prelude::*;
use vstd::utf8::{
    decode_first_scalar, decode_utf8, decode_utf8_first_scalar, decode_utf8_split,
    is_char_boundary, is_char_boundary_iff_not_is_continuation_byte, length_of_first_scalar,
    pop_first_scalar, take_first_scalar, valid_utf8, valid_utf8_split,
};

verus! {

/// The byte that parts key from value: `=`.
pub const DELIMITER: u8 = 0x3d;

/// The index of the first `=` in `text`, or the length of `text` if it holds
/// none.
pub open spec fn delimiter_at(text: Seq<u8>) -> int
    decreases text.len(),
{
    if text.len() == 0 || text[0] == DELIMITER {
        0
    } else {
        1 + delimiter_at(text.drop_first())
    }
}

/// The bytes before the first `=`.
pub open spec fn key_bytes(text: Seq<u8>) -> Seq<u8> {
    text.subrange(0, delimiter_at(text))
}

/// The bytes behind the first `=`.
pub open spec fn value_bytes(text: Seq<u8>) -> Seq<u8> {
    text.subrange(delimiter_at(text) + 1, text.len() as int)
}

/// The three things that the text of an entry can turn out to be.
pub enum Parsed {
    /// A key and a value.
    Pair(Seq<char>, Seq<char>),
    /// Bytes that are not UTF-8.
    NotUtf8,
    /// Text, given here, without a `=`.
    NoDelimiter(Seq<char>),
}

/// The meaning of the text bytes of one entry.
pub open spec fn parse_entry(text: Seq<u8>) -> Parsed {
    if !valid_utf8(text) {
        Parsed::NotUtf8
    } else if delimiter_at(text) == text.len() {
        Parsed::NoDelimiter(decode_utf8(text))
    } else {
        Parsed::Pair(decode_utf8(key_bytes(text)), decode_utf8(value_bytes(text)))
    }
}

/// Whether `entry` is the result that stands for `parsed`: the pair, or the
/// error of its kind.
pub open spec fn reports(entry: Result<(&str, &str), Error>, parsed: Parsed) -> bool {
    match parsed {
        Parsed::Pair(k, v) => entry matches Ok((key, value)) && key@ == k && value@ == v,
        Parsed::NotUtf8 => entry matches Err(Error::Utf8Error(_)),
        Parsed::NoDelimiter(t) => entry matches Err(Error::MalformedVorbisComment(s)) && s@ == t,
    }
}

/// `delimiter_at` is the one index with no `=` before it that is either the
/// end of the text or a `=`.
pub proof fn lemma_delimiter_at(text: Seq<u8>, k: int)
    requires
        0 <= k <= text.len(),
        forall|j: int| 0 <= j < k ==> text[j] != DELIMITER,
        k < text.len() ==> text[k] == DELIMITER,
    ensures
        delimiter_at(text) == k,
    decreases text.len(),
{
    if text.len() > 0 && text[0] != DELIMITER {
        lemma_delimiter_at(text.drop_first(), k - 1);
    }
}

/// A `=` in valid UTF-8 starts a character and ends one.
pub proof fn lemma_delimiter_is_boundary(text: Seq<u8>, k: int)
    requires
        valid_utf8(text),
        0 <= k < text.len(),
        text[k] == DELIMITER,
    ensures
        is_char_boundary(text, k),
        valid_utf8(text.subrange(k, text.len() as int)),
        is_char_boundary(text.subrange(k, text.len() as int), 1),
{
    is_char_boundary_iff_not_is_continuation_byte(text, k);
    valid_utf8_split(text, k);
    let rest = text.subrange(k, text.len() as int);
    assert(is_char_boundary(pop_first_scalar(rest), 0));
}

/// `delimiter_at` is an index into the text or its end, no `=` stands before
/// it, and a `=` stands at it unless it is the end.
pub proof fn lemma_delimiter_at_is_first(text: Seq<u8>)
    ensures
        0 <= delimiter_at(text) <= text.len(),
        forall|j: int| 0 <= j < delimiter_at(text) ==> text[j] != DELIMITER,
        delimiter_at(text) < text.len() ==> text[delimiter_at(text)] == DELIMITER,
    decreases text.len(),
{
    if text.len() > 0 && text[0] != DELIMITER {
        let rest = text.drop_first();
        lemma_delimiter_at_is_first(rest);
        assert forall|j: int| 0 <= j < delimiter_at(text) implies text[j] != DELIMITER by {
            if j > 0 {
                assert(text[j] == rest[j - 1]);
            }
        }
        assert(delimiter_at(text) < text.len() ==> text[delimiter_at(text)] == rest[delimiter_at(
            rest,
        )]);
    }
}

/// In valid UTF-8 the byte `=` spells the character `=` and is part of no
/// other character: text holds the character if and only if its bytes hold
/// the byte.
pub proof fn lemma_delimiter_byte_is_char(bytes: Seq<u8>)
    requires
        valid_utf8(bytes),
    ensures
        decode_utf8(bytes).contains('=') <==> bytes.contains(DELIMITER),
    decreases bytes.len(),
{
    if bytes.len() > 0 {
        let chars = decode_utf8(bytes);
        let first = decode_first_scalar(bytes);
        let width = length_of_first_scalar(bytes);
        let rest = pop_first_scalar(bytes);
        let b0 = bytes[0];
        // The first character is `=` exactly if the first byte is.
        assert((first as char == '=') <==> b0 == DELIMITER) by {
            assert(b0 <= 0x7f ==> (b0 & 0x7f) as u32 == b0 as u32) by (bit_vector);
            if first as char == '=' {
                decode_utf8_first_scalar(bytes);
                assert(0x3du32 & 0x7f == 0x3d) by (bit_vector);
                assert(take_first_scalar(bytes)[0] == b0);
            }
        }
        // The bytes that follow it in the same character are none of them `=`,
        // and of the characters behind it the claim holds by induction.
        lemma_delimiter_byte_is_char(rest);
        if chars.contains('=') && chars[0] != '=' {
            let i = choose|i: int| 0 <= i < chars.len() && chars[i] == '=';
            assert(decode_utf8(rest)[i - 1] == '=');
            let j = choose|j: int| 0 <= j < rest.len() && rest[j] == DELIMITER;
            assert(bytes[j + width] == DELIMITER);
        }
        if bytes.contains(DELIMITER) && b0 != DELIMITER {
            let j = choose|j: int| 0 <= j < bytes.len() && bytes[j] == DELIMITER;
            assert(rest[j - width] == DELIMITER);
            let i = choose|i: int| 0 <= i < decode_utf8(rest).len() && decode_utf8(rest)[i] == '=';
            assert(chars[i + 1] == '=');
        }
    }
}

/// What the bytes of an entry mean in terms of its text: a key and a value
/// are the text before its first `=` and the text behind it, and an entry
/// without a `=` is text in which the character does not occur.
pub proof fn lemma_entry_parts_at_first_equals(text: Seq<u8>)
    requires
        valid_utf8(text),
    ensures
        match parse_entry(text) {
            Parsed::Pair(key, value) => decode_utf8(text) == key + seq!['='] + value
                && !key.contains('='),
            Parsed::NoDelimiter(all) => all == decode_utf8(text) && !all.contains('='),
            Parsed::NotUtf8 => false,
        },
{
    let k = delimiter_at(text);
    lemma_delimiter_at_is_first(text);
    if k == text.len() {
        lemma_delimiter_byte_is_char(text);
    } else {
        lemma_delimiter_is_boundary(text, k);
        let key = text.subrange(0, k);
        let rest = text.subrange(k, text.len() as int);
        valid_utf8_split(text, k);
        decode_utf8_split(text, k);
        valid_utf8_split(rest, 1);
        decode_utf8_split(rest, 1);
        assert(rest.subrange(1, rest.len() as int) =~= value_bytes(text));
        let one = rest.subrange(0, 1);
        assert(decode_utf8(one) =~= seq!['=']) by {
            assert(0x3du8 & 0x7f == 0x3d) by (bit_vector);
        }
        lemma_delimiter_byte_is_char(key);
    }
}

} // verus!
