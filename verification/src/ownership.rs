//! Borrowing text: extending a string in place, and a view of its first word.

use vstd::prelude::*;
use vstd::string::StringExecFns;
use vstd::utf8::{
    decode_utf8_split, encode_utf8, encode_utf8_decode_utf8, encode_utf8_valid_utf8,
    is_char_boundary_iff_not_is_continuation_byte, is_continuation_byte, valid_utf8,
};

verus! {

/// The byte that stands for `mark` when a text is searched byte by byte: the
/// low eight bits of its code.
pub open spec fn low_byte(mark: char) -> u8 {
    mark as u8
}

/// Position of the first byte of `bytes` that equals `byte`, or `bytes.len()`
/// if there is none.
pub open spec fn first_position(bytes: Seq<u8>, byte: u8) -> int
    decreases bytes.len(),
{
    if bytes.len() == 0 || bytes[0] == byte {
        0
    } else {
        1 + first_position(bytes.skip(1), byte)
    }
}

/// `first_position` lies within the bytes, and no byte before it matches.
pub proof fn lemma_first_position(bytes: Seq<u8>, byte: u8)
    ensures
        0 <= first_position(bytes, byte) <= bytes.len(),
        first_position(bytes, byte) < bytes.len() ==> bytes[first_position(bytes, byte)] == byte,
        forall|i: int| 0 <= i < first_position(bytes, byte) ==> bytes[i] != byte,
    decreases bytes.len(),
{
    if bytes.len() == 0 || bytes[0] == byte {
    } else {
        let rest = bytes.skip(1);
        lemma_first_position(rest, byte);
        assert forall|i: int| 0 <= i < first_position(bytes, byte) implies bytes[i] != byte by {
            if i > 0 {
                assert(bytes[i] == rest[i - 1]);
            }
        }
    }
}

/// A position with a matching byte and none before it is the first position.
pub proof fn lemma_first_position_is(bytes: Seq<u8>, byte: u8, at: int)
    requires
        0 <= at <= bytes.len(),
        at < bytes.len() ==> bytes[at] == byte,
        forall|i: int| 0 <= i < at ==> bytes[i] != byte,
    ensures
        first_position(bytes, byte) == at,
{
    lemma_first_position(bytes, byte);
}

/// A mark from the ASCII range never cuts a character in two: its low byte is
/// its code, and no byte below 128 continues a character.
pub proof fn lemma_ascii_mark_cuts_cleanly(mark: char)
    requires
        (mark as u32) < 128,
    ensures
        low_byte(mark) == mark as u32,
        !is_continuation_byte(low_byte(mark)),
{
    let code = mark as u32;
    assert((code as u8) == code && (code as u8) < 128) by (bit_vector)
        requires
            code < 128,
    ;
}

/// Appends `, world` to `some_string`.
pub fn change(some_string: &mut String)
    ensures
        final(some_string)@ == old(some_string)@ + ", world"@,
{
    some_string.append(", world");
}

/// Returns the part of `s` before the first byte that equals the low byte of
/// `t`, or all of `s` if no byte does.
///
/// The text is searched byte by byte in its UTF-8 encoding. The cut must not
/// fall inside a character: where a byte of `s` equals the low byte of `t`,
/// that byte must not be one that continues a character.
pub fn first_world(s: &String, t: char) -> (word: &str)
    requires
        encode_utf8(s@).contains(low_byte(t)) ==> !is_continuation_byte(low_byte(t)),
    ensures
        encode_utf8(word@) == encode_utf8(s@).take(first_position(encode_utf8(s@), low_byte(t))),
        word@ == s@.take(word@.len() as int),
{
    let text = s.as_str();
    let bytes = text.as_bytes();
    let mark = #[verifier::truncate] (t as u8);
    let mut i: usize = 0;
    proof {
        encode_utf8_valid_utf8(text@);
    }
    while i < bytes.len()
        invariant
            i <= bytes.len(),
            text@ == s@,
            bytes@ == encode_utf8(s@),
            valid_utf8(bytes@),
            mark == low_byte(t),
            bytes@.contains(mark) ==> !is_continuation_byte(mark),
            forall|j: int| 0 <= j < i ==> bytes@[j] != mark,
        decreases bytes.len() - i,
    {
        if bytes[i] == mark {
            proof {
                is_char_boundary_iff_not_is_continuation_byte(bytes@, i as int);
                lemma_first_position_is(bytes@, mark, i as int);
                decode_utf8_split(bytes@, i as int);
            }
            let (word, rest) = text.split_at(i);
            proof {
                encode_utf8_decode_utf8(text@);
                encode_utf8_decode_utf8(word@);
                encode_utf8_decode_utf8(rest@);
            }
            return word;
        }
        i += 1;
    }
    proof {
        lemma_first_position_is(bytes@, mark, bytes@.len() as int);
    }
    text
}

} // verus!
