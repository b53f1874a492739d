//! Comparing and searching text.
//!
//! What is asked of a text is stated over its characters. It is decided on
//! the bytes of the UTF-8 encoding, where a pattern stands exactly where
//! its characters stand in the text.

use vstd::prelude::*;
use vstd::utf8::{
    decode_utf8, decode_utf8_split, encode_utf8, encode_utf8_decode_utf8, encode_utf8_valid_utf8,
    is_char_boundary, is_char_boundary_iff_not_is_continuation_byte,
    is_char_boundary_start_end_of_seq, length_of_first_scalar, pop_first_scalar, valid_utf8,
    valid_utf8_split,
};

verus! {

/// True when `pattern` stands in `bytes` at place `at`.
pub open spec fn occurs_at(bytes: Seq<u8>, pattern: Seq<u8>, at: int) -> bool {
    &&& 0 <= at
    &&& at + pattern.len() <= bytes.len()
    &&& forall|k: int| 0 <= k < pattern.len() ==> #[trigger] bytes[at + k] == pattern[k]
}

/// True when `pattern` stands somewhere in `bytes`.
pub open spec fn occurs_in(bytes: Seq<u8>, pattern: Seq<u8>) -> bool {
    exists|at: int| occurs_at(bytes, pattern, at)
}

/// True when the characters of `pattern` stand in `text` from place `at` on.
pub open spec fn stands_at(text: Seq<char>, pattern: Seq<char>, at: int) -> bool {
    &&& 0 <= at
    &&& at + pattern.len() <= text.len()
    &&& text.subrange(at, at + pattern.len()) == pattern
}

/// True when `text` contains `pattern`.
pub open spec fn text_contains(text: Seq<char>, pattern: Seq<char>) -> bool {
    exists|at: int| stands_at(text, pattern, at)
}

/// True when `text` begins with `prefix`.
pub open spec fn text_starts_with(text: Seq<char>, prefix: Seq<char>) -> bool {
    stands_at(text, prefix, 0)
}

/// The encoding of two texts in a row is the two encodings in a row.
pub proof fn lemma_encoding_of_concat(a: Seq<char>, b: Seq<char>)
    ensures
        encode_utf8(a + b) == encode_utf8(a) + encode_utf8(b),
    decreases a.len(),
{
    if a.len() == 0 {
        assert(a + b =~= b);
        assert(encode_utf8(a) + encode_utf8(b) =~= encode_utf8(b));
    } else {
        lemma_encoding_of_concat(a.drop_first(), b);
        assert((a + b).drop_first() =~= a.drop_first() + b);
        assert((a + b)[0] == a[0]);
        assert(encode_utf8(a + b) =~= encode_utf8(a) + encode_utf8(b));
    }
}

/// Where well-formed bytes begin with well-formed bytes, the end of the
/// shorter is a character boundary in the longer.
pub proof fn lemma_prefix_ends_at_boundary(bytes: Seq<u8>, prefix: Seq<u8>)
    requires
        valid_utf8(bytes),
        valid_utf8(prefix),
        occurs_at(bytes, prefix, 0),
    ensures
        is_char_boundary(bytes, prefix.len() as int),
    decreases prefix.len(),
{
    if prefix.len() > 0 {
        let length = length_of_first_scalar(prefix);
        assert(forall|k: int| 0 <= k < prefix.len() ==> #[trigger] bytes[0 + k] == prefix[k]);
        assert(bytes[0int + 0] == prefix[0]);
        assert(length == length_of_first_scalar(bytes));
        assert(1 <= length <= prefix.len());
        let rest = pop_first_scalar(bytes);
        let prefix_rest = pop_first_scalar(prefix);
        assert(occurs_at(rest, prefix_rest, 0)) by {
            assert forall|k: int| 0 <= k < prefix_rest.len() implies #[trigger] rest[0 + k]
                == prefix_rest[k] by {
                assert(bytes[0 + (length + k)] == prefix[length + k]);
            }
        }
        lemma_prefix_ends_at_boundary(rest, prefix_rest);
        assert(prefix_rest.len() == prefix.len() - length);
    }
}

/// A pattern stands in a text at some place exactly when the encoding of
/// the pattern stands in the encoding of the text at some place.
pub proof fn lemma_contains_by_bytes(text: Seq<char>, pattern: Seq<char>)
    ensures
        text_contains(text, pattern) <==> occurs_in(encode_utf8(text), encode_utf8(pattern)),
{
    let bytes = encode_utf8(text);
    let wanted = encode_utf8(pattern);
    encode_utf8_valid_utf8(text);
    encode_utf8_valid_utf8(pattern);
    encode_utf8_decode_utf8(text);
    encode_utf8_decode_utf8(pattern);
    if text_contains(text, pattern) {
        let at = choose|at: int| stands_at(text, pattern, at);
        let before = text.subrange(0, at);
        let after = text.subrange(at + pattern.len(), text.len() as int);
        assert(text =~= before + pattern + after);
        lemma_encoding_of_concat(before + pattern, after);
        lemma_encoding_of_concat(before, pattern);
        let offset = encode_utf8(before).len() as int;
        assert(bytes == encode_utf8(before) + wanted + encode_utf8(after));
        assert(occurs_at(bytes, wanted, offset)) by {
            assert forall|k: int| 0 <= k < wanted.len() implies #[trigger] bytes[offset + k]
                == wanted[k] by {}
        }
    }
    if occurs_in(bytes, wanted) {
        let at = choose|at: int| occurs_at(bytes, wanted, at);
        if wanted.len() == 0 {
            assert(pattern.len() == 0) by {
                assert(decode_utf8(wanted) =~= Seq::<char>::empty());
            }
            assert(stands_at(text, pattern, 0)) by {
                assert(text.subrange(0, 0) =~= pattern);
            }
        } else {
            let end = at + wanted.len();
            // The place is a character boundary: a pattern begins with the
            // first byte of a character.
            is_char_boundary_start_end_of_seq(wanted);
            is_char_boundary_iff_not_is_continuation_byte(wanted, 0);
            assert(bytes[at + 0] == wanted[0]);
            is_char_boundary_iff_not_is_continuation_byte(bytes, at);
            valid_utf8_split(bytes, at);
            decode_utf8_split(bytes, at);
            let head = bytes.subrange(0, at);
            let tail = bytes.subrange(at, bytes.len() as int);
            // So is the place where the pattern ends.
            assert(occurs_at(tail, wanted, 0)) by {
                assert forall|k: int| 0 <= k < wanted.len() implies #[trigger] tail[0 + k]
                    == wanted[k] by {
                    assert(bytes[at + k] == wanted[k]);
                }
            }
            lemma_prefix_ends_at_boundary(tail, wanted);
            valid_utf8_split(tail, wanted.len() as int);
            decode_utf8_split(tail, wanted.len() as int);
            assert(tail.subrange(0, wanted.len() as int) =~= wanted) by {
                assert forall|k: int| 0 <= k < wanted.len() implies tail.subrange(
                    0,
                    wanted.len() as int,
                )[k] == wanted[k] by {
                    assert(tail[0 + k] == wanted[k]);
                }
            }
            let before = decode_utf8(head);
            let after = decode_utf8(tail.subrange(wanted.len() as int, tail.len() as int));
            assert(text =~= before + pattern + after);
            assert(stands_at(text, pattern, before.len() as int)) by {
                assert(text.subrange(
                    before.len() as int,
                    before.len() as int + pattern.len(),
                ) =~= pattern);
            }
        }
    }
}

/// A text begins with a prefix exactly when the encoding of the text
/// begins with the encoding of the prefix.
pub proof fn lemma_starts_with_by_bytes(text: Seq<char>, prefix: Seq<char>)
    ensures
        text_starts_with(text, prefix) <==> occurs_at(encode_utf8(text), encode_utf8(prefix), 0),
{
    let bytes = encode_utf8(text);
    let wanted = encode_utf8(prefix);
    encode_utf8_valid_utf8(text);
    encode_utf8_valid_utf8(prefix);
    encode_utf8_decode_utf8(text);
    encode_utf8_decode_utf8(prefix);
    if text_starts_with(text, prefix) {
        let after = text.subrange(prefix.len() as int, text.len() as int);
        assert(text =~= prefix + after);
        lemma_encoding_of_concat(prefix, after);
        assert(occurs_at(bytes, wanted, 0)) by {
            assert forall|k: int| 0 <= k < wanted.len() implies #[trigger] bytes[0 + k]
                == wanted[k] by {}
        }
    }
    if occurs_at(bytes, wanted, 0) {
        lemma_prefix_ends_at_boundary(bytes, wanted);
        valid_utf8_split(bytes, wanted.len() as int);
        decode_utf8_split(bytes, wanted.len() as int);
        assert(bytes.subrange(0, wanted.len() as int) =~= wanted) by {
            assert forall|k: int| 0 <= k < wanted.len() implies bytes.subrange(
                0,
                wanted.len() as int,
            )[k] == wanted[k] by {
                assert(bytes[0 + k] == wanted[k]);
            }
        }
        let after = decode_utf8(bytes.subrange(wanted.len() as int, bytes.len() as int));
        assert(text =~= prefix + after);
        assert(text.subrange(0, 0int + prefix.len()) =~= prefix);
    }
}

/// Two texts with the same encoding are the same text.
pub proof fn lemma_encoding_is_injective(a: Seq<char>, b: Seq<char>)
    requires
        encode_utf8(a) == encode_utf8(b),
    ensures
        a == b,
{
    encode_utf8_decode_utf8(a);
    encode_utf8_decode_utf8(b);
}

/// Decides whether `pattern` stands in `bytes` at place `at`.
pub fn matches_at(bytes: &[u8], pattern: &[u8], at: usize) -> (found: bool)
    requires
        at + pattern@.len() <= bytes@.len(),
    ensures
        found == occurs_at(bytes@, pattern@, at as int),
{
    let length = bytes.len();
    let mut k: usize = 0;
    while k < pattern.len()
        invariant
            k <= pattern@.len(),
            at + pattern@.len() <= bytes@.len(),
            length == bytes@.len(),
            forall|j: int| 0 <= j < k ==> #[trigger] bytes@[at + j] == pattern@[j],
        decreases pattern@.len() - k,
    {
        if bytes[at + k] != pattern[k] {
            return false;
        }
        k += 1;
    }
    true
}

/// Decides whether `pattern` stands somewhere in `bytes`.
pub fn bytes_contain(bytes: &[u8], pattern: &[u8]) -> (found: bool)
    ensures
        found == occurs_in(bytes@, pattern@),
{
    if pattern.len() > bytes.len() {
        return false;
    }
    if pattern.len() == 0 {
        assert(occurs_at(bytes@, pattern@, 0));
        return true;
    }
    let places: usize = bytes.len() - pattern.len() + 1;
    let mut at: usize = 0;
    while at < places
        invariant
            at <= places,
            places == bytes@.len() - pattern@.len() + 1,
            forall|j: int| 0 <= j < at ==> !occurs_at(bytes@, pattern@, j),
        decreases places - at,
    {
        if matches_at(bytes, pattern, at) {
            return true;
        }
        at += 1;
    }
    false
}

/// Decides whether `text` contains `pattern`.
pub fn contains(text: &str, pattern: &str) -> (found: bool)
    ensures
        found == text_contains(text@, pattern@),
{
    proof {
        lemma_contains_by_bytes(text@, pattern@);
    }
    bytes_contain(text.as_bytes(), pattern.as_bytes())
}

/// Decides whether `text` begins with `prefix`.
pub fn starts_with(text: &str, prefix: &str) -> (found: bool)
    ensures
        found == text_starts_with(text@, prefix@),
{
    proof {
        lemma_starts_with_by_bytes(text@, prefix@);
    }
    let bytes = text.as_bytes();
    let pattern = prefix.as_bytes();
    if pattern.len() > bytes.len() {
        return false;
    }
    matches_at(bytes, pattern, 0)
}

/// Decides whether `a` and `b` are the same text.
pub fn same_text(a: &str, b: &str) -> (same: bool)
    ensures
        same == (a@ == b@),
{
    let x = a.as_bytes();
    let y = b.as_bytes();
    if x.len() != y.len() {
        return false;
    }
    let same = matches_at(x, y, 0);
    proof {
        if same {
            assert forall|k: int| 0 <= k < x@.len() implies x@[k] == y@[k] by {
                assert(x@[0 + k] == y@[k]);
            }
            assert(x@ =~= y@);
            lemma_encoding_is_injective(a@, b@);
        } else {
            if a@ == b@ {
                assert(occurs_at(x@, y@, 0));
            }
        }
    }
    same
}

} // verus!
