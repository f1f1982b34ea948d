//! Small operations on source text that the rewriter is built from.

use vstd::prelude::*;
use vstd::string::StringSliceAdditionalSpecFns;
use vstd::utf8::*;

verus! {

/// Whether two strings hold the same text.
pub fn same_text(a: &str, b: &str) -> (r: bool)
    ensures
        r == (a@ == b@),
{
    let x = a.to_owned();
    let y = b.to_owned();
    x == y
}

/// Whether `text` begins with `prefix`.
pub fn starts_with(text: &str, prefix: &str) -> (r: bool)
    ensures
        r == prefix@.is_prefix_of(text@),
{
    let n = prefix.unicode_len();
    if text.unicode_len() < n {
        return false;
    }
    let mut i: usize = 0;
    while i < n
        invariant
            i <= n,
            n == prefix@.len(),
            n <= text@.len(),
            forall|j: int| 0 <= j < i ==> text@[j] == prefix@[j],
        decreases n - i,
    {
        if text.get_char(i) != prefix.get_char(i) {
            assert(text@.subrange(0, n as int)[i as int] != prefix@[i as int]);
            return false;
        }
        i += 1;
    }
    assert(text@.subrange(0, n as int) =~= prefix@);
    true
}

/// The text that the bytes from `lo` up to `hi` of a text's UTF-8 encoding
/// spell.
pub open spec fn byte_slice(text: Seq<char>, lo: int, hi: int) -> Seq<char> {
    decode_utf8(encode_utf8(text).subrange(lo, hi))
}

/// Whether a text can be cut at the byte offsets `lo` and `hi`: both lie
/// within its encoding, in order, and neither splits a character.
pub open spec fn can_cut(text: Seq<char>, lo: int, hi: int) -> bool {
    &&& 0 <= lo <= hi <= encode_utf8(text).len()
    &&& is_char_boundary(encode_utf8(text), lo)
    &&& is_char_boundary(encode_utf8(text), hi)
}

/// A character boundary of a text is one of each prefix that reaches it.
proof fn lemma_boundary_in_prefix(bytes: Seq<u8>, lo: int, hi: int)
    requires
        valid_utf8(bytes),
        0 <= lo <= hi <= bytes.len(),
        is_char_boundary(bytes, lo),
        is_char_boundary(bytes, hi),
    ensures
        valid_utf8(bytes.subrange(0, hi)),
        is_char_boundary(bytes.subrange(0, hi), lo),
{
    let prefix = bytes.subrange(0, hi);
    valid_utf8_split(bytes, hi);
    if lo == hi {
        is_char_boundary_start_end_of_seq(prefix);
    } else {
        is_char_boundary_iff_not_is_continuation_byte(bytes, lo);
        is_char_boundary_iff_not_is_continuation_byte(prefix, lo);
    }
}

/// Cutting a text at two of its character boundaries gives three texts that
/// make up the whole again.
pub proof fn lemma_cut_rejoins(text: Seq<char>, lo: int, hi: int)
    requires
        can_cut(text, lo, hi),
    ensures
        byte_slice(text, 0, lo) + byte_slice(text, lo, hi) + byte_slice(
            text,
            hi,
            encode_utf8(text).len() as int,
        ) == text,
{
    let bytes = encode_utf8(text);
    let prefix = bytes.subrange(0, hi);
    encode_utf8_valid_utf8(text);
    encode_utf8_decode_utf8(text);
    lemma_boundary_in_prefix(bytes, lo, hi);
    decode_utf8_split(bytes, hi);
    decode_utf8_split(prefix, lo);
    assert(prefix.subrange(0, lo) =~= bytes.subrange(0, lo));
    assert(prefix.subrange(lo, prefix.len() as int) =~= bytes.subrange(lo, hi));
}

/// Cuts a text at two byte offsets into what stands before the first, between
/// the two, and after the second. `None` where the offsets are out of range or
/// out of order, or one of them splits a character.
pub fn cut(text: &str, lo: usize, hi: usize) -> (r: Option<(&str, &str, &str)>)
    ensures
        r is Some <==> can_cut(text@, lo as int, hi as int),
        r matches Some((before, middle, after)) ==> {
            &&& before@ == byte_slice(text@, 0, lo as int)
            &&& middle@ == byte_slice(text@, lo as int, hi as int)
            &&& after@ == byte_slice(text@, hi as int, encode_utf8(text@).len() as int)
            &&& before@ + middle@ + after@ == text@
        },
{
    if lo > hi || hi > text.as_bytes().len() {
        return None;
    }
    if !text.is_char_boundary(lo) || !text.is_char_boundary(hi) {
        return None;
    }
    proof {
        encode_utf8_valid_utf8(text@);
        lemma_boundary_in_prefix(text.spec_bytes(), lo as int, hi as int);
        lemma_cut_rejoins(text@, lo as int, hi as int);
    }
    let (head, after) = text.split_at(hi);
    let (before, middle) = head.split_at(lo);
    proof {
        let bytes = text.spec_bytes();
        let prefix = bytes.subrange(0, hi as int);
        assert(prefix.subrange(0, lo as int) =~= bytes.subrange(0, lo as int));
        assert(prefix.subrange(lo as int, prefix.len() as int) =~= bytes.subrange(
            lo as int,
            hi as int,
        ));
        encode_utf8_decode_utf8(before@);
        encode_utf8_decode_utf8(middle@);
        encode_utf8_decode_utf8(after@);
    }
    Some((before, middle, after))
}

} // verus!
