//! Byte-level search in UTF-8 text (through the `memchr` crate) and slicing of `str`s at
//! positions next to ASCII bytes.

use vstd::prelude::*;
use vstd::utf8::{
    decode_utf8, encode_utf8_decode_utf8, encode_utf8_valid_utf8, is_char_boundary,
    is_char_boundary_iff_is_leading_byte, is_char_boundary_iff_not_is_continuation_byte,
    is_char_boundary_start_end_of_seq, is_continuation_byte, length_of_first_scalar,
    pop_first_scalar, valid_first_scalar, valid_utf8, valid_utf8_split,
};
use vstd::string::StringSliceAdditionalSpecFns;
use crate::text::{find_from, lemma_find_from, occurs_at};

verus! {

/// `memchr::memchr(needle, &hay[from..])`: the first position at or after `from` that holds
/// `needle`, counted from `from`.
#[verifier::external_body]
pub fn memchr_from(needle: u8, hay: &[u8], from: usize) -> (r: Option<usize>)
    requires
        from <= hay@.len(),
    ensures
        r matches Some(k) ==> find_from(hay@, seq![needle], from as int) == Some(from + k),
        r is None ==> find_from(hay@, seq![needle], from as int) is None,
{
    memchr::memchr(needle, &hay[from..])
}

/// `memchr::memmem::find(&hay[from..], needle)`: the first position at or after `from` where
/// `needle` occurs, counted from `from`.
#[verifier::external_body]
pub fn memmem_from(hay: &[u8], from: usize, needle: &[u8]) -> (r: Option<usize>)
    requires
        from <= hay@.len(),
    ensures
        r matches Some(k) ==> find_from(hay@, needle@, from as int) == Some(from + k),
        r is None ==> find_from(hay@, needle@, from as int) is None,
{
    memchr::memmem::find(&hay[from..], needle)
}

/// In valid UTF-8, the byte after an ASCII byte is not a continuation byte.
pub proof fn lemma_after_ascii(b: Seq<u8>, k: int)
    requires
        valid_utf8(b),
        0 <= k,
        k + 1 < b.len(),
        b[k] < 0x80,
    ensures
        !is_continuation_byte(b[k + 1]),
    decreases b.len(),
{
    let n = length_of_first_scalar(b);
    let rest = pop_first_scalar(b);
    if k < n {
        assert(k == 0);
        assert(n == 1);
        assert(rest[0] == b[1]);
        assert(valid_utf8(rest));
        assert(rest.len() > 0);
        assert(valid_first_scalar(rest));
    } else {
        assert(rest[k - n] == b[k]);
        assert(rest[k - n + 1] == b[k + 1]);
        lemma_after_ascii(rest, k - n);
    }
}

/// In valid UTF-8, the positions just before and just after an ASCII byte are character
/// boundaries.
pub proof fn lemma_ascii_boundaries(b: Seq<u8>, k: int)
    requires
        valid_utf8(b),
        0 <= k < b.len(),
        b[k] < 0x80,
    ensures
        is_char_boundary(b, k),
        is_char_boundary(b, k + 1),
{
    is_char_boundary_iff_is_leading_byte(b, k);
    if k + 1 == b.len() {
        is_char_boundary_start_end_of_seq(b);
    } else {
        lemma_after_ascii(b, k);
        is_char_boundary_iff_not_is_continuation_byte(b, k + 1);
    }
}

/// A character boundary `i <= j` of `b` is one of the prefix `b[..j]` too.
pub proof fn lemma_boundary_in_prefix(b: Seq<u8>, i: int, j: int)
    requires
        valid_utf8(b),
        0 <= i <= j <= b.len(),
        is_char_boundary(b, i),
        is_char_boundary(b, j),
    ensures
        valid_utf8(b.subrange(0, j)),
        is_char_boundary(b.subrange(0, j), i),
{
    valid_utf8_split(b, j);
    let h = b.subrange(0, j);
    if i == j {
        is_char_boundary_start_end_of_seq(h);
    } else {
        is_char_boundary_iff_not_is_continuation_byte(b, i);
        is_char_boundary_iff_not_is_continuation_byte(h, i);
    }
}

/// The `str` whose bytes are `s`'s bytes `i..j`, both character boundaries.
pub fn str_range(s: &str, i: usize, j: usize) -> (r: &str)
    requires
        i <= j <= s.spec_bytes().len(),
        is_char_boundary(s.spec_bytes(), i as int),
        is_char_boundary(s.spec_bytes(), j as int),
    ensures
        r.spec_bytes() == s.spec_bytes().subrange(i as int, j as int),
        r@ == decode_utf8(s.spec_bytes().subrange(i as int, j as int)),
{
    proof {
        encode_utf8_valid_utf8(s@);
        lemma_boundary_in_prefix(s.spec_bytes(), i as int, j as int);
    }
    let (head, _) = s.split_at(j);
    let (_, r) = head.split_at(i);
    proof {
        assert(r.spec_bytes() =~= s.spec_bytes().subrange(i as int, j as int));
        encode_utf8_decode_utf8(r@);
    }
    r
}


/// The first position at or after `from` where `pat` occurs in `hay`.
pub fn find_bytes(hay: &[u8], from: usize, pat: &[u8]) -> (r: Option<usize>)
    requires
        from <= hay@.len(),
    ensures
        r matches Some(k) ==> find_from(hay@, pat@, from as int) == Some(k as int) && from <= k
            && occurs_at(hay@, pat@, k as int),
        r is None ==> find_from(hay@, pat@, from as int) is None,
{
    proof {
        lemma_find_from(hay@, pat@, from as int);
    }
    match memmem_from(hay, from, pat) {
        Some(k) => {
            assert(hay@.len() == hay.len());
            Some(from + k)
        },
        None => None,
    }
}

/// The first position at or after `from` holding the byte `c`.
pub fn find_byte(hay: &[u8], from: usize, c: u8) -> (r: Option<usize>)
    requires
        from <= hay@.len(),
    ensures
        r matches Some(k) ==> find_from(hay@, seq![c], from as int) == Some(k as int) && from <= k
            && occurs_at(hay@, seq![c], k as int) && k < hay@.len() && hay@[k as int] == c,
        r is None ==> find_from(hay@, seq![c], from as int) is None,
{
    proof {
        lemma_find_from(hay@, seq![c], from as int);
    }
    match memchr_from(c, hay, from) {
        Some(k) => {
            assert(hay@.len() == hay.len());
            proof {
                assert(hay@.subrange(from + k, from + k + 1)[0] == hay@[from + k]);
            }
            Some(from + k)
        },
        None => None,
    }
}

/// In valid UTF-8, the position right after an occurrence of a pattern that ends in an ASCII
/// byte is a character boundary.
pub proof fn lemma_after_pattern(b: Seq<u8>, pat: Seq<u8>, i: int)
    requires
        valid_utf8(b),
        occurs_at(b, pat, i),
        pat.len() > 0,
        pat.last() < 0x80,
    ensures
        is_char_boundary(b, i + pat.len()),
        is_char_boundary(b, i + pat.len() - 1),
{
    let k = i + pat.len() - 1;
    assert(b[k] == b.subrange(i, i + pat.len())[pat.len() - 1]);
    lemma_ascii_boundaries(b, k);
}

/// In valid UTF-8, the position of an occurrence of a pattern that starts with an ASCII byte is
/// a character boundary.
pub proof fn lemma_at_pattern(b: Seq<u8>, pat: Seq<u8>, i: int)
    requires
        valid_utf8(b),
        occurs_at(b, pat, i),
        pat.len() > 0,
        pat[0] < 0x80,
    ensures
        is_char_boundary(b, i),
{
    assert(b[i] == b.subrange(i, i + pat.len())[0]);
    lemma_ascii_boundaries(b, i);
}

} // verus!
