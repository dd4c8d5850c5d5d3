//! Hex/binary codec: lowercase hex encoding of byte sequences, the
//! normalization step that removes every occurrence of the two-byte substring
//! `"ff"` from an encoded identifier, and substring containment over bytes.

use vstd::prelude::*;

verus! {

/// The lowercase ASCII hex digit for a value below 16.
pub open spec fn hex_digit(n: u8) -> u8 {
    if n < 10 {
        (48 + n) as u8
    } else {
        (87 + n) as u8
    }
}

/// Lowercase hex encoding of a byte sequence, as ASCII bytes: two digits per
/// byte, most significant digit first.
pub open spec fn hex_of(s: Seq<u8>) -> Seq<u8>
    decreases s.len(),
{
    if s.len() == 0 {
        Seq::empty()
    } else {
        hex_of(s.drop_last()) + seq![hex_digit(s.last() / 16), hex_digit(s.last() % 16)]
    }
}

/// The characters an ASCII byte sequence spells.
pub open spec fn chars_of(s: Seq<u8>) -> Seq<char> {
    Seq::new(s.len(), |i: int| s[i] as char)
}

/// The byte value of the ASCII letter `f`.
pub const LETTER_F: u8 = 102;

/// The result of removing every occurrence of the two-byte substring `"ff"`
/// from `s`, scanning left to right over non-overlapping matches.
pub open spec fn strip_ff(s: Seq<u8>) -> Seq<u8>
    decreases s.len(),
{
    if s.len() >= 2 && s[0] == LETTER_F && s[1] == LETTER_F {
        strip_ff(s.skip(2))
    } else if s.len() >= 1 {
        seq![s[0]] + strip_ff(s.skip(1))
    } else {
        Seq::empty()
    }
}

/// `needle` occurs in `hay` starting at position `i`.
pub open spec fn match_at(hay: Seq<u8>, needle: Seq<u8>, i: int) -> bool {
    0 <= i && i + needle.len() <= hay.len() && hay.subrange(i, i + needle.len()) == needle
}

/// `needle` occurs somewhere in `hay` as a contiguous subsequence.
pub open spec fn contains_seq(hay: Seq<u8>, needle: Seq<u8>) -> bool {
    exists|i: int| match_at(hay, needle, i)
}

/// Every byte of a hex encoding is printable ASCII (a digit or `a`..`f`).
pub proof fn lemma_hex_of_ascii(s: Seq<u8>)
    ensures
        forall|i: int| 0 <= i < hex_of(s).len() ==> hex_of(s)[i] < 128,
    decreases s.len(),
{
    if s.len() > 0 {
        lemma_hex_of_ascii(s.drop_last());
        let tail = seq![hex_digit(s.last() / 16), hex_digit(s.last() % 16)];
        assert(hex_of(s) == hex_of(s.drop_last()) + tail);
        assert(tail[0] < 128 && tail[1] < 128);
        assert forall|i: int| 0 <= i < hex_of(s).len() implies hex_of(s)[i] < 128 by {
            if i < hex_of(s.drop_last()).len() {
                assert(hex_of(s)[i] == hex_of(s.drop_last())[i]);
            } else {
                assert(hex_of(s)[i] == tail[i - hex_of(s.drop_last()).len()]);
            }
        }
    }
}

/// Removing `"ff"` occurrences keeps every remaining byte of the input, so an
/// ASCII input stays ASCII.
pub proof fn lemma_strip_ff_ascii(s: Seq<u8>)
    requires
        forall|i: int| 0 <= i < s.len() ==> s[i] < 128,
    ensures
        forall|i: int| 0 <= i < strip_ff(s).len() ==> strip_ff(s)[i] < 128,
    decreases s.len(),
{
    if s.len() >= 2 && s[0] == LETTER_F && s[1] == LETTER_F {
        assert(forall|i: int| 0 <= i < s.skip(2).len() ==> s.skip(2)[i] == s[i + 2]);
        lemma_strip_ff_ascii(s.skip(2));
        assert(strip_ff(s) == strip_ff(s.skip(2)));
    } else if s.len() >= 1 {
        assert(forall|i: int| 0 <= i < s.skip(1).len() ==> s.skip(1)[i] == s[i + 1]);
        lemma_strip_ff_ascii(s.skip(1));
        assert(strip_ff(s) == seq![s[0]] + strip_ff(s.skip(1)));
        assert forall|i: int| 0 <= i < strip_ff(s).len() implies strip_ff(s)[i] < 128 by {
            if i == 0 {
                assert(strip_ff(s)[0] == s[0]);
            } else {
                assert(strip_ff(s)[i] == strip_ff(s.skip(1))[i - 1]);
            }
        }
    }
}

/// Relies on `hex::encode`: it returns the lowercase hex encoding of its
/// input, two digits per byte, most significant digit first.
#[verifier::external_body]
pub(crate) fn hex_encode(data: &[u8]) -> (r: Vec<u8>)
    ensures
        r@ == hex_of(data@),
{
    hex::encode(data).into_bytes()
}

/// Relies on `String::from_utf8`: ASCII bytes are valid UTF-8 and decode to
/// the characters with the same code points.
#[verifier::external_body]
pub(crate) fn ascii_string(bytes: &Vec<u8>) -> (r: String)
    requires
        forall|i: int| 0 <= i < bytes@.len() ==> bytes@[i] < 128,
    ensures
        r@.len() == bytes@.len(),
        forall|i: int| 0 <= i < bytes@.len() ==> r@[i] == bytes@[i] as char,
{
    String::from_utf8(bytes.clone()).unwrap_or_default()
}

/// Remove every occurrence of the two-byte substring `"ff"`, scanning left to
/// right over non-overlapping matches, as the identifier normalization
/// demands.
pub fn strip_ff_bytes(s: &Vec<u8>) -> (r: Vec<u8>)
    ensures
        r@ == strip_ff(s@),
{
    let mut out: Vec<u8> = Vec::new();
    let mut i: usize = 0;
    proof {
        assert(s@.skip(0) =~= s@);
    }
    while i < s.len()
        invariant
            i <= s@.len(),
            strip_ff(s@) == out@ + strip_ff(s@.skip(i as int)),
        decreases s@.len() - i,
    {
        if i + 1 < s.len() && s[i] == LETTER_F && s[i + 1] == LETTER_F {
            proof {
                assert(s@.skip(i as int).skip(2) =~= s@.skip(i + 2));
            }
            i = i + 2;
        } else {
            proof {
                assert(s@.skip(i as int).skip(1) =~= s@.skip(i + 1));
                assert(seq![s@[i as int]] + strip_ff(s@.skip(i + 1)) == strip_ff(
                    s@.skip(i as int),
                ));
            }
            out.push(s[i]);
            proof {
                assert(out@ + strip_ff(s@.skip(i + 1)) =~= strip_ff(s@));
            }
            i = i + 1;
        }
    }
    proof {
        assert(out@ + strip_ff(s@.skip(s@.len() as int)) =~= out@);
    }
    out
}

/// Decide whether `needle` occurs in `hay` as a contiguous subsequence.
pub fn contains_bytes(hay: &Vec<u8>, needle: &Vec<u8>) -> (r: bool)
    ensures
        r == contains_seq(hay@, needle@),
{
    if needle.len() > hay.len() {
        return false;
    }
    if needle.len() == 0 {
        proof {
            assert(hay@.subrange(0, 0) =~= needle@);
            assert(match_at(hay@, needle@, 0));
        }
        return true;
    }
    let bound: usize = hay.len() - needle.len();
    let mut i: usize = 0;
    while i <= bound
        invariant
            bound == hay@.len() - needle@.len(),
            1 <= needle@.len() <= hay@.len(),
            hay@.len() <= usize::MAX,
            i <= bound + 1,
            forall|k: int| 0 <= k < i ==> !match_at(hay@, needle@, k),
        decreases bound + 1 - i,
    {
        let mut j: usize = 0;
        let mut mismatch = false;
        while j < needle.len() && !mismatch
            invariant
                bound == hay@.len() - needle@.len(),
                1 <= needle@.len() <= hay@.len(),
                hay@.len() <= usize::MAX,
                i <= bound,
                j <= needle@.len(),
                !mismatch ==> forall|l: int| 0 <= l < j ==> hay@[i + l] == needle@[l],
                mismatch ==> !match_at(hay@, needle@, i as int),
            decreases needle@.len() - j + (if mismatch { 0int } else { 1int }),
        {
            if hay[i + j] != needle[j] {
                proof {
                    assert(hay@.subrange(i as int, i + needle@.len())[j as int] == hay@[i + j]);
                }
                mismatch = true;
            } else {
                j = j + 1;
            }
        }
        if !mismatch {
            proof {
                assert(hay@.subrange(i as int, i + needle@.len()) =~= needle@);
                assert(match_at(hay@, needle@, i as int));
            }
            return true;
        }
        i = i + 1;
    }
    proof {
        assert forall|k: int| !match_at(hay@, needle@, k) by {
            if 0 <= k <= hay@.len() - needle@.len() {
                assert(!match_at(hay@, needle@, k));
            }
        }
    }
    false
}

} // verus!
