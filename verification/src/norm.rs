//! Text normalization: case-insensitive team names and answer-equivalence
//! keys.
//!
//! Team names are compared case-insensitively; submitted answer texts are
//! compared after stripping leading and trailing whitespace and folding case.
//! Both notions are defined here over the UTF-8 bytes of a string: ASCII
//! letters `A`..`Z` fold to `a`..`z`, every other byte is left alone, and
//! whitespace means the ASCII blank characters (space, tab, line feed,
//! carriage return). Folding individual bytes never touches a byte of a
//! multi-byte UTF-8 sequence (those are all at least 0x80), so the fold of a
//! valid UTF-8 string is the ASCII-lowercased string.

use vstd::prelude::*;
use vstd::utf8::encode_utf8;

verus! {

/// Case-fold one byte: ASCII `A`..`Z` (65..90) maps to `a`..`z`.
pub open spec fn fold_byte(b: u8) -> u8 {
    if 65 <= b <= 90 {
        (b + 32) as u8
    } else {
        b
    }
}

/// Case-fold every byte of a sequence.
pub open spec fn fold_bytes(s: Seq<u8>) -> Seq<u8> {
    s.map_values(|b: u8| fold_byte(b))
}

/// ASCII blank characters: space, tab, line feed, carriage return.
pub open spec fn is_space(b: u8) -> bool {
    b == 32 || b == 9 || b == 10 || b == 13
}

/// Index of the first byte that is not whitespace (the length if all are).
pub open spec fn trim_start(s: Seq<u8>) -> int
    decreases s.len(),
{
    if s.len() == 0 {
        0
    } else if !is_space(s[0]) {
        0
    } else {
        1 + trim_start(s.drop_first())
    }
}

/// One past the index of the last byte that is not whitespace (zero if all
/// are).
pub open spec fn trim_end(s: Seq<u8>) -> int
    decreases s.len(),
{
    if s.len() == 0 {
        0
    } else if !is_space(s.last()) {
        s.len() as int
    } else {
        trim_end(s.drop_last())
    }
}

/// The sequence with leading and trailing whitespace removed.
pub open spec fn trim_bytes(s: Seq<u8>) -> Seq<u8> {
    if trim_start(s) <= trim_end(s) {
        s.subrange(trim_start(s), trim_end(s))
    } else {
        Seq::empty()
    }
}

/// The key under which a team name is compared: its UTF-8 bytes, case-folded.
pub open spec fn name_key(s: Seq<char>) -> Seq<u8> {
    fold_bytes(encode_utf8(s))
}

/// The key under which an answer text is compared: its UTF-8 bytes, trimmed
/// and case-folded.
pub open spec fn answer_key(s: Seq<char>) -> Seq<u8> {
    fold_bytes(trim_bytes(encode_utf8(s)))
}

proof fn lemma_trim_start_characterization(s: Seq<u8>, k: int)
    requires
        0 <= k <= s.len(),
        forall|j: int| 0 <= j < k ==> is_space(s[j]),
        k == s.len() || !is_space(s[k]),
    ensures
        trim_start(s) == k,
    decreases s.len(),
{
    if s.len() == 0 {
    } else if k == 0 {
    } else {
        assert(is_space(s[0]));
        lemma_trim_start_characterization(s.drop_first(), k - 1);
    }
}

proof fn lemma_trim_end_characterization(s: Seq<u8>, k: int)
    requires
        0 <= k <= s.len(),
        forall|j: int| k <= j < s.len() ==> is_space(s[j]),
        k == 0 || !is_space(s[k - 1]),
    ensures
        trim_end(s) == k,
    decreases s.len(),
{
    if s.len() == 0 {
    } else if k == s.len() {
        assert(!is_space(s.last()));
    } else {
        assert(is_space(s.last()));
        lemma_trim_end_characterization(s.drop_last(), k);
    }
}

/// Case-fold one byte.
fn fold_byte_x(b: u8) -> (r: u8)
    ensures
        r == fold_byte(b),
{
    if 65 <= b && b <= 90 {
        b + 32
    } else {
        b
    }
}

/// Whether a byte is an ASCII blank character.
fn is_space_x(b: u8) -> (r: bool)
    ensures
        r == is_space(b),
{
    b == 32 || b == 9 || b == 10 || b == 13
}

/// The range of `s` that remains after trimming whitespace on both sides:
/// the pair of the first kept index and one past the last kept index (the
/// second is below the first when the whole slice is whitespace).
fn trim_range(s: &[u8]) -> (r: (usize, usize))
    ensures
        r.0 as int == trim_start(s@),
        r.1 as int == trim_end(s@),
        r.0 <= s@.len(),
        r.1 <= s@.len(),
{
    let n: usize = s.len();
    let mut lo: usize = 0;
    while lo < n && is_space_x(s[lo])
        invariant
            lo <= n,
            n == s@.len(),
            forall|j: int| 0 <= j < lo ==> is_space(s@[j]),
        decreases n - lo,
    {
        lo = lo + 1;
    }
    proof {
        lemma_trim_start_characterization(s@, lo as int);
    }
    let mut hi: usize = n;
    while hi > 0 && is_space_x(s[hi - 1])
        invariant
            hi <= n,
            n == s@.len(),
            forall|j: int| hi <= j < n ==> is_space(s@[j]),
        decreases hi,
    {
        hi = hi - 1;
    }
    proof {
        lemma_trim_end_characterization(s@, hi as int);
    }
    (lo, hi)
}

/// Whether two strings name the same team: equal after case-folding.
pub fn names_equal(a: &str, b: &str) -> (r: bool)
    ensures
        r == (name_key(a@) == name_key(b@)),
{
    let ab = a.as_bytes();
    let bb = b.as_bytes();
    if ab.len() != bb.len() {
        proof {
            assert(name_key(a@).len() != name_key(b@).len());
        }
        return false;
    }
    let n: usize = ab.len();
    let mut i: usize = 0;
    while i < n
        invariant
            i <= n,
            n == ab@.len() == bb@.len(),
            ab@ == encode_utf8(a@),
            bb@ == encode_utf8(b@),
            forall|j: int| 0 <= j < i ==> fold_byte(ab@[j]) == fold_byte(bb@[j]),
        decreases n - i,
    {
        if fold_byte_x(ab[i]) != fold_byte_x(bb[i]) {
            proof {
                assert(name_key(a@)[i as int] != name_key(b@)[i as int]);
            }
            return false;
        }
        i = i + 1;
    }
    proof {
        assert(name_key(a@) =~= name_key(b@));
    }
    true
}

/// Whether two submitted answer texts are equivalent: equal after trimming
/// whitespace and case-folding.
pub fn keys_equal(a: &str, b: &str) -> (r: bool)
    ensures
        r == (answer_key(a@) == answer_key(b@)),
{
    let ab = a.as_bytes();
    let bb = b.as_bytes();
    let (alo, ahi) = trim_range(ab);
    let (blo, bhi) = trim_range(bb);
    let alen: usize = if ahi > alo {
        ahi - alo
    } else {
        0
    };
    let blen: usize = if bhi > blo {
        bhi - blo
    } else {
        0
    };
    proof {
        assert(trim_bytes(ab@).len() == alen);
        assert(trim_bytes(bb@).len() == blen);
    }
    if alen != blen {
        proof {
            assert(answer_key(a@).len() != answer_key(b@).len());
        }
        return false;
    }
    let mut i: usize = 0;
    while i < alen
        invariant
            i <= alen,
            alen == blen,
            ab@ == encode_utf8(a@),
            bb@ == encode_utf8(b@),
            alo as int == trim_start(ab@),
            blo as int == trim_start(bb@),
            alen > 0 ==> ahi as int == trim_end(ab@) && alo + alen == ahi <= ab@.len(),
            alen > 0 ==> bhi as int == trim_end(bb@) && blo + blen == bhi <= bb@.len(),
            alen as int == trim_bytes(ab@).len(),
            blen as int == trim_bytes(bb@).len(),
            forall|j: int|
                0 <= j < i ==> fold_byte(trim_bytes(ab@)[j]) == fold_byte(trim_bytes(bb@)[j]),
        decreases alen - i,
    {
        if fold_byte_x(ab[alo + i]) != fold_byte_x(bb[blo + i]) {
            proof {
                assert(trim_bytes(ab@)[i as int] == ab@[alo + i]);
                assert(trim_bytes(bb@)[i as int] == bb@[blo + i]);
                assert(answer_key(a@)[i as int] != answer_key(b@)[i as int]);
            }
            return false;
        }
        i = i + 1;
    }
    proof {
        assert(answer_key(a@) =~= answer_key(b@));
    }
    true
}

/// Whether two strings are equal, character for character.
pub fn str_eq(a: &str, b: &str) -> (r: bool)
    ensures
        r == (a@ == b@),
{
    let ab = a.as_bytes();
    let bb = b.as_bytes();
    if ab.len() != bb.len() {
        return false;
    }
    let n: usize = ab.len();
    let mut i: usize = 0;
    while i < n
        invariant
            i <= n,
            n == ab@.len() == bb@.len(),
            ab@ == encode_utf8(a@),
            bb@ == encode_utf8(b@),
            forall|j: int| 0 <= j < i ==> ab@[j] == bb@[j],
        decreases n - i,
    {
        if ab[i] != bb[i] {
            return false;
        }
        i = i + 1;
    }
    proof {
        assert(encode_utf8(a@) =~= encode_utf8(b@));
        vstd::utf8::encode_utf8_decode_utf8(a@);
        vstd::utf8::encode_utf8_decode_utf8(b@);
    }
    true
}

} // verus!
