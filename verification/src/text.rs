//! Character and string helpers shared by description validation and search:
//! whitespace classification, case folding, and substring matching.

use vstd::prelude::*;

verus! {

/// A character with the Unicode `White_Space` property: the characters that
/// trimming a string removes from its ends.
pub open spec fn is_whitespace_char(c: char) -> bool {
    let u = c as u32;
    (0x09 <= u && u <= 0x0D) || u == 0x20 || u == 0x85 || u == 0xA0 || u == 0x1680 || (0x2000
        <= u && u <= 0x200A) || u == 0x2028 || u == 0x2029 || u == 0x202F || u == 0x205F || u
        == 0x3000
}

/// Every character of `s` is whitespace; equivalently, `s` trims to the empty
/// string. True of the empty sequence.
pub open spec fn all_whitespace(s: Seq<char>) -> bool {
    forall|i: int| 0 <= i < s.len() ==> is_whitespace_char(#[trigger] s[i])
}

/// Executable whitespace test, equal to the `White_Space` classification above.
pub fn char_is_whitespace(c: char) -> (r: bool)
    ensures
        r == is_whitespace_char(c),
{
    let u = c as u32;
    (0x09 <= u && u <= 0x0D) || u == 0x20 || u == 0x85 || u == 0xA0 || u == 0x1680 || (0x2000
        <= u && u <= 0x200A) || u == 0x2028 || u == 0x2029 || u == 0x202F || u == 0x205F || u
        == 0x3000
}

/// The lower-case form of a sequence of characters. What Unicode case folding
/// produces takes tables to state, so the result is only named here; it is a
/// function of the characters alone.
pub uninterp spec fn lower_of(s: Seq<char>) -> Seq<char>;

/// Relies on `str::to_lowercase`: its result depends on the characters of `s`
/// alone, and lowercasing an empty string yields an empty string.
#[verifier::external_body]
pub fn lower_chars(s: &str) -> (r: Vec<char>)
    ensures
        r@ == lower_of(s@),
        s@.len() == 0 ==> r@.len() == 0,
{
    s.to_lowercase().chars().collect()
}

/// `needle` occurs contiguously somewhere in `hay`; an empty `needle` occurs
/// in everything.
pub open spec fn contains_seq(hay: Seq<char>, needle: Seq<char>) -> bool {
    exists|i: int|
        0 <= i <= hay.len() - needle.len() && #[trigger] hay.subrange(i, i + needle.len())
            == needle
}

/// The empty sequence occurs in every sequence.
pub proof fn lemma_contains_empty(hay: Seq<char>, needle: Seq<char>)
    requires
        needle.len() == 0,
    ensures
        contains_seq(hay, needle),
{
    assert(hay.subrange(0, 0 + needle.len() as int) =~= needle);
}

/// Whether `needle` occurs contiguously in `hay`.
pub fn contains_slice(hay: &[char], needle: &[char]) -> (r: bool)
    ensures
        r == contains_seq(hay@, needle@),
{
    let m = needle.len();
    let n = hay.len();
    if m > n {
        return false;
    }
    let mut i: usize = 0;
    while i <= n - m
        invariant
            m == needle@.len(),
            n == hay@.len(),
            m <= n,
            0 <= i <= n - m + 1,
            forall|k: int|
                0 <= k < i ==> #[trigger] hay@.subrange(k, k + needle@.len()) != needle@,
        decreases n - i,
    {
        let mut j: usize = 0;
        while j < m && hay[i + j] == needle[j]
            invariant
                m == needle@.len(),
                n == hay@.len(),
                m <= n,
                0 <= i <= n - m,
                0 <= j <= m,
                forall|l: int| 0 <= l < j ==> hay@[i + l] == needle@[l],
            decreases m - j,
        {
            j += 1;
        }
        if j == m {
            proof {
                assert(hay@.subrange(i as int, i + needle@.len()) =~= needle@);
            }
            return true;
        }
        proof {
            assert(hay@.subrange(i as int, i + needle@.len()) != needle@) by {
                assert(hay@.subrange(i as int, i + needle@.len())[j as int] == hay@[i + j]);
            }
        }
        i += 1;
    }
    false
}

/// True when `s` consists of whitespace alone, so that trimming leaves nothing.
pub fn str_is_blank(s: &str) -> (r: bool)
    ensures
        r == all_whitespace(s@),
{
    let n = s.unicode_len();
    let mut i: usize = 0;
    while i < n
        invariant
            n == s@.len(),
            0 <= i <= n,
            forall|j: int| 0 <= j < i ==> is_whitespace_char(#[trigger] s@[j]),
        decreases n - i,
    {
        let c = s.get_char(i);
        if !char_is_whitespace(c) {
            return false;
        }
        i += 1;
    }
    true
}

} // verus!
