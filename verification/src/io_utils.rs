//! Byte-level text utilities shared by the file-format loaders: line
//! splitting, trimming, and word scanning.

use vstd::prelude::*;

verus! {

/// Whether `c` is blank space within a line: space, tab or carriage return.
pub open spec fn is_space(c: u8) -> bool {
    c == 32 || c == 9 || c == 13
}

/// The position of the first line feed at or after `i`, or the end of `s`.
pub open spec fn line_end(s: Seq<u8>, i: int) -> int
    decreases s.len() - i,
{
    if 0 <= i < s.len() && s[i] != 10 {
        line_end(s, i + 1)
    } else {
        i
    }
}

/// `s` without its trailing blank space.
pub open spec fn trim_end_spec(s: Seq<u8>) -> Seq<u8>
    decreases s.len(),
{
    if s.len() > 0 && is_space(s[s.len() - 1]) {
        trim_end_spec(s.drop_last())
    } else {
        s
    }
}

/// The position of the first byte at or after `i` that differs from `d`, or
/// the end of `s`.
pub open spec fn skip_delims(s: Seq<u8>, i: int, d: u8) -> int
    decreases s.len() - i,
{
    if 0 <= i < s.len() && s[i] == d {
        skip_delims(s, i + 1, d)
    } else {
        i
    }
}

/// The position of the first `d` at or after `i`, or the end of `s`.
pub open spec fn token_end(s: Seq<u8>, i: int, d: u8) -> int
    decreases s.len() - i,
{
    if 0 <= i < s.len() && s[i] != d {
        token_end(s, i + 1, d)
    } else {
        i
    }
}

/// The position of the first non-blank byte at or after `i`, or the end of
/// `s`.
pub open spec fn skip_spaces(s: Seq<u8>, i: int) -> int
    decreases s.len() - i,
{
    if 0 <= i < s.len() && is_space(s[i]) {
        skip_spaces(s, i + 1)
    } else {
        i
    }
}

/// The position of the first blank byte at or after `i`, or the end of `s`.
pub open spec fn word_end(s: Seq<u8>, i: int) -> int
    decreases s.len() - i,
{
    if 0 <= i < s.len() && !is_space(s[i]) {
        word_end(s, i + 1)
    } else {
        i
    }
}

/// The end of a line lies between the line's start and the end of the text.
pub proof fn lemma_line_end_bounds(s: Seq<u8>, i: int)
    requires
        0 <= i <= s.len(),
    ensures
        i <= line_end(s, i) <= s.len(),
    decreases s.len() - i,
{
    if i < s.len() && s[i] != 10 {
        lemma_line_end_bounds(s, i + 1);
    }
}

/// Finds the end of the line starting at `i`.
pub fn find_line_end(s: &[u8], i: usize) -> (r: usize)
    requires
        i <= s@.len(),
    ensures
        r == line_end(s@, i as int),
        i <= r <= s@.len(),
    decreases s@.len() - i,
{
    if i < s.len() && s[i] != 10 {
        find_line_end(s, i + 1)
    } else {
        i
    }
}

/// Trims trailing blank space off `s`.
pub fn trim_end(s: &[u8]) -> (r: &[u8])
    ensures
        r@ == trim_end_spec(s@),
    decreases s@.len(),
{
    let n = s.len();
    if n > 0 && (s[n - 1] == 32 || s[n - 1] == 9 || s[n - 1] == 13) {
        proof {
            assert(s@.subrange(0, n - 1) =~= s@.drop_last());
        }
        trim_end(&s[0..n - 1])
    } else {
        proof {
            assert(s@.subrange(0, n as int) =~= s@);
        }
        &s[0..n]
    }
}

/// Finds the first byte at or after `i` that differs from `d`.
pub fn find_skip_delims(s: &[u8], i: usize, d: u8) -> (r: usize)
    requires
        i <= s@.len(),
    ensures
        r == skip_delims(s@, i as int, d),
        i <= r <= s@.len(),
    decreases s@.len() - i,
{
    if i < s.len() && s[i] == d {
        find_skip_delims(s, i + 1, d)
    } else {
        i
    }
}

/// Finds the first `d` at or after `i`.
pub fn find_token_end(s: &[u8], i: usize, d: u8) -> (r: usize)
    requires
        i <= s@.len(),
    ensures
        r == token_end(s@, i as int, d),
        i <= r <= s@.len(),
    decreases s@.len() - i,
{
    if i < s.len() && s[i] != d {
        find_token_end(s, i + 1, d)
    } else {
        i
    }
}

/// Finds the first non-blank byte at or after `i`.
pub fn find_skip_spaces(s: &[u8], i: usize) -> (r: usize)
    requires
        i <= s@.len(),
    ensures
        r == skip_spaces(s@, i as int),
        i <= r <= s@.len(),
    decreases s@.len() - i,
{
    if i < s.len() && (s[i] == 32 || s[i] == 9 || s[i] == 13) {
        find_skip_spaces(s, i + 1)
    } else {
        i
    }
}

/// Finds the first blank byte at or after `i`.
pub fn find_word_end(s: &[u8], i: usize) -> (r: usize)
    requires
        i <= s@.len(),
    ensures
        r == word_end(s@, i as int),
        i <= r <= s@.len(),
    decreases s@.len() - i,
{
    if i < s.len() && !(s[i] == 32 || s[i] == 9 || s[i] == 13) {
        find_word_end(s, i + 1)
    } else {
        i
    }
}

/// Whether `s` starts with `prefix`.
pub open spec fn starts_with_spec(s: Seq<u8>, prefix: Seq<u8>) -> bool {
    prefix.len() <= s.len() && s.subrange(0, prefix.len() as int) == prefix
}

/// Tests whether `s` starts with `prefix`.
pub fn starts_with(s: &[u8], prefix: &[u8]) -> (r: bool)
    ensures
        r == starts_with_spec(s@, prefix@),
{
    let np = prefix.len();
    if np > s.len() {
        return false;
    }
    let mut i: usize = 0;
    while i < np
        invariant
            np == prefix@.len() <= s@.len(),
            i <= np,
            forall|j: int| 0 <= j < i ==> s@[j] == prefix@[j],
        decreases np - i,
    {
        if s[i] != prefix[i] {
            return false;
        }
        i += 1;
    }
    proof {
        assert(s@.subrange(0, np as int) =~= prefix@);
    }
    true
}

} // verus!
