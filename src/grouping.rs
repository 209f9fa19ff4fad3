use vstd::prelude::*;

use crate::text::{chars_of, reversed, string_of};

verus! {

/// The minus character (U+2212), which looks slightly different from the hyphen `-`.
pub const MINUS: char = '\u{2212}';

/// A thin space (U+2009), used to separate groups of three digits, like `1 234`.
pub const THIN_SPACE: char = '\u{2009}';

/// `s` with a thin space before every group of three characters, counted from the end,
/// and never before the first character.
pub open spec fn grouped(s: Seq<char>) -> Seq<char>
    decreases s.len(),
{
    if s.len() <= 3 {
        s
    } else {
        grouped(s.subrange(0, s.len() - 3)).push(THIN_SPACE) + s.subrange(
            s.len() - 3,
            s.len() as int,
        )
    }
}

/// `s` grouped by three counting from its first character: the groups of a fractional part.
pub open spec fn grouped_from_front(s: Seq<char>) -> Seq<char> {
    grouped(s.reverse()).reverse()
}

pub(crate) fn group_chars(s: &Vec<char>) -> (r: Vec<char>)
    ensures
        r@ == grouped(s@),
{
    let n = s.len();
    let mut r: Vec<char> = Vec::new();
    if n == 0 {
        return r;
    }
    let rem: usize = n % 3;
    let first: usize = if rem == 0 { 3 } else { rem };
    let mut i: usize = 0;
    while i < first
        invariant
            n == s.len(),
            first <= n,
            first <= 3,
            i <= first,
            r@ == s@.subrange(0, i as int),
        decreases first - i,
    {
        r.push(s[i]);
        proof {
            assert(r@ =~= s@.subrange(0, i + 1));
        }
        i += 1;
    }
    while i < n
        invariant
            n == s.len(),
            1 <= first <= i <= n,
            (n - i) % 3 == 0,
            r@ == grouped(s@.subrange(0, i as int)),
        decreases n - i,
    {
        r.push(THIN_SPACE);
        r.push(s[i]);
        r.push(s[i + 1]);
        r.push(s[i + 2]);
        proof {
            let t = s@.subrange(0, i + 3);
            assert(t.subrange(0, t.len() - 3) =~= s@.subrange(0, i as int));
            assert(r@ =~= grouped(t));
        }
        i += 3;
    }
    assert(s@.subrange(0, n as int) =~= s@);
    r
}

pub(crate) fn group_chars_from_front(s: &Vec<char>) -> (r: Vec<char>)
    ensures
        r@ == grouped_from_front(s@),
{
    let rev = reversed(s);
    let g = group_chars(&rev);
    reversed(&g)
}

/// Adds a thin space every three characters, counting from the last character.
///
/// Meant for a plain run of digits: an already grouped string gets more separators,
/// so grouping twice is not the same as grouping once.
pub fn add_thousands_separators(number: &str) -> (r: String)
    ensures
        r@ == grouped(number@),
{
    let chars = chars_of(number);
    let g = group_chars(&chars);
    string_of(&g)
}

} // verus!
