use vstd::prelude::*;

verus! {

/// Relies on `str::chars` (collected into a `Vec`): the characters of the string, in order.
#[verifier::external_body]
pub(crate) fn chars_of(s: &str) -> (r: Vec<char>)
    ensures
        r@ == s@,
{
    s.chars().collect()
}

/// Relies on `String: FromIterator<&char>`: the string made of the characters, in order.
#[verifier::external_body]
pub(crate) fn string_of(chars: &Vec<char>) -> (r: String)
    ensures
        r@ == chars@,
{
    chars.iter().collect()
}

/// The characters of `s` in reverse order.
pub(crate) fn reversed(s: &Vec<char>) -> (r: Vec<char>)
    ensures
        r@ == s@.reverse(),
{
    let n = s.len();
    let mut r: Vec<char> = Vec::new();
    let mut i: usize = 0;
    while i < n
        invariant
            n == s.len(),
            i <= n,
            r.len() == i,
            forall|j: int| 0 <= j < i ==> r@[j] == s@[n - 1 - j],
        decreases n - i,
    {
        r.push(s[n - 1 - i]);
        i += 1;
    }
    assert(r@ =~= s@.reverse());
    r
}

} // verus!
