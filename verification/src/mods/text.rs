//! Text as a sequence of characters.

use vstd::prelude::*;

verus! {

/// The characters of `s`, in order.
pub fn chars_of(s: &str) -> (r: Vec<char>)
    ensures
        r@ == s@,
{
    let mut out: Vec<char> = Vec::new();
    for c in it: s.chars()
        invariant
            out@ == it.seq().take(it.index() as int),
            it.seq() == s@,
    {
        out.push(c);
    }
    out
}

/// Whether `a` and `b` hold the same characters.
pub fn same_text(a: &Vec<char>, b: &Vec<char>) -> (r: bool)
    ensures
        r == (a@ == b@),
{
    if a.len() != b.len() {
        return false;
    }
    let n = a.len();
    let mut i: usize = 0;
    while i < n
        invariant
            i <= n,
            n == a@.len(),
            n == b@.len(),
            forall|j: int| 0 <= j < i ==> a@[j] == b@[j],
        decreases n - i,
    {
        if a[i] != b[i] {
            return false;
        }
        i = i + 1;
    }
    assert(a@ =~= b@);
    true
}

/// Whether `text` is the word `word`.
pub fn text_is(text: &Vec<char>, word: &str) -> (r: bool)
    ensures
        r == (text@ == word@),
{
    let letters = chars_of(word);
    same_text(text, &letters)
}

/// A copy of `text`.
pub fn copy_text(text: &Vec<char>) -> (r: Vec<char>)
    ensures
        r@ == text@,
{
    let mut out: Vec<char> = Vec::new();
    let n = text.len();
    let mut i: usize = 0;
    while i < n
        invariant
            i <= n,
            n == text@.len(),
            out@ == text@.take(i as int),
        decreases n - i,
    {
        out.push(text[i]);
        assert(out@ =~= text@.take(i + 1));
        i = i + 1;
    }
    assert(text@.take(n as int) =~= text@);
    out
}

} // verus!
