//! Texts as sequences of characters.

use vstd::prelude::*;

verus! {

/// `String::push` of std appends one character and changes nothing else.
pub assume_specification[ String::push ](s: &mut String, ch: char)
    ensures
        final(s)@ == old(s)@.push(ch),
;

/// The characters of `s`, in order.
pub fn chars_of(s: &str) -> (r: Vec<char>)
    ensures
        r@ == s@,
{
    let mut out: Vec<char> = Vec::new();
    for c in it: s.chars()
        invariant
            it.seq() == s@,
            out@ == it.seq().take(it.index()),
    {
        out.push(c);
    }
    assert(out@ =~= s@);
    out
}

/// Writes the characters `v` behind `out`, in order.
pub fn push_chars(out: &mut String, v: &Vec<char>)
    ensures
        final(out)@ == old(out)@ + v@,
{
    let mut i: usize = 0;
    while i < v.len()
        invariant
            i <= v.len(),
            out@ == old(out)@ + v@.take(i as int),
        decreases v.len() - i,
    {
        out.push(v[i]);
        i = i + 1;
        assert(old(out)@ + v@.take(i as int) =~= (old(out)@ + v@.take(i - 1)).push(v@[i - 1]));
    }
    assert(v@.take(v.len() as int) =~= v@);
}

/// The text made of the characters `v`, in order.
pub fn string_of(v: &Vec<char>) -> (r: String)
    ensures
        r@ == v@,
{
    let mut out = String::new();
    push_chars(&mut out, v);
    assert(out@ =~= v@);
    out
}

/// Tells whether the characters `text` spell `word`.
pub fn spells(text: &Vec<char>, word: &str) -> (r: bool)
    ensures
        r == (text@ == word@),
{
    let mut same = true;
    let mut i: usize = 0;
    for c in it: word.chars()
        invariant
            it.seq() == word@,
            i <= text.len(),
            same ==> i == it.index(),
            same == (it.index() <= text.len() && text@.take(it.index()) =~= word@.take(
                it.index(),
            )),
    {
        proof {
            let n = it.index();
            if n < text.len() {
                assert(text@.take(n + 1).drop_last() =~= text@.take(n));
                assert(word@.take(n + 1).drop_last() =~= word@.take(n));
                assert(text@.take(n + 1).last() == text@[n]);
                assert(word@.take(n + 1).last() == word@[n]);
            }
        }
        if same && i < text.len() && text[i] == c {
            proof {
                let n = it.index();
                assert(text@.take(n + 1) =~= text@.take(n).push(text@[n]));
                assert(word@.take(n + 1) =~= word@.take(n).push(word@[n]));
            }
            i = i + 1;
        } else {
            same = false;
        }
    }
    proof {
        assert(word@.take(word@.len() as int) =~= word@);
        if same && i == text.len() {
            assert(text@.take(text@.len() as int) =~= text@);
        }
        if text@ == word@ {
            assert(text@.take(text@.len() as int) =~= text@);
        }
    }
    same && i == text.len()
}

} // verus!
