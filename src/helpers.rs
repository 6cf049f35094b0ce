//! Normalization of identities: the only key space of the caches.
use vstd::prelude::*;
use crate::text::{chars_of, string_of};

verus! {

/// `c` is an ASCII letter or digit.
pub open spec fn is_alnum(c: char) -> bool {
    ('0' <= c && c <= '9') || ('a' <= c && c <= 'z') || ('A' <= c && c <= 'Z')
}

/// ASCII lower case of one character; other characters are kept.
pub open spec fn ascii_lower(c: char) -> char {
    if 'A' <= c && c <= 'Z' {
        ((c as u32) + 32) as char
    } else {
        c
    }
}

/// The normalized form of an identity: its ASCII letters and digits, in
/// order, with letters in lower case.
pub open spec fn normalize(s: Seq<char>) -> Seq<char>
    decreases s.len(),
{
    if s.len() == 0 {
        Seq::empty()
    } else {
        let prev = normalize(s.drop_last());
        if is_alnum(s.last()) {
            prev.push(ascii_lower(s.last()))
        } else {
            prev
        }
    }
}

fn lower_char(c: char) -> (r: char)
    ensures
        r == ascii_lower(c),
{
    if 'A' <= c && c <= 'Z' {
        ((c as u8) + 32) as char
    } else {
        c
    }
}

/// Removes every character outside `[0-9a-zA-Z]` and puts the rest in lower
/// case, so that two spellings of one identity compare equal.
pub fn sanitize(s: &str) -> (r: String)
    ensures
        r@ == normalize(s@),
{
    let cs = chars_of(s);
    let mut out: Vec<char> = Vec::new();
    let mut i: usize = 0;
    while i < cs.len()
        invariant
            i <= cs.len(),
            cs@ == s@,
            out@ == normalize(cs@.take(i as int)),
        decreases cs.len() - i,
    {
        let c = cs[i];
        assert(cs@.take(i + 1).drop_last() == cs@.take(i as int));
        if ('0' <= c && c <= '9') || ('a' <= c && c <= 'z') || ('A' <= c && c <= 'Z') {
            out.push(lower_char(c));
        }
        i = i + 1;
    }
    assert(cs@.take(cs.len() as int) == cs@);
    string_of(out.as_slice())
}

} // verus!
