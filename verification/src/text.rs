//! Small string-building helpers shared by the message and death-screen code.

use vstd::prelude::*;

verus! {

/// `String::push`: appends one character.
#[verifier::external_body]
pub(crate) fn string_push(s: &mut String, c: char)
    ensures
        final(s)@ == old(s)@.push(c),
{
    s.push(c);
}

/// Append every character of `t` to `s`.
pub(crate) fn push_text(s: &mut String, t: &str)
    ensures
        final(s)@ == old(s)@ + t@,
{
    let ghost start = s@;
    for c in iter: t.chars()
        invariant
            iter.seq() == t@,
            s@ == start + t@.subrange(0, iter.index() as int),
    {
        let ghost i = iter.index();
        string_push(s, c);
        proof {
            assert(t@.subrange(0, i + 1) =~= t@.subrange(0, i as int).push(c));
        }
    }
    proof {
        assert(t@.subrange(0, t@.len() as int) =~= t@);
    }
}

/// The first character of `t`, if it has one.
pub(crate) fn first_char(t: &str) -> (r: Option<char>)
    ensures
        r == (if t@.len() > 0 { Some(t@[0]) } else { None::<char> }),
{
    let mut first: Option<char> = None;
    for c in iter: t.chars()
        invariant
            iter.seq() == t@,
            first == (if iter.index() > 0 { Some(t@[0]) } else { None::<char> }),
    {
        if first.is_none() {
            first = Some(c);
        }
    }
    first
}

} // verus!
