//! Putting armor on and taking it off: whether it can be done, and what the
//! hero is told.

use vstd::prelude::*;

use crate::text::{push_text, string_push};
use crate::wizard::ARMOR;

verus! {

/// Whether putting on an item goes ahead.
#[derive(Clone, Copy, Debug, PartialEq, Eq, Structural)]
pub enum WearCheck {
    /// The hero already wears armor.
    AlreadyWearing,
    /// The item is not armor.
    NotArmor,
    /// He puts it on, which takes time.
    Wear,
}

/// Whether the hero, wearing armor or not, can put on an item of kind
/// `kind`.
pub open spec fn wear_check_of(wearing: bool, kind: i32) -> WearCheck {
    if wearing {
        WearCheck::AlreadyWearing
    } else if kind != ARMOR {
        WearCheck::NotArmor
    } else {
        WearCheck::Wear
    }
}

/// See `wear_check_of`.
pub fn wear_check(wearing: bool, kind: i32) -> (c: WearCheck)
    ensures
        c == wear_check_of(wearing, kind),
{
    if wearing {
        WearCheck::AlreadyWearing
    } else if kind != ARMOR {
        WearCheck::NotArmor
    } else {
        WearCheck::Wear
    }
}

/// What the hero is told when he cannot put an item on.
pub open spec fn refusal_text(c: WearCheck, terse: bool) -> Seq<char> {
    match c {
        WearCheck::AlreadyWearing => "you are already wearing some"@ + (if terse {
            Seq::empty()
        } else {
            ".  You'll have to take it off first"@
        }),
        WearCheck::NotArmor => "you can't wear that"@,
        WearCheck::Wear => Seq::empty(),
    }
}

/// See `refusal_text`.
pub fn refusal_message(c: WearCheck, terse: bool) -> (m: String)
    ensures
        m@ == refusal_text(c, terse),
{
    let mut m = String::new();
    match c {
        WearCheck::AlreadyWearing => {
            push_text(&mut m, "you are already wearing some");
            if !terse {
                push_text(&mut m, ".  You'll have to take it off first");
            }
        },
        WearCheck::NotArmor => push_text(&mut m, "you can't wear that"),
        WearCheck::Wear => {},
    }
    m
}

/// What the hero is told on putting on armor called `name`.
pub open spec fn wearing_text(name: Seq<char>, terse: bool) -> Seq<char> {
    (if terse { Seq::empty() } else { "you are now "@ }) + "wearing "@ + name
}

/// See `wearing_text`.
pub fn wearing_message(name: &str, terse: bool) -> (m: String)
    ensures
        m@ == wearing_text(name@, terse),
{
    let mut m = String::new();
    if !terse {
        push_text(&mut m, "you are now ");
    }
    push_text(&mut m, "wearing ");
    push_text(&mut m, name);
    m
}

/// What the hero is told on taking off armor with letter `letter` called
/// `name`, or when he wears none.
pub open spec fn taken_off_text(item: Option<(u8, Seq<char>)>, terse: bool) -> Seq<char> {
    match item {
        None => if terse { "not wearing armor"@ } else { "you aren't wearing any armor"@ },
        Some((letter, name)) => (if terse { "was"@ } else { "you used to be"@ }) + " wearing "@ + seq![
            letter as char,
            ')',
            ' ',
        ] + name,
    }
}

/// See `taken_off_text`.
pub fn taken_off_message(item: Option<(u8, &str)>, terse: bool) -> (m: String)
    ensures
        m@ == taken_off_text(match item { Some((l, n)) => Some((l, n@)), None => None }, terse),
{
    let mut m = String::new();
    match item {
        None => {
            if terse {
                push_text(&mut m, "not wearing armor");
            } else {
                push_text(&mut m, "you aren't wearing any armor");
            }
        },
        Some((letter, name)) => {
            if terse {
                push_text(&mut m, "was");
            } else {
                push_text(&mut m, "you used to be");
            }
            push_text(&mut m, " wearing ");
            string_push(&mut m, letter as char);
            string_push(&mut m, ')');
            string_push(&mut m, ' ');
            push_text(&mut m, name);
            proof {
                let ghost t = taken_off_text(Some((letter, name@)), terse);
                assert(m@ =~= t);
            }
        },
    }
    m
}

/// Only armor is worn, and only by a hero who wears none: the hero puts an
/// item on exactly when he wears no armor and the item is armor.
pub proof fn law_wear(wearing: bool, kind: i32)
    ensures
        wear_check_of(wearing, kind) is Wear <==> !wearing && kind == ARMOR,
        wearing ==> wear_check_of(wearing, kind) is AlreadyWearing,
{
}

} // verus!
