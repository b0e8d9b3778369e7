//! Calling an item by a name of the hero's choosing: which items may be
//! named, what name they go by now, and what the hero is asked and told.

use vstd::prelude::*;

use crate::text::push_text;
use crate::wizard::{FOOD, POTION, RING, SCROLL, STICK};

verus! {

/// What calling an item comes to.
#[derive(Clone, Debug)]
pub enum CallPlan {
    /// Food cannot be named.
    CannotCall,
    /// The kind is already known by its true name.
    AlreadyKnown,
    /// Ask for a name, offering `current`; `was` is the name the hero gave
    /// before, if any, to remind him of.
    Ask { was: Option<String>, current: String },
}

/// The kinds named as a whole (every ring of a sort shares its name), as
/// opposed to single items that carry their own label.
pub open spec fn named_by_sort(kind: i32) -> bool {
    kind == RING || kind == POTION || kind == SCROLL || kind == STICK
}

/// The name the hero gave an item of kind `kind` before, if any, and the
/// name it goes by now: a ring, potion, scroll or stick goes by the hero's
/// `guess` for its sort, or else by its `appearance` (stone, colour, title
/// or wood); any other item by its own `label`, or by nothing.
pub open spec fn call_names(
    kind: i32,
    guess: Option<Seq<char>>,
    appearance: Seq<char>,
    label: Option<Seq<char>>,
) -> (Option<Seq<char>>, Seq<char>) {
    if named_by_sort(kind) {
        (guess, match guess { Some(g) => g, None => appearance })
    } else {
        (label, match label { Some(l) => l, None => Seq::empty() })
    }
}

/// Whether the plan is `Ask` with these texts.
pub open spec fn asks(p: CallPlan, was: Option<Seq<char>>, current: Seq<char>) -> bool {
    match p {
        CallPlan::Ask { was: w, current: c } => c@ == current && match w {
            Some(s) => was == Some(s@),
            None => was is None,
        },
        _ => false,
    }
}

fn owned(t: &str) -> (s: String)
    ensures
        s@ == t@,
{
    let mut s = String::new();
    push_text(&mut s, t);
    s
}

/// The plan for calling an item of kind `kind`: food cannot be named; a
/// ring, potion, scroll or stick whose sort is `known` needs no name;
/// otherwise the hero is asked, reminded of the name he gave before and
/// offered the current one (see `call_names`).
pub fn call_plan(kind: i32, known: bool, guess: Option<&str>, appearance: &str, label: Option<&str>) -> (p: CallPlan)
    ensures
        kind == FOOD ==> p is CannotCall,
        kind != FOOD && named_by_sort(kind) && known ==> p is AlreadyKnown,
        kind != FOOD && !(named_by_sort(kind) && known) ==> ({
            let (was, current) = call_names(
                kind,
                match guess { Some(g) => Some(g@), None => None },
                appearance@,
                match label { Some(l) => Some(l@), None => None },
            );
            asks(p, was, current)
        }),
{
    if kind == FOOD {
        return CallPlan::CannotCall;
    }
    if kind == RING || kind == POTION || kind == SCROLL || kind == STICK {
        if known {
            return CallPlan::AlreadyKnown;
        }
        match guess {
            Some(g) => CallPlan::Ask { was: Some(owned(g)), current: owned(g) },
            None => CallPlan::Ask { was: None, current: owned(appearance) },
        }
    } else {
        match label {
            Some(l) => CallPlan::Ask { was: Some(owned(l)), current: owned(l) },
            None => CallPlan::Ask { was: None, current: String::new() },
        }
    }
}

/// The reminder of the name the hero gave: `called "name"`, after `Was `
/// unless terse.
pub open spec fn was_called_text(name: Seq<char>, terse: bool) -> Seq<char> {
    (if terse { Seq::empty() } else { "Was "@ }) + "called \""@ + name + "\""@
}

/// See `was_called_text`.
pub fn was_called(name: &str, terse: bool) -> (m: String)
    ensures
        m@ == was_called_text(name@, terse),
{
    let mut m = String::new();
    if !terse {
        push_text(&mut m, "Was ");
    }
    push_text(&mut m, "called \"");
    push_text(&mut m, name);
    push_text(&mut m, "\"");
    m
}

/// The question asked for the new name.
pub open spec fn call_prompt_text(terse: bool) -> Seq<char> {
    if terse { "call it: "@ } else { "what do you want to call it? "@ }
}

/// See `call_prompt_text`.
pub fn call_prompt(terse: bool) -> (q: &'static str)
    ensures
        q@ == call_prompt_text(terse),
{
    if terse { "call it: " } else { "what do you want to call it? " }
}

} // verus!
