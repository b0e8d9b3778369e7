//! Item kinds as the wizard's commands name them.

use vstd::prelude::*;

verus! {

pub const POTION: i32 = 33;
pub const SCROLL: i32 = 63;
pub const FOOD: i32 = 58;
/// A ring, wand or staff: the kind asked for when any of the three will do.
pub const R_OR_S: i32 = -2;
pub const RING: i32 = 61;
pub const STICK: i32 = 47;
pub const WEAPON: i32 = 41;
pub const ARMOR: i32 = 93;

/// The name of an item kind, if it is one that has a name.
pub open spec fn item_kind_name(item_type: i32) -> Option<Seq<char>> {
    if item_type == POTION { Some("potion"@) }
    else if item_type == SCROLL { Some("scroll"@) }
    else if item_type == FOOD { Some("food"@) }
    else if item_type == R_OR_S { Some("ring, wand or staff"@) }
    else if item_type == RING { Some("ring"@) }
    else if item_type == STICK { Some("wand or staff"@) }
    else if item_type == WEAPON { Some("weapon"@) }
    else if item_type == ARMOR { Some("suit of armor"@) }
    else { None }
}

/// The name of the item kind `item_type` (its map glyph, or `R_OR_S`).
pub fn item_type_name(item_type: i32) -> (name: Option<&'static str>)
    ensures
        match name {
            Some(n) => item_kind_name(item_type) == Some(n@),
            None => item_kind_name(item_type) is None,
        },
{
    if item_type == POTION { Some("potion") }
    else if item_type == SCROLL { Some("scroll") }
    else if item_type == FOOD { Some("food") }
    else if item_type == R_OR_S { Some("ring, wand or staff") }
    else if item_type == RING { Some("ring") }
    else if item_type == STICK { Some("wand or staff") }
    else if item_type == WEAPON { Some("weapon") }
    else if item_type == ARMOR { Some("suit of armor") }
    else { None }
}

/// The flag of an item whose properties the hero knows.
pub const ISKNOW: i32 = 0o200;

/// What the game keeps about one sort of item of a kind: its true name, its
/// chance of turning up, what it is worth, the hero's guess at it, and
/// whether the hero knows it.
#[derive(Clone, Debug)]
pub struct ObjInfo {
    pub name: String,
    pub prob: i32,
    pub worth: i32,
    pub guess: Option<String>,
    pub know: bool,
}

/// `e` once known: marked known, with the guess dropped.
pub open spec fn known_info(e: ObjInfo) -> ObjInfo {
    ObjInfo { know: true, guess: None, ..e }
}

/// Make the hero know the sort `which` of an item with flags `flags`:
/// the sort's entry of `info` becomes known and loses its guess, and the
/// item's flags get `ISKNOW`, which are returned.
pub fn set_know(flags: i32, which: usize, info: &mut Vec<ObjInfo>) -> (f: i32)
    requires
        which < old(info)@.len(),
    ensures
        f == flags | ISKNOW,
        final(info)@ == old(info)@.update(which as int, known_info(old(info)@[which as int])),
{
    let mut e = info.remove(which);
    e.know = true;
    e.guess = None;
    info.insert(which, e);
    proof {
        assert(info@ =~= old(info)@.update(which as int, known_info(old(info)@[which as int])));
    }
    flags | ISKNOW
}

} // verus!
