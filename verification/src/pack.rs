//! The hero's pack: what each item is called, and where a picked-up item
//! goes.

use vstd::prelude::*;
use vstd::set_lib::{lemma_int_range, lemma_len_subset, set_int_range};

use crate::format::{decimal, decimal_chars};
use crate::rip::is_vowel;
use crate::text::first_char;
use crate::ui::output::{format_key, key_name};
use crate::ui::terminal::{char_from_ascii, lower_ascii, to_lower_ascii};
use crate::wizard::{ARMOR, FOOD, POTION, RING, R_OR_S, SCROLL, STICK, WEAPON};

verus! {

/// Gold, by its map glyph `*`.
pub const GOLD: i32 = 42;
/// The Amulet of Yendor, by its map glyph `,`.
pub const AMULET: i32 = 44;
/// The longest name the game prints: one less than its buffer of 1024.
pub const MAX_NAME_LEN: usize = 1023;

/// Which of the hero's equipment slots hold an item.
#[derive(Clone, Copy, Debug, PartialEq, Eq, Structural)]
pub struct Wearing {
    pub armor: bool,
    pub weapon: bool,
    pub left_hand: bool,
    pub right_hand: bool,
}

/// ASCII upper-casing: `a`-`z` become `A`-`Z`, everything else is kept.
pub open spec fn upper_ascii(c: char) -> char {
    if 'a' <= c <= 'z' { ((c as u32) - 32) as char } else { c }
}

/// `n` in decimal, a space, then `rest`.
pub open spec fn counted(n: int, rest: Seq<char>) -> Seq<char> {
    decimal(n) + seq![' '] + rest
}

/// `a ` before `name`, or `an ` when it starts with a vowel.
pub open spec fn article(name: Seq<char>) -> Seq<char> {
    if name.len() > 0 && is_vowel(name[0]) { seq!['a', 'n', ' '] } else { seq!['a', ' '] }
}

/// ` called ` and the name the hero gave the item, if any.
pub open spec fn called(label: Option<Seq<char>>) -> Seq<char> {
    match label {
        Some(l) => " called "@ + l,
        None => Seq::empty(),
    }
}

/// The description of `count` items of kind `kind` whose table name is
/// `name` (gold tells its amount by `group`), before any note on where it is
/// worn.
pub open spec fn item_text(kind: i32, count: int, group: int, name: Seq<char>, label: Option<Seq<char>>) -> Seq<char> {
    if kind == POTION || kind == STICK {
        if count == 1 { "A "@ + name } else { counted(count, name.push('s')) }
    } else if kind == RING {
        if count == 1 { "A "@ + name + " ring"@ } else { counted(count, name + " rings"@) }
    } else if kind == SCROLL {
        if count == 1 { "A scroll of "@ + name } else { counted(count, "scrolls of "@ + name) }
    } else if kind == FOOD {
        if count == 1 { "Some food"@ } else { counted(count, "rations of food"@) }
    } else if kind == WEAPON {
        (if count > 1 { counted(count, name.push('s')) } else { article(name) + name }) + called(label)
    } else if kind == ARMOR {
        name + called(label)
    } else if kind == AMULET {
        "The Amulet of Yendor"@
    } else if kind == GOLD {
        counted(group, "Gold pieces"@)
    } else {
        "something"@
    }
}

/// The notes on the slots that hold the item.
pub open spec fn worn_text(w: Wearing) -> Seq<char> {
    (if w.armor { " (being worn)"@ } else { Seq::empty() })
        + (if w.weapon { " (weapon in hand)"@ } else { Seq::empty() })
        + (if w.left_hand {
            " (on left hand)"@
        } else if w.right_hand {
            " (on right hand)"@
        } else {
            Seq::empty()
        })
}

/// `t` with its first character lower-cased (for `drop`) or upper-cased.
pub open spec fn recased(t: Seq<char>, drop: bool) -> Seq<char> {
    if t.len() == 0 {
        t
    } else {
        t.update(0, if drop { lower_ascii(t[0]) } else { upper_ascii(t[0]) })
    }
}

/// The full name of an item: its description, the slot notes when
/// `describe` is set, the first letter's case fixed, at most
/// `MAX_NAME_LEN` characters.
pub open spec fn inv_name_text(
    kind: i32,
    count: int,
    group: int,
    name: Seq<char>,
    label: Option<Seq<char>>,
    worn: Wearing,
    describe: bool,
    drop: bool,
) -> Seq<char> {
    let t = recased(
        item_text(kind, count, group, name, label) + (if describe { worn_text(worn) } else { Seq::empty() }),
        drop,
    );
    if t.len() > MAX_NAME_LEN { t.subrange(0, MAX_NAME_LEN as int) } else { t }
}

/// Append the characters of `t` to `v`.
fn extend_text(v: &mut Vec<char>, t: &str)
    ensures
        final(v)@ == old(v)@ + t@,
{
    let ghost start = v@;
    for c in iter: t.chars()
        invariant
            iter.seq() == t@,
            v@ == start + t@.subrange(0, iter.index() as int),
    {
        let ghost i = iter.index();
        v.push(c);
        proof {
            assert(t@.subrange(0, i + 1) =~= t@.subrange(0, i as int).push(c));
        }
    }
    proof {
        assert(t@.subrange(0, t@.len() as int) =~= t@);
    }
}

/// Append `n` in decimal and a space to `v`.
fn extend_count(v: &mut Vec<char>, n: i32)
    ensures
        final(v)@ == old(v)@ + decimal(n as int) + seq![' '],
{
    let mut d = decimal_chars(n as i64);
    v.append(&mut d);
    v.push(' ');
}

fn to_upper_ascii(c: char) -> (u: char)
    ensures
        u == upper_ascii(c),
{
    if 'a' <= c && c <= 'z' {
        let v: u32 = (c as u32) - 32;
        char_from_ascii(v)
    } else {
        c
    }
}

/// The starting description of an item (see `item_text`).
fn item_description(kind: i32, count: i32, group: i32, name: &str, label: Option<&str>) -> (v: Vec<char>)
    ensures
        v@ == item_text(kind, count as int, group as int, name@, match label { Some(l) => Some(l@), None => None }),
{
    let ghost lab = match label { Some(l) => Some(l@), None => None::<Seq<char>> };
    let ghost expected = item_text(kind, count as int, group as int, name@, lab);
    let mut v: Vec<char> = Vec::new();
    if kind == POTION || kind == STICK {
        if count == 1 {
            extend_text(&mut v, "A ");
            extend_text(&mut v, name);
        } else {
            extend_count(&mut v, count);
            extend_text(&mut v, name);
            v.push('s');
        }
        assert(v@ =~= expected);
    } else if kind == RING {
        if count == 1 {
            extend_text(&mut v, "A ");
            extend_text(&mut v, name);
            extend_text(&mut v, " ring");
        } else {
            extend_count(&mut v, count);
            extend_text(&mut v, name);
            extend_text(&mut v, " rings");
        }
        assert(v@ =~= expected);
    } else if kind == SCROLL {
        if count == 1 {
            extend_text(&mut v, "A scroll of ");
            extend_text(&mut v, name);
        } else {
            extend_count(&mut v, count);
            extend_text(&mut v, "scrolls of ");
            extend_text(&mut v, name);
        }
        assert(v@ =~= expected);
    } else if kind == FOOD {
        if count == 1 {
            extend_text(&mut v, "Some food");
        } else {
            extend_count(&mut v, count);
            extend_text(&mut v, "rations of food");
        }
        assert(v@ =~= expected);
    } else if kind == WEAPON || kind == ARMOR {
        if kind == WEAPON {
            if count > 1 {
                extend_count(&mut v, count);
                extend_text(&mut v, name);
                v.push('s');
                assert(v@ =~= counted(count as int, name@.push('s')));
            } else {
                let vowel = match first_char(name) {
                    Some(c) => c == 'a' || c == 'A' || c == 'e' || c == 'E' || c == 'i' || c == 'I'
                        || c == 'o' || c == 'O' || c == 'u' || c == 'U',
                    None => false,
                };
                if vowel {
                    v.push('a');
                    v.push('n');
                    v.push(' ');
                } else {
                    v.push('a');
                    v.push(' ');
                }
                assert(v@ =~= article(name@));
                extend_text(&mut v, name);
            }
        } else {
            extend_text(&mut v, name);
        }
        let ghost head = v@;
        match label {
            Some(l) => {
                extend_text(&mut v, " called ");
                extend_text(&mut v, l);
            },
            None => {},
        }
        assert(v@ =~= head + called(lab));
        assert(v@ =~= expected);
    } else if kind == AMULET {
        extend_text(&mut v, "The Amulet of Yendor");
        assert(v@ =~= expected);
    } else if kind == GOLD {
        extend_count(&mut v, group);
        extend_text(&mut v, "Gold pieces");
        assert(v@ =~= expected);
    } else {
        extend_text(&mut v, "something");
        assert(v@ =~= expected);
    }
    v
}

/// Append the slot notes of `worn` to `v`.
fn extend_worn(v: &mut Vec<char>, worn: Wearing)
    ensures
        final(v)@ == old(v)@ + worn_text(worn),
{
    let ghost start = v@;
    if worn.armor {
        extend_text(v, " (being worn)");
    }
    let ghost a = v@;
    if worn.weapon {
        extend_text(v, " (weapon in hand)");
    }
    let ghost b = v@;
    if worn.left_hand {
        extend_text(v, " (on left hand)");
    } else if worn.right_hand {
        extend_text(v, " (on right hand)");
    }
    assert(v@ =~= start + worn_text(worn));
}

/// Fix the case of the first character of `v` (see `recased`).
fn recase(v: &mut Vec<char>, drop: bool)
    ensures
        final(v)@ == recased(old(v)@, drop),
{
    if v.len() > 0 {
        let c = v[0];
        let fixed = if drop { to_lower_ascii(c) } else { to_upper_ascii(c) };
        v.set(0, fixed);
    }
}

/// The name of an item as the inventory and messages show it: `kind` is
/// the item's map glyph, `name` its entry in the kind's name table, `label`
/// what the hero called it, `worn` the slots holding it (noted only with
/// `describe`); with `drop` the name starts in lower case, otherwise in
/// upper case.
pub fn inv_name(
    kind: i32,
    count: i32,
    group: i32,
    name: &str,
    label: Option<&str>,
    worn: Wearing,
    describe: bool,
    drop: bool,
) -> (s: String)
    ensures
        s@ == inv_name_text(
            kind,
            count as int,
            group as int,
            name@,
            match label { Some(l) => Some(l@), None => None },
            worn,
            describe,
            drop,
        ),
{
    let mut v = item_description(kind, count, group, name, label);
    let ghost base = v@;
    if describe {
        extend_worn(&mut v, worn);
    }
    assert(v@ =~= base + (if describe { worn_text(worn) } else { Seq::empty() }));
    recase(&mut v, drop);
    if v.len() > MAX_NAME_LEN {
        v.truncate(MAX_NAME_LEN);
    }
    let mut s = String::new();
    crate::format::push_chars(&mut s, &v);
    assert(s@ =~= v@);
    s
}

/// The most items the pack holds.
pub const MAXPACK: i32 = 23;
/// How many letters name the entries of the pack: `a` to `z`.
pub const PACK_LETTERS: usize = 26;
/// The scroll of scare monster, which crumbles when picked up a second time.
pub const S_SCARE: i32 = 10;
/// The flag of an item that has been picked up before.
pub const ISFOUND: i32 = 16;

/// An entry of the pack, or an item about to go in: its kind (map glyph),
/// which one of the kind it is, how many, the group that keeps missiles of
/// one throw together, its flags and its pack letter.
#[derive(Clone, Copy, Debug, PartialEq, Eq, Structural)]
pub struct PackItem {
    pub kind: i32,
    pub which: i32,
    pub count: i32,
    pub group: i32,
    pub flags: i32,
    pub letter: u8,
}

/// The hero's pack: its entries in order, which of the letters `a` to `z`
/// are taken, and how many items the pack counts as carried.
pub struct Pack {
    items: Vec<PackItem>,
    used: Vec<bool>,
    carried: i32,
}

/// What a pack holds, as plain values.
pub struct PackView {
    pub items: Seq<PackItem>,
    pub used: Seq<bool>,
    pub carried: int,
}

impl View for Pack {
    type V = PackView;

    closed spec fn view(&self) -> PackView {
        PackView { items: self.items@, used: self.used@, carried: self.carried as int }
    }
}

/// The index of the first letter at or after `j` that is not taken, or the
/// number of letters when all are taken.
pub open spec fn first_free(used: Seq<bool>, j: int) -> int
    decreases used.len() - j,
{
    if j < 0 || j >= used.len() {
        used.len() as int
    } else if !used[j] {
        j
    } else {
        first_free(used, j + 1)
    }
}

/// The letter a new entry gets: the first free one, or `a` when none is.
pub open spec fn next_letter(used: Seq<bool>) -> u8 {
    let f = first_free(used, 0);
    if f < used.len() { (97 + f) as u8 } else { 97u8 }
}

/// The letters taken once a new entry got its letter.
pub open spec fn mark_letter(used: Seq<bool>) -> Seq<bool> {
    let f = first_free(used, 0);
    if f < used.len() { used.update(f, true) } else { used }
}

/// Whether two items are the same kind of thing: equal kind and `which`.
pub open spec fn same_sort(a: PackItem, b: PackItem) -> bool {
    a.kind == b.kind && a.which == b.which
}

/// Food, potions and scrolls pile up: one more of them only counts up.
pub open spec fn stackable(kind: i32) -> bool {
    kind == FOOD || kind == POTION || kind == SCROLL
}

/// A scroll of scare monster picked up before crumbles when picked up again.
pub open spec fn turns_to_dust(item: PackItem) -> bool {
    item.kind == SCROLL && item.which == S_SCARE && (item.flags & ISFOUND) != 0
}

/// The first index at or after `j` of an entry of kind `kind`, or the
/// length of `s`.
pub open spec fn first_of_kind(s: Seq<PackItem>, j: int, kind: i32) -> int
    decreases s.len() - j,
{
    if j < 0 || j >= s.len() {
        s.len() as int
    } else if s[j].kind == kind {
        j
    } else {
        first_of_kind(s, j + 1, kind)
    }
}

/// From `j` on, the first index whose entry is not of `item`'s kind with
/// another `which`, or the length of `s`.
pub open spec fn past_other_sorts(s: Seq<PackItem>, j: int, item: PackItem) -> int
    decreases s.len() - j,
{
    if j < 0 || j >= s.len() {
        s.len() as int
    } else if s[j].kind == item.kind && s[j].which != item.which {
        past_other_sorts(s, j + 1, item)
    } else {
        j
    }
}

/// From `j` on, the first index whose entry is not of `item`'s sort with
/// another group, or the length of `s`.
pub open spec fn past_other_groups(s: Seq<PackItem>, j: int, item: PackItem) -> int
    decreases s.len() - j,
{
    if j < 0 || j >= s.len() {
        s.len() as int
    } else if same_sort(s[j], item) && s[j].group != item.group {
        past_other_groups(s, j + 1, item)
    } else {
        j
    }
}

/// Where a picked-up item goes in a pack holding `s`.
pub enum Spot {
    /// It crumbles to dust.
    Dust,
    /// The pack is empty: it becomes the first entry.
    Start,
    /// It piles onto the entry at this index.
    Stack(usize),
    /// It joins the entry at this index, of the same throw.
    Group(usize),
    /// It becomes a new entry after the one at this index.
    After(usize),
}

/// Where `item` goes in a pack holding `s`: after the last entry when no
/// entry has its kind; otherwise among the entries of its kind, onto or
/// after the first of its sort, and for missiles onto the first entry of its
/// throw or after the last of its sort.
pub open spec fn spot(s: Seq<PackItem>, item: PackItem) -> Spot {
    let n = s.len() as int;
    if turns_to_dust(item) {
        Spot::Dust
    } else if n == 0 {
        Spot::Start
    } else {
        let f = first_of_kind(s, 0, item.kind);
        if f == n {
            Spot::After((n - 1) as usize)
        } else {
            let i = past_other_sorts(s, f, item);
            if i < n && same_sort(s[i], item) {
                if stackable(item.kind) {
                    Spot::Stack(i as usize)
                } else if item.group != 0 {
                    let m = past_other_groups(s, i, item);
                    if m < n && same_sort(s[m], item) && s[m].group == item.group {
                        Spot::Group(m as usize)
                    } else {
                        Spot::After((m - 1) as usize)
                    }
                } else {
                    Spot::After(i as usize)
                }
            } else {
                Spot::After((i - 1) as usize)
            }
        }
    }
}

/// What happened to an item offered to the pack.
#[derive(Clone, Copy, Debug, PartialEq, Eq, Structural)]
pub enum AddOutcome {
    /// It crumbled to dust; the pack is unchanged.
    Dust,
    /// The pack was full.
    NoRoom,
    /// It became the only entry of an empty pack.
    Started,
    /// It piled onto the entry at this index.
    Stacked(usize),
    /// It joined the entry at this index.
    Grouped(usize),
    /// It is the new entry at this index.
    Inserted(usize),
}

/// Whether one more item fits when the pack counts `carried` items.
pub open spec fn has_room(carried: int) -> bool {
    carried + 1 <= MAXPACK
}

/// What offering `item` to the pack `p` does (see `spot`): a pile or a new
/// entry needs room for one more item; a missile joining its throw needs it
/// once the pack counts one item fewer.
pub open spec fn add_outcome(p: PackView, item: PackItem) -> AddOutcome {
    match spot(p.items, item) {
        Spot::Dust => AddOutcome::Dust,
        Spot::Start => AddOutcome::Started,
        Spot::Stack(i) => if has_room(p.carried) { AddOutcome::Stacked(i) } else { AddOutcome::NoRoom },
        Spot::Group(m) => if has_room(p.carried - 1) { AddOutcome::Grouped(m) } else { AddOutcome::NoRoom },
        Spot::After(q) => if has_room(p.carried) { AddOutcome::Inserted((q + 1) as usize) } else { AddOutcome::NoRoom },
    }
}

/// `e` with `k` more items and marked as found.
pub open spec fn bumped(e: PackItem, k: int) -> PackItem {
    PackItem {
        kind: e.kind,
        which: e.which,
        count: (e.count + k) as i32,
        group: e.group,
        flags: e.flags | ISFOUND,
        letter: e.letter,
    }
}

/// `e` with `k` more items.
pub open spec fn recounted(e: PackItem, k: int) -> PackItem {
    PackItem { count: (e.count + k) as i32, ..e }
}

/// `item` as a new entry: marked as found, with the letter `used` gives it.
pub open spec fn lettered(item: PackItem, used: Seq<bool>) -> PackItem {
    PackItem { flags: item.flags | ISFOUND, letter: next_letter(used), ..item }
}

/// The pack after offering it `item`. A missile that joins its throw adds
/// exactly its own count to the entry, nothing more; one that finds no room
/// to join has still added its count to the entry, and a refused item
/// leaves the pack counting exactly its limit.
pub open spec fn after_add(p: PackView, item: PackItem) -> PackView {
    let s = p.items;
    match spot(s, item) {
        Spot::Dust => p,
        Spot::Start => PackView {
            items: seq![lettered(item, p.used)],
            used: mark_letter(p.used),
            carried: p.carried + 1,
        },
        Spot::Stack(i) => if has_room(p.carried) {
            PackView { items: s.update(i as int, bumped(s[i as int], 1)), used: p.used, carried: p.carried + 1 }
        } else {
            PackView { items: s, used: p.used, carried: MAXPACK as int }
        },
        Spot::Group(m) => if has_room(p.carried - 1) {
            PackView { items: s.update(m as int, bumped(s[m as int], item.count as int)), used: p.used, carried: p.carried }
        } else {
            PackView { items: s.update(m as int, recounted(s[m as int], item.count as int)), used: p.used, carried: MAXPACK as int }
        },
        Spot::After(q) => if has_room(p.carried) {
            PackView {
                items: s.insert(q + 1, lettered(item, p.used)),
                used: mark_letter(p.used),
                carried: p.carried + 1,
            }
        } else {
            PackView { items: s, used: p.used, carried: MAXPACK as int }
        },
    }
}

/// The counts that offering `item` may add up fit in an `i32`.
pub open spec fn counts_fit(s: Seq<PackItem>, item: PackItem) -> bool {
    forall|i: int|
        0 <= i < s.len() && same_sort(#[trigger] s[i], item) ==> i32::MIN < s[i].count + item.count < i32::MAX
            && s[i].count < i32::MAX
}

proof fn lemma_first_of_kind(s: Seq<PackItem>, j: int, kind: i32)
    requires
        0 <= j <= s.len(),
    ensures
        j <= first_of_kind(s, j, kind) <= s.len(),
        first_of_kind(s, j, kind) < s.len() ==> s[first_of_kind(s, j, kind)].kind == kind,
        forall|t: int| j <= t < first_of_kind(s, j, kind) ==> #[trigger] s[t].kind != kind,
    decreases s.len() - j,
{
    if j < s.len() && s[j].kind != kind {
        lemma_first_of_kind(s, j + 1, kind);
    }
}

proof fn lemma_past_other_sorts(s: Seq<PackItem>, j: int, item: PackItem)
    requires
        0 <= j <= s.len(),
    ensures
        j <= past_other_sorts(s, j, item) <= s.len(),
        past_other_sorts(s, j, item) < s.len() ==> !(s[past_other_sorts(s, j, item)].kind == item.kind
            && s[past_other_sorts(s, j, item)].which != item.which),
        forall|t: int|
            j <= t < past_other_sorts(s, j, item) ==> #[trigger] s[t].kind == item.kind && s[t].which != item.which,
    decreases s.len() - j,
{
    if j < s.len() && s[j].kind == item.kind && s[j].which != item.which {
        lemma_past_other_sorts(s, j + 1, item);
    }
}

proof fn lemma_past_other_groups(s: Seq<PackItem>, j: int, item: PackItem)
    requires
        0 <= j <= s.len(),
    ensures
        j <= past_other_groups(s, j, item) <= s.len(),
        past_other_groups(s, j, item) < s.len() ==> !(same_sort(s[past_other_groups(s, j, item)], item)
            && s[past_other_groups(s, j, item)].group != item.group),
        forall|t: int|
            j <= t < past_other_groups(s, j, item) ==> same_sort(#[trigger] s[t], item) && s[t].group != item.group,
    decreases s.len() - j,
{
    if j < s.len() && same_sort(s[j], item) && s[j].group != item.group {
        lemma_past_other_groups(s, j + 1, item);
    }
}

/// The index of the first entry of kind `kind` (see `first_of_kind`).
fn find_kind(s: &Vec<PackItem>, kind: i32) -> (f: usize)
    ensures
        f == first_of_kind(s@, 0, kind),
{
    let mut j: usize = 0;
    while j < s.len()
        invariant
            j <= s@.len(),
            first_of_kind(s@, j as int, kind) == first_of_kind(s@, 0, kind),
        decreases s@.len() - j,
    {
        if s[j].kind == kind {
            return j;
        }
        j = j + 1;
    }
    j
}

/// See `past_other_sorts`.
fn skip_other_sorts(s: &Vec<PackItem>, start: usize, item: PackItem) -> (r: usize)
    requires
        start <= s@.len(),
    ensures
        r == past_other_sorts(s@, start as int, item),
{
    let mut j: usize = start;
    while j < s.len()
        invariant
            start <= j <= s@.len(),
            past_other_sorts(s@, j as int, item) == past_other_sorts(s@, start as int, item),
        decreases s@.len() - j,
    {
        if !(s[j].kind == item.kind && s[j].which != item.which) {
            return j;
        }
        j = j + 1;
    }
    j
}

/// See `past_other_groups`.
fn skip_other_groups(s: &Vec<PackItem>, start: usize, item: PackItem) -> (r: usize)
    requires
        start <= s@.len(),
    ensures
        r == past_other_groups(s@, start as int, item),
{
    let mut j: usize = start;
    while j < s.len()
        invariant
            start <= j <= s@.len(),
            past_other_groups(s@, j as int, item) == past_other_groups(s@, start as int, item),
        decreases s@.len() - j,
    {
        if !(s[j].kind == item.kind && s[j].which == item.which && s[j].group != item.group) {
            return j;
        }
        j = j + 1;
    }
    j
}


/// Where `spot` puts an item: an existing entry of its sort, or after an
/// entry of its kind, or after the last entry when no entry has its kind.
proof fn lemma_spot(s: Seq<PackItem>, item: PackItem)
    requires
        s.len() <= usize::MAX,
    ensures
        spot(s, item) is Start ==> s.len() == 0,
        spot(s, item) matches Spot::Stack(i) ==> i < s.len() && same_sort(s[i as int], item),
        spot(s, item) matches Spot::Group(m) ==> m < s.len() && same_sort(s[m as int], item)
            && s[m as int].group == item.group,
        spot(s, item) matches Spot::After(q) ==> q < s.len() && (s[q as int].kind == item.kind || (q == s.len()
            - 1 && forall|t: int| 0 <= t < s.len() ==> #[trigger] s[t].kind != item.kind)),
{
    let n = s.len() as int;
    if !turns_to_dust(item) && n > 0 {
        lemma_first_of_kind(s, 0, item.kind);
        let f = first_of_kind(s, 0, item.kind);
        if f < n {
            lemma_past_other_sorts(s, f, item);
            let i = past_other_sorts(s, f, item);
            if i < n && same_sort(s[i], item) {
                if !stackable(item.kind) && item.group != 0 {
                    lemma_past_other_groups(s, i, item);
                    let m = past_other_groups(s, i, item);
                    if !(m < n && same_sort(s[m], item) && s[m].group == item.group) {
                        assert(m > i);
                        assert(same_sort(s[m - 1], item));
                    }
                }
            } else {
                assert(i > f);
                assert(s[i - 1].kind == item.kind);
            }
        }
    }
}

/// Every entry has a letter from `a` to `z`, no two entries share one, and
/// a letter is marked taken exactly when an entry has it.
pub open spec fn letters_consistent(p: PackView) -> bool {
    &&& p.used.len() == PACK_LETTERS
    &&& forall|i: int| 0 <= i < p.items.len() ==> 97 <= #[trigger] p.items[i].letter < 123
    &&& forall|i: int, j: int|
        0 <= i < p.items.len() && 0 <= j < p.items.len() && i != j ==> #[trigger] p.items[i].letter
            != #[trigger] p.items[j].letter
    &&& forall|c: int|
        0 <= c < PACK_LETTERS ==> (#[trigger] p.used[c] <==> exists|i: int|
            0 <= i < p.items.len() && p.items[i].letter == 97 + c)
}

/// The entries of each kind stand next to each other.
pub open spec fn kinds_together(s: Seq<PackItem>) -> bool {
    forall|a: int, b: int, c: int|
        #![trigger s[a], s[b], s[c]]
        0 <= a < b < c < s.len() && s[a].kind == s[c].kind ==> s[b].kind == s[a].kind
}

proof fn lemma_first_free(used: Seq<bool>, j: int)
    requires
        0 <= j <= used.len(),
    ensures
        j <= first_free(used, j) <= used.len(),
        first_free(used, j) < used.len() ==> !used[first_free(used, j)],
        forall|t: int| j <= t < first_free(used, j) ==> #[trigger] used[t],
    decreases used.len() - j,
{
    if j < used.len() && used[j] {
        lemma_first_free(used, j + 1);
    }
}

/// With fewer than 26 entries and consistent letters, a letter is free.
proof fn lemma_free_letter(p: PackView)
    requires
        letters_consistent(p),
        p.items.len() < PACK_LETTERS,
    ensures
        first_free(p.used, 0) < PACK_LETTERS,
{
    lemma_first_free(p.used, 0);
    if first_free(p.used, 0) >= PACK_LETTERS {
        let letters = p.items.map_values(|e: PackItem| e.letter as int);
        let taken = letters.to_set();
        let range = set_int_range(97, 123);
        assert forall|x: int| range.contains(x) implies taken.contains(x) by {
            assert(p.used[x - 97]);
            let i = choose|i: int| 0 <= i < p.items.len() && p.items[i].letter == 97 + (x - 97);
            assert(letters[i] == x);
        }
        vstd::seq_lib::seq_to_set_is_finite(letters);
        letters.lemma_cardinality_of_set();
        lemma_int_range(97, 123);
        lemma_len_subset(range, taken);
        assert(false);
    }
}

/// A new entry with the next letter keeps the letters consistent.
proof fn lemma_new_entry_letter(p: PackView, x: PackItem, q: int, carried: int)
    requires
        letters_consistent(p),
        p.items.len() < PACK_LETTERS,
        0 <= q <= p.items.len(),
        x.letter == next_letter(p.used),
    ensures
        letters_consistent(PackView { items: p.items.insert(q, x), used: mark_letter(p.used), carried }),
{
    lemma_free_letter(p);
    lemma_first_free(p.used, 0);
    let f = first_free(p.used, 0);
    let s = p.items;
    let t = s.insert(q, x);
    let u = mark_letter(p.used);
    assert(x.letter == 97 + f);
    assert forall|i: int| 0 <= i < s.len() implies #[trigger] s[i].letter != x.letter by {
        if s[i].letter == x.letter {
            assert(p.used[f]);
        }
    }
    assert forall|i: int| 0 <= i < t.len() implies 97 <= #[trigger] t[i].letter < 123 by {
        if i > q {
            assert(t[i] == s[i - 1]);
        } else if i < q {
            assert(t[i] == s[i]);
        }
    }
    assert forall|i: int, j: int| 0 <= i < t.len() && 0 <= j < t.len() && i != j implies #[trigger] t[i].letter
        != #[trigger] t[j].letter by {
        let si = if i < q { i } else { i - 1 };
        let sj = if j < q { j } else { j - 1 };
        if i != q && j != q {
            assert(t[i] == s[si]);
            assert(t[j] == s[sj]);
        } else if i == q {
            assert(t[j] == s[sj]);
        } else {
            assert(t[i] == s[si]);
        }
    }
    assert forall|c: int| 0 <= c < PACK_LETTERS implies (#[trigger] u[c] <==> exists|i: int|
        0 <= i < t.len() && t[i].letter == 97 + c) by {
        if c == f {
            assert(t[q].letter == 97 + c);
        } else {
            if p.used[c] {
                let i = choose|i: int| 0 <= i < s.len() && s[i].letter == 97 + c;
                let ti = if i < q { i } else { i + 1 };
                assert(t[ti] == s[i]);
            }
            if exists|i: int| 0 <= i < t.len() && t[i].letter == 97 + c {
                let i = choose|i: int| 0 <= i < t.len() && t[i].letter == 97 + c;
                assert(i != q);
                let si = if i < q { i } else { i - 1 };
                assert(t[i] == s[si]);
            }
        }
    }
    let r = PackView { items: t, used: u, carried };
    assert(r.used.len() == PACK_LETTERS);
    assert(forall|i: int| 0 <= i < r.items.len() ==> 97 <= #[trigger] r.items[i].letter < 123);
    assert(forall|i: int, j: int|
        0 <= i < r.items.len() && 0 <= j < r.items.len() && i != j ==> #[trigger] r.items[i].letter
            != #[trigger] r.items[j].letter);
}

/// Changing the count or flags of an entry keeps the letters consistent.
proof fn lemma_recount_letter(p: PackView, i: int, e: PackItem, used: Seq<bool>, carried: int)
    requires
        letters_consistent(p),
        0 <= i < p.items.len(),
        e.letter == p.items[i].letter,
        used == p.used,
    ensures
        letters_consistent(PackView { items: p.items.update(i, e), used, carried }),
{
    let s = p.items;
    let t = s.update(i, e);
    assert forall|j: int| 0 <= j < t.len() implies #[trigger] t[j].letter == s[j].letter by {}
    assert forall|a: int, b: int| 0 <= a < t.len() && 0 <= b < t.len() && a != b implies #[trigger] t[a].letter
        != #[trigger] t[b].letter by {
        assert(t[a].letter == s[a].letter);
        assert(t[b].letter == s[b].letter);
    }
    assert forall|c: int| 0 <= c < PACK_LETTERS implies (#[trigger] used[c] <==> exists|j: int|
        0 <= j < t.len() && t[j].letter == 97 + c) by {
        if used[c] {
            let j = choose|j: int| 0 <= j < s.len() && s[j].letter == 97 + c;
            assert(t[j].letter == s[j].letter);
        }
        if exists|j: int| 0 <= j < t.len() && t[j].letter == 97 + c {
            let j = choose|j: int| 0 <= j < t.len() && t[j].letter == 97 + c;
            assert(s[j].letter == t[j].letter);
        }
    }
    let r = PackView { items: t, used, carried };
    assert(forall|j: int| 0 <= j < r.items.len() ==> 97 <= #[trigger] r.items[j].letter < 123);
    assert(forall|a: int, b: int|
        0 <= a < r.items.len() && 0 <= b < r.items.len() && a != b ==> #[trigger] r.items[a].letter
            != #[trigger] r.items[b].letter);
}

/// Offering an item to a pack with fewer than 26 entries and consistent
/// letters keeps the letters consistent: a new entry gets a letter that no
/// other entry has, and is marked taken.
pub proof fn lemma_add_keeps_letters(p: PackView, item: PackItem)
    requires
        letters_consistent(p),
        p.items.len() < PACK_LETTERS,
    ensures
        letters_consistent(after_add(p, item)),
{
    let s = p.items;
    lemma_spot(s, item);
    match spot(s, item) {
        Spot::Dust => {},
        Spot::Start => {
            lemma_new_entry_letter(p, lettered(item, p.used), 0, p.carried + 1);
            assert(s.insert(0, lettered(item, p.used)) =~= seq![lettered(item, p.used)]);
            assert(after_add(p, item) == PackView {
                items: s.insert(0, lettered(item, p.used)),
                used: mark_letter(p.used),
                carried: p.carried + 1,
            });
        },
        Spot::Stack(i) => {
            if !has_room(p.carried) {
                lemma_recount_letter(p, i as int, s[i as int], p.used, MAXPACK as int);
                assert(s.update(i as int, s[i as int]) =~= s);
            }
            if has_room(p.carried) {
                lemma_recount_letter(p, i as int, bumped(s[i as int], 1), p.used, p.carried + 1);
                assert(after_add(p, item) == PackView {
                    items: s.update(i as int, bumped(s[i as int], 1)),
                    used: p.used,
                    carried: p.carried + 1,
                });
            }
        },
        Spot::Group(m) => {
            if has_room(p.carried - 1) {
                lemma_recount_letter(p, m as int, bumped(s[m as int], item.count as int), p.used, p.carried);
            } else {
                lemma_recount_letter(p, m as int, recounted(s[m as int], item.count as int), p.used, MAXPACK as int);
            }
        },
        Spot::After(q) => {
            if !has_room(p.carried) {
                lemma_recount_letter(p, q as int, s[q as int], p.used, MAXPACK as int);
                assert(s.update(q as int, s[q as int]) =~= s);
            }
            if has_room(p.carried) {
                lemma_new_entry_letter(p, lettered(item, p.used), q + 1, p.carried + 1);
                assert(after_add(p, item) == PackView {
                    items: s.insert(q + 1, lettered(item, p.used)),
                    used: mark_letter(p.used),
                    carried: p.carried + 1,
                });
            }
        },
    }
}

proof fn lemma_update_together(s: Seq<PackItem>, i: int, e: PackItem)
    requires
        kinds_together(s),
        0 <= i < s.len(),
        e.kind == s[i].kind,
    ensures
        kinds_together(s.update(i, e)),
{
    let t = s.update(i, e);
    assert forall|a: int, b: int, c: int|
        #![trigger t[a], t[b], t[c]]
        0 <= a < b < c < t.len() && t[a].kind == t[c].kind implies t[b].kind == t[a].kind by {
        assert(t[a].kind == s[a].kind && t[b].kind == s[b].kind && t[c].kind == s[c].kind);
        assert(s[b].kind == s[a].kind);
    }
}

proof fn lemma_insert_together(s: Seq<PackItem>, q: int, x: PackItem)
    requires
        kinds_together(s),
        0 <= q < s.len(),
        s[q].kind == x.kind || (q == s.len() - 1 && forall|t: int| 0 <= t < s.len() ==> #[trigger] s[t].kind
            != x.kind),
    ensures
        kinds_together(s.insert(q + 1, x)),
{
    let k = q + 1;
    let t = s.insert(k, x);
    assert forall|a: int, b: int, c: int|
        #![trigger t[a], t[b], t[c]]
        0 <= a < b < c < t.len() && t[a].kind == t[c].kind implies t[b].kind == t[a].kind by {
        let sa = if a < k { a } else { a - 1 };
        let sb = if b < k { b } else { b - 1 };
        let sc = if c < k { c } else { c - 1 };
        if a != k { assert(t[a] == s[sa]); }
        if b != k { assert(t[b] == s[sb]); }
        if c != k { assert(t[c] == s[sc]); }
        if a != k && b != k && c != k {
            assert(s[sb].kind == s[sa].kind);
        } else if b == k {
            if s[q].kind == x.kind {
                if sa < q && q < sc {
                    assert(s[q].kind == s[sa].kind);
                }
            } else {
                assert(s[sa].kind != x.kind);
            }
        } else if a == k {
            if s[q].kind == x.kind {
                assert(q < sb < sc);
                assert(s[sb].kind == s[q].kind);
            }
        } else {
            if s[q].kind == x.kind {
                if sb < q {
                    assert(s[sb].kind == s[sa].kind);
                }
            } else {
                assert(s[sa].kind != x.kind);
            }
        }
    }
}

/// Offering an item keeps the entries of each kind next to each other: a
/// new entry goes right after an entry of its kind, or last when no entry
/// has its kind.
pub proof fn lemma_add_keeps_kinds_together(p: PackView, item: PackItem)
    requires
        kinds_together(p.items),
        p.items.len() <= usize::MAX,
    ensures
        kinds_together(after_add(p, item).items),
{
    let s = p.items;
    lemma_spot(s, item);
    match spot(s, item) {
        Spot::Dust => {},
        Spot::Start => {
            let t = after_add(p, item).items;
            assert(t.len() == 1);
        },
        Spot::Stack(i) => {
            if has_room(p.carried) {
                lemma_update_together(s, i as int, bumped(s[i as int], 1));
            }
        },
        Spot::Group(m) => {
            if has_room(p.carried - 1) {
                lemma_update_together(s, m as int, bumped(s[m as int], item.count as int));
            } else {
                lemma_update_together(s, m as int, recounted(s[m as int], item.count as int));
            }
        },
        Spot::After(q) => {
            if has_room(p.carried) {
                lemma_insert_together(s, q as int, lettered(item, p.used));
            }
        },
    }
}

/// Whether taking an item out of entry `e` leaves part of it behind: it holds
/// more than one and not all of it is taken.
pub open spec fn splits(e: PackItem, all: bool) -> bool {
    e.count > 1 && !all
}

/// The item that comes out of entry `at` (see `after_leave`): a single one
/// split off it when `newobj`, the entry itself otherwise.
pub open spec fn leaving(p: PackView, at: int, newobj: bool, all: bool) -> PackItem {
    let e = p.items[at];
    if splits(e, all) {
        if newobj { PackItem { count: 1, ..recounted(e, -1) } } else { recounted(e, -1) }
    } else {
        e
    }
}

/// The pack after taking an item out of entry `at`: the entry loses one
/// when it splits (and the pack counts one fewer, except for missiles of a
/// throw); otherwise it leaves the pack and frees its letter.
pub open spec fn after_leave(p: PackView, at: int, all: bool) -> PackView {
    let e = p.items[at];
    if splits(e, all) {
        PackView {
            items: p.items.update(at, recounted(e, -1)),
            used: p.used,
            carried: p.carried - 1 + (if e.group != 0 { 1int } else { 0int }),
        }
    } else {
        PackView { items: p.items.remove(at), used: p.used.update(e.letter - 97, false), carried: p.carried - 1 }
    }
}

/// Taking an item out keeps the letters consistent: an entry that leaves
/// frees its letter.
pub proof fn lemma_leave_keeps_letters(p: PackView, at: int, all: bool)
    requires
        letters_consistent(p),
        0 <= at < p.items.len(),
    ensures
        letters_consistent(after_leave(p, at, all)),
{
    let s = p.items;
    let e = s[at];
    if splits(e, all) {
        lemma_recount_letter(p, at, recounted(e, -1), p.used, p.carried - 1 + (if e.group != 0 { 1int } else { 0int }));
    } else {
        let t = s.remove(at);
        let u = p.used.update(e.letter - 97, false);
        assert forall|i: int| 0 <= i < t.len() implies #[trigger] t[i] == s[if i < at { i } else { i + 1 }] by {}
        assert forall|i: int| 0 <= i < t.len() implies 97 <= #[trigger] t[i].letter < 123 by {
            assert(t[i] == s[if i < at { i } else { i + 1 }]);
        }
        assert forall|i: int, j: int| 0 <= i < t.len() && 0 <= j < t.len() && i != j implies #[trigger] t[i].letter
            != #[trigger] t[j].letter by {
            assert(t[i] == s[if i < at { i } else { i + 1 }]);
            assert(t[j] == s[if j < at { j } else { j + 1 }]);
        }
        assert forall|c: int| 0 <= c < PACK_LETTERS implies (#[trigger] u[c] <==> exists|i: int|
            0 <= i < t.len() && t[i].letter == 97 + c) by {
            if c == e.letter - 97 {
                if exists|i: int| 0 <= i < t.len() && t[i].letter == 97 + c {
                    let i = choose|i: int| 0 <= i < t.len() && t[i].letter == 97 + c;
                    let si = if i < at { i } else { i + 1 };
                    assert(t[i] == s[si]);
                    assert(si != at);
                }
            } else {
                if p.used[c] {
                    let j = choose|j: int| 0 <= j < s.len() && s[j].letter == 97 + c;
                    assert(j != at);
                    let tj = if j < at { j } else { j - 1 };
                    assert(t[tj] == s[j]);
                }
                if exists|i: int| 0 <= i < t.len() && t[i].letter == 97 + c {
                    let i = choose|i: int| 0 <= i < t.len() && t[i].letter == 97 + c;
                    assert(t[i] == s[if i < at { i } else { i + 1 }]);
                }
            }
        }
        let r = PackView { items: t, used: u, carried: p.carried - 1 };
        assert(forall|i: int| 0 <= i < r.items.len() ==> 97 <= #[trigger] r.items[i].letter < 123);
        assert(forall|i: int, j: int|
            0 <= i < r.items.len() && 0 <= j < r.items.len() && i != j ==> #[trigger] r.items[i].letter
                != #[trigger] r.items[j].letter);
    }
}

/// Taking an item out keeps the entries of each kind next to each other.
pub proof fn lemma_leave_keeps_kinds_together(p: PackView, at: int, all: bool)
    requires
        kinds_together(p.items),
        0 <= at < p.items.len(),
    ensures
        kinds_together(after_leave(p, at, all).items),
{
    let s = p.items;
    let e = s[at];
    if splits(e, all) {
        lemma_update_together(s, at, recounted(e, -1));
    } else {
        let t = s.remove(at);
        assert forall|a: int, b: int, c: int|
            #![trigger t[a], t[b], t[c]]
            0 <= a < b < c < t.len() && t[a].kind == t[c].kind implies t[b].kind == t[a].kind by {
            let sa = if a < at { a } else { a + 1 };
            let sb = if b < at { b } else { b + 1 };
            let sc = if c < at { c } else { c + 1 };
            assert(t[a] == s[sa] && t[b] == s[sb] && t[c] == s[sc]);
            assert(s[sb].kind == s[sa].kind);
        }
    }
}

/// The kind asked for when any item the hero may give a name will do.
pub const CALLABLE: i32 = -1;

/// Whether the inventory asked for items of kind `filter` lists an entry of
/// kind `kind`: `0` asks for everything, `CALLABLE` for all but food and the
/// amulet, `R_OR_S` for rings, wands and staffs, any other value for its own
/// kind.
pub open spec fn inventory_shows(filter: i32, kind: i32) -> bool {
    filter == 0 || filter == kind || (filter == CALLABLE && kind != FOOD && kind != AMULET) || (filter == R_OR_S
        && (kind == RING || kind == STICK))
}

/// The indices, in order, of the entries of `s` that the inventory asked for
/// `filter` lists.
pub open spec fn listed(s: Seq<PackItem>, filter: i32) -> Seq<usize>
    decreases s.len(),
{
    if s.len() == 0 {
        Seq::empty()
    } else {
        let rest = listed(s.drop_last(), filter);
        if inventory_shows(filter, s.last().kind) { rest.push((s.len() - 1) as usize) } else { rest }
    }
}

/// Whether dropping an item of kind `kind` drops the whole entry: kinds
/// whose glyph code is even (food, the amulet) go all at once, the others
/// one at a time.
pub open spec fn drops_whole(kind: i32) -> bool {
    kind % 2 == 0
}

/// See `drops_whole`.
pub fn drop_all(kind: i32) -> (all: bool)
    ensures
        all == drops_whole(kind),
{
    kind % 2 == 0
}

/// How inventorying a single item starts, by the number of entries.
#[derive(Clone, Copy, Debug, PartialEq, Eq, Structural)]
pub enum PickyStart {
    /// Nothing is carried.
    Empty,
    /// One entry: it is shown at once.
    Single,
    /// Ask which one.
    Ask,
}

/// See `PickyStart`.
pub open spec fn picky_start_of(entries: int) -> PickyStart {
    if entries == 0 { PickyStart::Empty } else if entries == 1 { PickyStart::Single } else { PickyStart::Ask }
}

/// The line of the inventory for the entry with letter `letter` named
/// `name`: the letter and a bracket before the name, or the name alone for
/// an item without a letter.
pub open spec fn inventory_line_text(letter: u8, name: Seq<char>) -> Seq<char> {
    if letter == 0 { name } else { seq![letter as char, ')', ' '] + name }
}

/// See `inventory_line_text`.
pub fn inventory_line(letter: u8, name: &str) -> (line: String)
    ensures
        line@ == inventory_line_text(letter, name@),
{
    let mut line = String::new();
    if letter != 0 {
        crate::text::string_push(&mut line, letter as char);
        crate::text::string_push(&mut line, ')');
        crate::text::string_push(&mut line, ' ');
    }
    crate::text::push_text(&mut line, name);
    line
}

/// The complaint about a letter that names no entry.
pub open spec fn not_in_pack_text(ch: u8) -> Seq<char> {
    "'"@ + key_name(ch) + "' not in pack"@
}

/// See `not_in_pack_text`.
pub fn not_in_pack_message(ch: u8) -> (m: String)
    ensures
        m@ == not_in_pack_text(ch),
{
    let mut m = String::new();
    crate::text::push_text(&mut m, "'");
    let k = format_key(ch);
    crate::text::push_text(&mut m, k.as_str());
    crate::text::push_text(&mut m, "' not in pack");
    m
}

/// Taking out whole an item that has just become a new entry of the pack
/// gives back the pack as it was: the same entries, the same letters
/// taken, the same count carried.
pub proof fn lemma_leave_undoes_add(p: PackView, item: PackItem)
    requires
        letters_consistent(p),
        p.items.len() < PACK_LETTERS,
    ensures
        add_outcome(p, item) matches AddOutcome::Inserted(i) ==> after_leave(after_add(p, item), i as int, true) == p,
        add_outcome(p, item) is Started ==> after_leave(after_add(p, item), 0, true) == p,
{
    let s = p.items;
    lemma_spot(s, item);
    lemma_free_letter(p);
    lemma_first_free(p.used, 0);
    let f = first_free(p.used, 0);
    let x = lettered(item, p.used);
    assert(x.letter == 97 + f);
    let u = mark_letter(p.used);
    assert(u.update(f, false) =~= p.used);
    match spot(s, item) {
        Spot::Start => {
            let a = after_add(p, item);
            assert(a.items =~= seq![x]);
            assert(a.items.remove(0) =~= s);
        },
        Spot::After(q) => {
            if has_room(p.carried) {
                let t = s.insert(q + 1, x);
                assert(t.remove(q + 1) =~= s);
            }
        },
        _ => {},
    }
}

/// The question asked to choose an item for `purpose`: the full question
/// unless terse, then the purpose, ` what` when terse, and the hint.
pub open spec fn get_item_prompt_text(purpose: Seq<char>, terse: bool) -> Seq<char> {
    (if terse { Seq::empty() } else { "which object do you want to "@ }) + purpose + (if terse {
        " what"@
    } else {
        Seq::empty()
    }) + "? (* for list): "@
}

/// See `get_item_prompt_text`.
pub fn get_item_prompt(purpose: &str, terse: bool) -> (q: String)
    ensures
        q@ == get_item_prompt_text(purpose@, terse),
{
    let mut q = String::new();
    if !terse {
        crate::text::push_text(&mut q, "which object do you want to ");
    }
    crate::text::push_text(&mut q, purpose);
    if terse {
        crate::text::push_text(&mut q, " what");
    }
    crate::text::push_text(&mut q, "? (* for list): ");
    q
}

/// The complaint about a key that names no item.
pub open spec fn invalid_item_text(ch: u8) -> Seq<char> {
    "'"@ + key_name(ch) + "' is not a valid item"@
}

/// See `invalid_item_text`.
pub fn invalid_item_message(ch: u8) -> (m: String)
    ensures
        m@ == invalid_item_text(ch),
{
    let mut m = String::new();
    crate::text::push_text(&mut m, "'");
    let k = format_key(ch);
    crate::text::push_text(&mut m, k.as_str());
    crate::text::push_text(&mut m, "' is not a valid item");
    m
}

/// What an empty inventory tells the hero: that he has nothing, or nothing
/// of the kind asked for (`filter` not `0`).
pub open spec fn empty_inventory_text(filter: i32, terse: bool) -> Seq<char> {
    if terse {
        if filter == 0 { "empty handed"@ } else { "nothing appropriate"@ }
    } else {
        if filter == 0 { "you are empty handed"@ } else { "you don't have anything appropriate"@ }
    }
}

/// See `empty_inventory_text`.
pub fn empty_inventory_message(filter: i32, terse: bool) -> (m: &'static str)
    ensures
        m@ == empty_inventory_text(filter, terse),
{
    if terse {
        if filter == 0 { "empty handed" } else { "nothing appropriate" }
    } else {
        if filter == 0 { "you are empty handed" } else { "you don't have anything appropriate" }
    }
}

/// What a full pack tells the hero.
pub open spec fn no_room_text(terse: bool) -> Seq<char> {
    if terse { "no room"@ } else { "there's no room in your pack"@ }
}

/// See `no_room_text`.
pub fn no_room_message(terse: bool) -> (m: String)
    ensures
        m@ == no_room_text(terse),
{
    let mut m = String::new();
    if terse {
        crate::text::push_text(&mut m, "no room");
    } else {
        crate::text::push_text(&mut m, "there's no room in your pack");
    }
    m
}

/// Whether an item of kind `kind` is magic (which potions of magic
/// detection show): armor that is protected or has an armor value, a weapon
/// with a bonus to hit or to damage, and every potion, scroll, stick, ring
/// and the amulet.
pub open spec fn magic(kind: i32, flags: i32, arm: i32, hplus: i32, dplus: i32) -> bool {
    if kind == ARMOR {
        (flags & crate::scrolls::ISPROT) != 0 || arm != 0
    } else if kind == WEAPON {
        hplus != 0 || dplus != 0
    } else {
        kind == POTION || kind == SCROLL || kind == STICK || kind == RING || kind == AMULET
    }
}

/// See `magic`.
pub fn is_magic(kind: i32, flags: i32, arm: i32, hplus: i32, dplus: i32) -> (m: bool)
    ensures
        m == magic(kind, flags, arm, hplus, dplus),
{
    if kind == ARMOR {
        (flags & crate::scrolls::ISPROT) != 0 || arm != 0
    } else if kind == WEAPON {
        hplus != 0 || dplus != 0
    } else {
        kind == POTION || kind == SCROLL || kind == STICK || kind == RING || kind == AMULET
    }
}

impl Pack {
    /// There is a mark for each of the letters.
    pub closed spec fn wf(&self) -> bool {
        self.used@.len() == PACK_LETTERS
    }

    /// An empty pack, with every letter free.
    pub fn new() -> (p: Pack)
        ensures
            p.wf(),
            p@.items.len() == 0,
            p@.carried == 0,
            forall|c: int| 0 <= c < PACK_LETTERS ==> !#[trigger] p@.used[c],
    {
        let mut used: Vec<bool> = Vec::new();
        let mut i: usize = 0;
        while i < PACK_LETTERS
            invariant
                i <= PACK_LETTERS,
                used@.len() == i,
                forall|c: int| 0 <= c < i ==> !#[trigger] used@[c],
            decreases PACK_LETTERS - i,
        {
            used.push(false);
            i = i + 1;
        }
        Pack { items: Vec::new(), used, carried: 0 }
    }

    /// The entries of the pack, in order.
    pub fn items(&self) -> (v: &Vec<PackItem>)
        ensures
            v@ == self@.items,
    {
        &self.items
    }

    /// How many items the pack counts as carried.
    pub fn carried(&self) -> (n: i32)
        ensures
            n == self@.carried,
    {
        self.carried
    }

    /// Take the first free letter for a new entry and return it; when every
    /// letter is taken, return `a` and take nothing.
    pub fn pack_char(&mut self) -> (c: u8)
        requires
            old(self).wf(),
        ensures
            final(self).wf(),
            c == next_letter(old(self)@.used),
            final(self)@.used == mark_letter(old(self)@.used),
            final(self)@.items == old(self)@.items,
            final(self)@.carried == old(self)@.carried,
    {
        let mut i: usize = 0;
        while i < self.used.len()
            invariant
                self.wf(),
                self@ == old(self)@,
                i <= PACK_LETTERS,
                first_free(self.used@, i as int) == first_free(self.used@, 0),
            decreases PACK_LETTERS - i,
        {
            if !self.used[i] {
                self.used.set(i, true);
                return (97 + i) as u8;
            }
            i = i + 1;
        }
        97
    }

    /// Make room for one more item: when the pack is full, mark it as
    /// holding exactly its limit and refuse; otherwise count one more.
    fn take_room(&mut self) -> (ok: bool)
        ensures
            ok == (old(self)@.carried + 1 <= MAXPACK),
            final(self)@.carried == (if ok { old(self)@.carried + 1 } else { MAXPACK as int }),
            final(self)@.items == old(self)@.items,
            final(self)@.used == old(self)@.used,
            final(self).wf() == old(self).wf(),
    {
        if self.carried >= MAXPACK {
            self.carried = MAXPACK;
            false
        } else {
            self.carried = self.carried + 1;
            true
        }
    }

    /// Put `item` after the entry at `q`, with the next free letter, when
    /// there is room.
    fn insert_after(&mut self, q: usize, item: PackItem) -> (out: AddOutcome)
        requires
            old(self).wf(),
            q < old(self)@.items.len(),
            old(self)@.carried < i32::MAX,
        ensures
            final(self).wf(),
            out == (if has_room(old(self)@.carried) { AddOutcome::Inserted((q + 1) as usize) } else { AddOutcome::NoRoom }),
            final(self)@ == (if has_room(old(self)@.carried) {
                PackView {
                    items: old(self)@.items.insert(q + 1, lettered(item, old(self)@.used)),
                    used: mark_letter(old(self)@.used),
                    carried: old(self)@.carried + 1,
                }
            } else {
                PackView { items: old(self)@.items, used: old(self)@.used, carried: MAXPACK as int }
            }),
    {
        if !self.take_room() {
            return AddOutcome::NoRoom;
        }
        let letter = self.pack_char();
        assert(q < self.items.len());
        self.items.insert(q + 1, PackItem { flags: item.flags | ISFOUND, letter, ..item });
        AddOutcome::Inserted(q + 1)
    }

    /// Offer `item` to the pack (see `spot`, `add_outcome` and `after_add`).
    pub fn add_pack(&mut self, item: PackItem) -> (out: AddOutcome)
        requires
            old(self).wf(),
            i32::MIN < old(self)@.carried < i32::MAX,
            counts_fit(old(self)@.items, item),
        ensures
            final(self).wf(),
            out == add_outcome(old(self)@, item),
            final(self)@ == after_add(old(self)@, item),
    {
        if item.kind == SCROLL && item.which == S_SCARE && (item.flags & ISFOUND) != 0 {
            return AddOutcome::Dust;
        }
        let n = self.items.len();
        if n == 0 {
            let letter = self.pack_char();
            self.items.push(PackItem { flags: item.flags | ISFOUND, letter, ..item });
            self.carried = self.carried + 1;
            proof {
                assert(self@.items =~= seq![lettered(item, old(self)@.used)]);
            }
            return AddOutcome::Started;
        }
        let ghost s = self@.items;
        let f = find_kind(&self.items, item.kind);
        proof {
            lemma_first_of_kind(s, 0, item.kind);
        }
        if f == n {
            return self.insert_after(n - 1, item);
        }
        let i = skip_other_sorts(&self.items, f, item);
        proof {
            lemma_past_other_sorts(s, f as int, item);
        }
        if i < n && self.items[i].kind == item.kind && self.items[i].which == item.which {
            if item.kind == FOOD || item.kind == POTION || item.kind == SCROLL {
                if !self.take_room() {
                    return AddOutcome::NoRoom;
                }
                let e = self.items[i];
                self.items.set(i, PackItem { count: e.count + 1, flags: e.flags | ISFOUND, ..e });
                return AddOutcome::Stacked(i);
            } else if item.group != 0 {
                let m = skip_other_groups(&self.items, i, item);
                proof {
                    lemma_past_other_groups(s, i as int, item);
                }
                if m < n && self.items[m].kind == item.kind && self.items[m].which == item.which
                    && self.items[m].group == item.group {
                    let e = self.items[m];
                    self.items.set(m, PackItem { count: e.count + item.count, ..e });
                    self.carried = self.carried - 1;
                    if !self.take_room() {
                        return AddOutcome::NoRoom;
                    }
                    let e2 = self.items[m];
                    self.items.set(m, PackItem { flags: e2.flags | ISFOUND, ..e2 });
                    proof {
                        assert(bumped(s[m as int], item.count as int) == PackItem { flags: e2.flags | ISFOUND, ..e2 });
                        assert(self@.items =~= s.update(m as int, bumped(s[m as int], item.count as int)));
                    }
                    return AddOutcome::Grouped(m);
                } else {
                    return self.insert_after(m - 1, item);
                }
            } else {
                return self.insert_after(i, item);
            }
        } else {
            return self.insert_after(i - 1, item);
        }
    }

    /// Take an item out of entry `at` (see `leaving` and `after_leave`):
    /// with `all` the whole entry, otherwise one of it; `newobj` asks for
    /// the single item split off as an item of its own. Returns the item
    /// taken out and whether the entry left the pack.
    pub fn leave_pack(&mut self, at: usize, newobj: bool, all: bool) -> (r: (PackItem, bool))
        requires
            old(self).wf(),
            at < old(self)@.items.len(),
            old(self)@.carried > i32::MIN,
            !splits(old(self)@.items[at as int], all) ==> 97 <= old(self)@.items[at as int].letter < 123,
        ensures
            final(self).wf(),
            r.0 == leaving(old(self)@, at as int, newobj, all),
            r.1 == !splits(old(self)@.items[at as int], all),
            final(self)@ == after_leave(old(self)@, at as int, all),
    {
        let e = self.items[at];
        self.carried = self.carried - 1;
        if e.count > 1 && !all {
            let left = PackItem { count: e.count - 1, ..e };
            self.items.set(at, left);
            if e.group != 0 {
                self.carried = self.carried + 1;
            }
            if newobj {
                (PackItem { count: 1, ..left }, false)
            } else {
                (left, false)
            }
        } else {
            let slot = (e.letter - 97) as usize;
            self.used.set(slot, false);
            let gone = self.items.remove(at);
            (gone, true)
        }
    }

    /// How inventorying a single item starts (see `picky_start_of`).
    pub fn picky_start(&self) -> (p: PickyStart)
        ensures
            p == picky_start_of(self@.items.len() as int),
    {
        if self.items.len() == 0 {
            PickyStart::Empty
        } else if self.items.len() == 1 {
            PickyStart::Single
        } else {
            PickyStart::Ask
        }
    }

    /// The index of the first entry with letter `c`, if any.
    pub fn find_letter(&self, c: u8) -> (r: Option<usize>)
        ensures
            match r {
                Some(i) => i < self@.items.len() && self@.items[i as int].letter == c
                    && forall|j: int| 0 <= j < i ==> #[trigger] self@.items[j].letter != c,
                None => forall|j: int| 0 <= j < self@.items.len() ==> #[trigger] self@.items[j].letter != c,
            },
    {
        let mut i: usize = 0;
        while i < self.items.len()
            invariant
                i <= self@.items.len(),
                forall|j: int| 0 <= j < i ==> #[trigger] self@.items[j].letter != c,
            decreases self@.items.len() - i,
        {
            if self.items[i].letter == c {
                return Some(i);
            }
            i = i + 1;
        }
        None
    }

    /// The entries the inventory asked for `filter` lists, by index.
    pub fn inventory(&self, filter: i32) -> (v: Vec<usize>)
        ensures
            v@ == listed(self@.items, filter),
    {
        let mut v: Vec<usize> = Vec::new();
        let mut i: usize = 0;
        while i < self.items.len()
            invariant
                i <= self@.items.len(),
                v@ == listed(self@.items.subrange(0, i as int), filter),
            decreases self@.items.len() - i,
        {
            let ghost before = self@.items.subrange(0, i as int);
            let ghost after = self@.items.subrange(0, i + 1);
            assert(after.drop_last() =~= before);
            if self.items[i].kind == filter || filter == 0
                || (filter == CALLABLE && self.items[i].kind != FOOD && self.items[i].kind != AMULET)
                || (filter == R_OR_S && (self.items[i].kind == RING || self.items[i].kind == STICK)) {
                v.push(i);
            }
            i = i + 1;
        }
        assert(self@.items.subrange(0, self@.items.len() as int) =~= self@.items);
        v
    }
}

/// Food, potions and scrolls pile up: picking one up when the pack (with
/// room for one more item) already holds an entry of the same kind and sort
/// adds one to that entry's count, and makes no new entry. (A scroll of
/// scare monster that was found before crumbles instead.)
pub proof fn law_piles_up(p: PackView, item: PackItem, k: int)
    requires
        item.kind == FOOD || item.kind == POTION || item.kind == SCROLL,
        !(item.kind == SCROLL && item.which == S_SCARE && (item.flags & ISFOUND) != 0),
        0 <= k < p.items.len(),
        p.items[k].kind == item.kind,
        p.items[k].which == item.which,
        kinds_together(p.items),
        p.items.len() <= usize::MAX,
        p.carried + 1 <= MAXPACK,
    ensures
        exists|j: int| #![trigger p.items[j]]
            0 <= j < p.items.len() && add_outcome(p, item) == AddOutcome::Stacked(j as usize)
            && p.items[j].kind == item.kind && p.items[j].which == item.which
            && after_add(p, item).items.len() == p.items.len()
            && after_add(p, item).items[j].count == (p.items[j].count + 1) as i32
            && after_add(p, item).items[j].letter == p.items[j].letter
            && (forall|t: int| 0 <= t < p.items.len() && t != j ==> after_add(p, item).items[t] == p.items[t])
            && after_add(p, item).carried == p.carried + 1,
{
    let s = p.items;
    let n = s.len() as int;
    lemma_first_of_kind(s, 0, item.kind);
    let f = first_of_kind(s, 0, item.kind);
    assert(f <= k) by {
        if f > k {
            assert(s[k].kind != item.kind);
        }
    }
    lemma_past_other_sorts(s, f, item);
    let i = past_other_sorts(s, f, item);
    assert(i <= k) by {
        if i > k {
            assert(s[k].kind == item.kind && s[k].which != item.which);
        }
    }
    assert(s[i].kind == item.kind) by {
        if i != f && i != k {
            assert(s[f].kind == s[k].kind);
            let (a, b, c) = (f, i, k);
            assert(s[b].kind == s[a].kind);
        }
    }
    assert(same_sort(s[i], item));
    assert(stackable(item.kind));
    assert(spot(s, item) == Spot::Stack(i as usize));
    assert((i as usize) as int == i);
    let after = after_add(p, item);
    assert(after.items == s.update(i, bumped(s[i], 1)));
    assert(forall|t: int| 0 <= t < s.len() && t != i ==> after.items[t] == s[t]);
}

/// What picking an item up does to the pack, by what `add_pack` reports:
/// only a found scroll of scare monster crumbles, leaving the pack as it
/// was; an empty pack gets the item as its one entry; food, potions and
/// scrolls pile onto an entry of their sort, one more; a missile joins the
/// entry of its throw with all its count, the pack counting no more; a new
/// entry is the item itself, put in among the others in their order; and a
/// refused item leaves the entries as many as they were. Every outcome but
/// a refusal or dust makes the pack count one more item, except a join.
pub proof fn law_add_outcomes(p: PackView, item: PackItem)
    requires
        p.items.len() < usize::MAX,
    ensures
        ({
            let a = after_add(p, item);
            let s = p.items;
            &&& (add_outcome(p, item) is Dust <==> (item.kind == SCROLL && item.which == S_SCARE && (item.flags & ISFOUND) != 0))
            &&& match add_outcome(p, item) {
                AddOutcome::Dust => a == p,
                AddOutcome::Started => s.len() == 0 && a.items.len() == 1 && a.items[0].kind == item.kind
                    && a.items[0].which == item.which && a.items[0].count == item.count && a.items[0].group == item.group
                    && a.carried == p.carried + 1,
                AddOutcome::Stacked(i) => (item.kind == FOOD || item.kind == POTION || item.kind == SCROLL)
                    && i < s.len() && s[i as int].kind == item.kind && s[i as int].which == item.which
                    && a.items.len() == s.len() && a.items[i as int].count == (s[i as int].count + 1) as i32
                    && (forall|t: int| 0 <= t < s.len() && t != i ==> #[trigger] a.items[t] == s[t])
                    && a.carried == p.carried + 1,
                AddOutcome::Grouped(m) => item.group != 0 && m < s.len() && s[m as int].kind == item.kind
                    && s[m as int].which == item.which && s[m as int].group == item.group
                    && a.items.len() == s.len() && a.items[m as int].count == (s[m as int].count + item.count) as i32
                    && (forall|t: int| 0 <= t < s.len() && t != m ==> #[trigger] a.items[t] == s[t])
                    && a.carried == p.carried,
                AddOutcome::Inserted(j) => 0 < j <= s.len() && a.items.len() == s.len() + 1
                    && a.items[j as int].kind == item.kind && a.items[j as int].which == item.which
                    && a.items[j as int].count == item.count && a.items[j as int].group == item.group
                    && (forall|t: int| 0 <= t < j ==> #[trigger] a.items[t] == s[t])
                    && (forall|t: int| j < t < a.items.len() ==> #[trigger] a.items[t] == s[t - 1])
                    && a.carried == p.carried + 1,
                AddOutcome::NoRoom => a.items.len() == s.len() && a.carried == MAXPACK,
            }
        }),
{
    let s = p.items;
    lemma_spot(s, item);
    let a = after_add(p, item);
    match spot(s, item) {
        Spot::Stack(i) => {
            assert(stackable(item.kind));
            assert((i as int) < s.len());
        },
        Spot::Group(m) => {
            assert(item.group != 0);
        },
        Spot::After(q) => {
            if has_room(p.carried) {
                let e = lettered(item, p.used);
                assert(a.items == s.insert(q + 1, e));
                assert(((q + 1) as usize) as int == q + 1);
            }
        },
        _ => {},
    }
}

} // verus!
