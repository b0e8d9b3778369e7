//! The help screen: what each command key does, the lookup of one key, and
//! the two-column layout of the whole list.

use vstd::prelude::*;

verus! {

/// One line of help: the key (0 for lines about several keys), what it
/// does, and whether the full list shows it.
#[derive(Clone, Copy, Debug)]
pub struct HelpEntry {
    pub key: u8,
    pub text: &'static str,
    pub listed: bool,
}

/// The help lines, in the order the full list shows them.
pub open spec fn help_table() -> Seq<(u8, Seq<char>, bool)> {
    seq![
        (63u8, "\tprints help"@, true),
        (47u8, "\tidentify object"@, true),
        (104u8, "\tleft"@, true),
        (106u8, "\tdown"@, true),
        (107u8, "\tup"@, true),
        (108u8, "\tright"@, true),
        (121u8, "\tup & left"@, true),
        (117u8, "\tup & right"@, true),
        (98u8, "\tdown & left"@, true),
        (110u8, "\tdown & right"@, true),
        (72u8, "\trun left"@, false),
        (74u8, "\trun down"@, false),
        (75u8, "\trun up"@, false),
        (76u8, "\trun right"@, false),
        (89u8, "\trun up & left"@, false),
        (85u8, "\trun up & right"@, false),
        (66u8, "\trun down & left"@, false),
        (78u8, "\trun down & right"@, false),
        (8u8, "\trun left until adjacent"@, false),
        (10u8, "\trun down until adjacent"@, false),
        (11u8, "\trun up until adjacent"@, false),
        (12u8, "\trun right until adjacent"@, false),
        (25u8, "\trun up & left until adjacent"@, false),
        (21u8, "\trun up & right until adjacent"@, false),
        (2u8, "\trun down & left until adjacent"@, false),
        (22u8, "\trun down & right until adjacent"@, false),
        (0u8, "\t<SHIFT><dir>: run that way"@, true),
        (0u8, "\t<CTRL><dir>: run till adjacent"@, true),
        (102u8, "<dir>\tfight till death or near death"@, true),
        (116u8, "<dir>\tthrow something"@, true),
        (109u8, "<dir>\tmove onto without picking up"@, true),
        (122u8, "<dir>\tzap a wand in a direction"@, true),
        (94u8, "<dir>\tidentify trap type"@, true),
        (115u8, "\tsearch for trap/secret door"@, true),
        (62u8, "\tgo down a staircase"@, true),
        (60u8, "\tgo up a staircase"@, true),
        (46u8, "\trest for a turn"@, true),
        (44u8, "\tpick something up"@, true),
        (105u8, "\tinventory"@, true),
        (73u8, "\tinventory single item"@, true),
        (113u8, "\tquaff potion"@, true),
        (114u8, "\tread scroll"@, true),
        (101u8, "\teat food"@, true),
        (119u8, "\twield a weapon"@, true),
        (87u8, "\twear armor"@, true),
        (84u8, "\ttake armor off"@, true),
        (80u8, "\tput on ring"@, true),
        (82u8, "\tremove ring"@, true),
        (100u8, "\tdrop object"@, true),
        (99u8, "\tcall object"@, true),
        (97u8, "\trepeat last command"@, true),
        (41u8, "\tprint current weapon"@, true),
        (93u8, "\tprint current armor"@, true),
        (61u8, "\tprint current rings"@, true),
        (64u8, "\tprint current stats"@, true),
        (68u8, "\trecall what's been discovered"@, true),
        (111u8, "\texamine/set options"@, true),
        (18u8, "\tredraw screen"@, true),
        (16u8, "\trepeat last message"@, true),
        (27u8, "\tcancel command"@, true),
        (83u8, "\tsave game"@, true),
        (81u8, "\tquit"@, true),
        (33u8, "\tshell escape"@, true),
        (70u8, "<dir>\tfight till either of you dies"@, true),
        (118u8, "\tprint version number"@, true),
    ]
}

/// Whether `v` holds exactly the help lines.
pub open spec fn is_help_table(v: Seq<HelpEntry>) -> bool {
    &&& v.len() == help_table().len()
    &&& forall|i: int|
        0 <= i < v.len() ==> (#[trigger] v[i]).key == help_table()[i].0 && v[i].text@ == help_table()[i].1
            && v[i].listed == help_table()[i].2
}

/// The help lines.
pub fn help_entries() -> (v: Vec<HelpEntry>)
    ensures
        is_help_table(v@),
{
    let mut v: Vec<HelpEntry> = Vec::new();
    v.push(HelpEntry { key: 63, text: "\tprints help", listed: true });
    v.push(HelpEntry { key: 47, text: "\tidentify object", listed: true });
    v.push(HelpEntry { key: 104, text: "\tleft", listed: true });
    v.push(HelpEntry { key: 106, text: "\tdown", listed: true });
    v.push(HelpEntry { key: 107, text: "\tup", listed: true });
    v.push(HelpEntry { key: 108, text: "\tright", listed: true });
    v.push(HelpEntry { key: 121, text: "\tup & left", listed: true });
    v.push(HelpEntry { key: 117, text: "\tup & right", listed: true });
    v.push(HelpEntry { key: 98, text: "\tdown & left", listed: true });
    v.push(HelpEntry { key: 110, text: "\tdown & right", listed: true });
    v.push(HelpEntry { key: 72, text: "\trun left", listed: false });
    v.push(HelpEntry { key: 74, text: "\trun down", listed: false });
    v.push(HelpEntry { key: 75, text: "\trun up", listed: false });
    v.push(HelpEntry { key: 76, text: "\trun right", listed: false });
    v.push(HelpEntry { key: 89, text: "\trun up & left", listed: false });
    v.push(HelpEntry { key: 85, text: "\trun up & right", listed: false });
    v.push(HelpEntry { key: 66, text: "\trun down & left", listed: false });
    v.push(HelpEntry { key: 78, text: "\trun down & right", listed: false });
    v.push(HelpEntry { key: 8, text: "\trun left until adjacent", listed: false });
    v.push(HelpEntry { key: 10, text: "\trun down until adjacent", listed: false });
    v.push(HelpEntry { key: 11, text: "\trun up until adjacent", listed: false });
    v.push(HelpEntry { key: 12, text: "\trun right until adjacent", listed: false });
    v.push(HelpEntry { key: 25, text: "\trun up & left until adjacent", listed: false });
    v.push(HelpEntry { key: 21, text: "\trun up & right until adjacent", listed: false });
    v.push(HelpEntry { key: 2, text: "\trun down & left until adjacent", listed: false });
    v.push(HelpEntry { key: 22, text: "\trun down & right until adjacent", listed: false });
    v.push(HelpEntry { key: 0, text: "\t<SHIFT><dir>: run that way", listed: true });
    v.push(HelpEntry { key: 0, text: "\t<CTRL><dir>: run till adjacent", listed: true });
    v.push(HelpEntry { key: 102, text: "<dir>\tfight till death or near death", listed: true });
    v.push(HelpEntry { key: 116, text: "<dir>\tthrow something", listed: true });
    v.push(HelpEntry { key: 109, text: "<dir>\tmove onto without picking up", listed: true });
    v.push(HelpEntry { key: 122, text: "<dir>\tzap a wand in a direction", listed: true });
    v.push(HelpEntry { key: 94, text: "<dir>\tidentify trap type", listed: true });
    v.push(HelpEntry { key: 115, text: "\tsearch for trap/secret door", listed: true });
    v.push(HelpEntry { key: 62, text: "\tgo down a staircase", listed: true });
    v.push(HelpEntry { key: 60, text: "\tgo up a staircase", listed: true });
    v.push(HelpEntry { key: 46, text: "\trest for a turn", listed: true });
    v.push(HelpEntry { key: 44, text: "\tpick something up", listed: true });
    v.push(HelpEntry { key: 105, text: "\tinventory", listed: true });
    v.push(HelpEntry { key: 73, text: "\tinventory single item", listed: true });
    v.push(HelpEntry { key: 113, text: "\tquaff potion", listed: true });
    v.push(HelpEntry { key: 114, text: "\tread scroll", listed: true });
    v.push(HelpEntry { key: 101, text: "\teat food", listed: true });
    v.push(HelpEntry { key: 119, text: "\twield a weapon", listed: true });
    v.push(HelpEntry { key: 87, text: "\twear armor", listed: true });
    v.push(HelpEntry { key: 84, text: "\ttake armor off", listed: true });
    v.push(HelpEntry { key: 80, text: "\tput on ring", listed: true });
    v.push(HelpEntry { key: 82, text: "\tremove ring", listed: true });
    v.push(HelpEntry { key: 100, text: "\tdrop object", listed: true });
    v.push(HelpEntry { key: 99, text: "\tcall object", listed: true });
    v.push(HelpEntry { key: 97, text: "\trepeat last command", listed: true });
    v.push(HelpEntry { key: 41, text: "\tprint current weapon", listed: true });
    v.push(HelpEntry { key: 93, text: "\tprint current armor", listed: true });
    v.push(HelpEntry { key: 61, text: "\tprint current rings", listed: true });
    v.push(HelpEntry { key: 64, text: "\tprint current stats", listed: true });
    v.push(HelpEntry { key: 68, text: "\trecall what's been discovered", listed: true });
    v.push(HelpEntry { key: 111, text: "\texamine/set options", listed: true });
    v.push(HelpEntry { key: 18, text: "\tredraw screen", listed: true });
    v.push(HelpEntry { key: 16, text: "\trepeat last message", listed: true });
    v.push(HelpEntry { key: 27, text: "\tcancel command", listed: true });
    v.push(HelpEntry { key: 83, text: "\tsave game", listed: true });
    v.push(HelpEntry { key: 81, text: "\tquit", listed: true });
    v.push(HelpEntry { key: 33, text: "\tshell escape", listed: true });
    v.push(HelpEntry { key: 70, text: "<dir>\tfight till either of you dies", listed: true });
    v.push(HelpEntry { key: 118, text: "\tprint version number", listed: true });
    assert(v@.len() == help_table().len());
    v
}

/// The index of the first help line for `key` in `v`, if any.
pub open spec fn first_help(v: Seq<HelpEntry>, key: u8, i: int) -> Option<int>
    decreases v.len() - i,
{
    if i < 0 || i >= v.len() {
        None
    } else if v[i].key == key {
        Some(i)
    } else {
        first_help(v, key, i + 1)
    }
}

/// The help line for the key `key`, if there is one (see `first_help`).
pub fn help_for(v: &Vec<HelpEntry>, key: u8) -> (r: Option<usize>)
    ensures
        match r {
            Some(i) => first_help(v@, key, 0) == Some(i as int),
            None => first_help(v@, key, 0) is None,
        },
{
    let mut i: usize = 0;
    while i < v.len()
        invariant
            i <= v@.len(),
            first_help(v@, key, i as int) == first_help(v@, key, 0),
        decreases v@.len() - i,
    {
        if v[i].key == key {
            return Some(i);
        }
        i = i + 1;
    }
    None
}

/// The rows the full list takes on a screen of `lines` lines: half the
/// lines it shows, rounded up, but no more than `lines - 1`.
pub open spec fn help_rows_of(listed: int, lines: int) -> int {
    let half = (listed + listed % 2) / 2;
    if half > lines - 1 { lines - 1 } else { half }
}

/// See `help_rows_of`.
pub fn help_rows(listed: i32, lines: i32) -> (rows: i32)
    requires
        0 <= listed < i32::MAX,
        lines > i32::MIN,
    ensures
        rows == help_rows_of(listed as int, lines as int),
{
    let n = if listed % 2 != 0 { listed + 1 } else { listed };
    let half = n / 2;
    if half > lines - 1 {
        lines - 1
    } else {
        half
    }
}

/// Where the `k`th shown help line goes with `rows` rows on a screen `cols`
/// columns wide: down the left half, then down the right half.
pub open spec fn help_cell_of(k: int, rows: int, cols: int) -> (int, int) {
    (k % rows, if k >= rows { cols / 2 } else { 0 })
}

/// See `help_cell_of`.
pub fn help_cell(k: i32, rows: i32, cols: i32) -> (c: (i32, i32))
    requires
        0 <= k,
        rows > 0,
        cols >= 0,
    ensures
        (c.0 as int, c.1 as int) == help_cell_of(k as int, rows as int, cols as int),
{
    (k % rows, if k >= rows { cols / 2 } else { 0 })
}

/// How many of the lines in `v` the full list shows.
pub open spec fn listed_count(v: Seq<HelpEntry>) -> int
    decreases v.len(),
{
    if v.len() == 0 {
        0
    } else {
        listed_count(v.drop_last()) + (if v.last().listed { 1int } else { 0int })
    }
}

/// See `listed_count`.
pub fn count_listed(v: &Vec<HelpEntry>) -> (n: i32)
    requires
        v@.len() < i32::MAX,
    ensures
        n == listed_count(v@),
{
    let mut n: i32 = 0;
    let mut i: usize = 0;
    while i < v.len()
        invariant
            i <= v@.len(),
            v@.len() < i32::MAX,
            n == listed_count(v@.subrange(0, i as int)),
            0 <= n <= i,
        decreases v@.len() - i,
    {
        assert(v@.subrange(0, i + 1).drop_last() =~= v@.subrange(0, i as int));
        if v[i].listed {
            n = n + 1;
        }
        i = i + 1;
    }
    assert(v@.subrange(0, v@.len() as int) =~= v@);
    n
}

} // verus!
