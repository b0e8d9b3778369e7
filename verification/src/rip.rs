//! The death screen: tombstone art, the name of what killed the hero, and
//! the top-ten score table.

use vstd::prelude::*;
use vstd::string::StringSliceAdditionalSpecFns;

use vstd::utf8::{encode_utf8, is_ascii_chars, is_ascii_chars_encode_utf8};

use crate::format::{decimal, decimal_chars, field, lemma_decimal_i32, push_chars, push_field};
use crate::geom::IVec2;
use crate::rnd::{rnd, rnd_result, Dice};
use crate::text::{first_char, push_text};
use crate::ui::terminal::{blank_screen, cursor_ok, same_settings, text_effect, ScreenCell, Terminal};

verus! {

/// The tombstone drawn on the death screen, line by line.
pub open spec fn tombstone() -> Seq<Seq<char>> {
    seq![
        "                       __________\n"@,
        "                      /          \\\n"@,
        "                     /    REST    \\\n"@,
        "                    /      IN      \\\n"@,
        "                   /     PEACE      \\\n"@,
        "                  /                  \\\n"@,
        "                  |                  |\n"@,
        "                  |                  |\n"@,
        "                  |   killed by a    |\n"@,
        "                  |                  |\n"@,
        "                  |       1980       |\n"@,
        "                 *|     *  *  *      | *\n"@,
        "         ________)/\\\\_//(\\/(/\\)/\\//\\/|_)_______\n"@,
    ]
}

/// The tombstone artwork used by the death screen.
pub fn rip_art() -> (lines: Vec<&'static str>)
    ensures
        lines@.len() == tombstone().len(),
        forall|i: int| 0 <= i < lines@.len() ==> #[trigger] lines@[i]@ == tombstone()[i],
{
    vec![
        "                       __________\n",
        "                      /          \\\n",
        "                     /    REST    \\\n",
        "                    /      IN      \\\n",
        "                   /     PEACE      \\\n",
        "                  /                  \\\n",
        "                  |                  |\n",
        "                  |                  |\n",
        "                  |   killed by a    |\n",
        "                  |                  |\n",
        "                  |       1980       |\n",
        "                 *|     *  *  *      | *\n",
        "         ________)/\\\\_//(\\/(/\\)/\\//\\/|_)_______\n",
    ]
}

/// The banner shown to a hero who escapes the dungeon with the amulet,
/// line by line.
pub open spec fn winner_banner() -> Seq<Seq<char>> {
    seq![
        "                                                               \n"@,
        "  @   @               @   @           @          @@@  @     @  \n"@,
        "  @   @               @@ @@           @           @   @     @  \n"@,
        "  @   @  @@@  @   @   @ @ @  @@@   @@@@  @@@      @  @@@    @  \n"@,
        "   @@@@ @   @ @   @   @   @     @ @   @ @   @     @   @     @  \n"@,
        "      @ @   @ @   @   @   @  @@@@ @   @ @@@@@     @   @     @  \n"@,
        "  @   @ @   @ @  @@   @   @ @   @ @   @ @         @   @  @     \n"@,
        "   @@@   @@@   @@ @   @   @  @@@@  @@@@  @@@     @@@   @@   @  \n"@,
        "                                                               \n"@,
        "     Congratulations, you have made it to the light of day!    \n"@,
    ]
}

/// The banner shown to a hero who escapes the dungeon with the amulet.
pub fn winner_art() -> (lines: Vec<&'static str>)
    ensures
        lines@.len() == winner_banner().len(),
        forall|i: int| 0 <= i < lines@.len() ==> #[trigger] lines@[i]@ == winner_banner()[i],
{
    vec![
        "                                                               \n",
        "  @   @               @   @           @          @@@  @     @  \n",
        "  @   @               @@ @@           @           @   @     @  \n",
        "  @   @  @@@  @   @   @ @ @  @@@   @@@@  @@@      @  @@@    @  \n",
        "   @@@@ @   @ @   @   @   @     @ @   @ @   @     @   @     @  \n",
        "      @ @   @ @   @   @   @  @@@@ @   @ @@@@@     @   @     @  \n",
        "  @   @ @   @ @  @@   @   @ @   @ @   @ @         @   @  @     \n",
        "   @@@   @@@   @@ @   @   @  @@@@  @@@@  @@@     @@@   @@   @  \n",
        "                                                               \n",
        "     Congratulations, you have made it to the light of day!    \n",
    ]
}

/// What an item of kind `kind` sells for when the hero gets home: two
/// pieces of gold a ration of food, nothing for anything else.
pub open spec fn worth_of(kind: i32, count: int) -> int {
    let w = if kind == 58 { 2 * count } else { 0 };
    if w < 0 { 0 } else { w }
}

/// See `worth_of`.
pub fn item_worth(kind: i32, count: i32) -> (w: i32)
    requires
        kind == 58 ==> i32::MIN <= 2 * count <= i32::MAX,
    ensures
        w == worth_of(kind, count as int),
{
    let w = if kind == 58 { 2 * count } else { 0 };
    if w < 0 {
        0
    } else {
        w
    }
}

/// The line of the winner's sale for the entry with letter `letter` (shown
/// by its code, as a signed byte), its worth right-aligned in five columns,
/// and its name.
pub open spec fn worth_line_text(letter: u8, worth: int, name: Seq<char>) -> Seq<char> {
    decimal((letter as i8) as int) + " ) "@ + field(decimal(worth), 5, true) + "  "@ + name + "\n"@
}

/// See `worth_line_text`.
pub fn worth_line(letter: u8, worth: i32, name: &str) -> (s: String)
    ensures
        s@ == worth_line_text(letter, worth as int, name@),
{
    let mut s = String::new();
    #[verifier::truncate]
    let code = letter as i8;
    let d = decimal_chars(code as i64);
    push_chars(&mut s, &d);
    push_text(&mut s, " ) ");
    let w = decimal_chars(worth as i64);
    push_field(&mut s, &w, 5, true);
    push_text(&mut s, "  ");
    push_text(&mut s, name);
    push_text(&mut s, "\n");
    s
}

/// The last line of the winner's sale: the gold he came with.
pub open spec fn gold_line_text(purse: int) -> Seq<char> {
    "   "@ + field(decimal(purse), 5, true) + "  Gold Pieces          "@
}

/// See `gold_line_text`.
pub fn gold_line(purse: i32) -> (s: String)
    ensures
        s@ == gold_line_text(purse as int),
{
    let mut s = String::new();
    push_text(&mut s, "   ");
    let d = decimal_chars(purse as i64);
    push_field(&mut s, &d, 5, true);
    push_text(&mut s, "  Gold Pieces          ");
    s
}

/// The column at which a text of `len` bytes starts when centred on the
/// tombstone, whose centre is column 28.
pub open spec fn center_col(len: int) -> int {
    28 - (len + 1) / 2
}

/// The column at which `text` starts when centred on the tombstone.
pub fn center(text: &str) -> (col: i32)
    requires
        text.spec_bytes().len() < i32::MAX,
    ensures
        col == center_col(text.spec_bytes().len() as int),
{
    let n = text.len() as i32;
    28 - (n + 1) / 2
}

/// The names of the twenty-six monsters, `A` to `Z`.
pub open spec fn monster_name(i: int) -> Seq<char> {
    if i == 0 { "aquator"@ }
    else if i == 1 { "bat"@ }
    else if i == 2 { "centaur"@ }
    else if i == 3 { "dragon"@ }
    else if i == 4 { "emu"@ }
    else if i == 5 { "venus flytrap"@ }
    else if i == 6 { "griffin"@ }
    else if i == 7 { "hobgoblin"@ }
    else if i == 8 { "ice monster"@ }
    else if i == 9 { "jabberwock"@ }
    else if i == 10 { "kestrel"@ }
    else if i == 11 { "leprechaun"@ }
    else if i == 12 { "medusa"@ }
    else if i == 13 { "nymph"@ }
    else if i == 14 { "orc"@ }
    else if i == 15 { "phantom"@ }
    else if i == 16 { "quagga"@ }
    else if i == 17 { "rattlesnake"@ }
    else if i == 18 { "snake"@ }
    else if i == 19 { "troll"@ }
    else if i == 20 { "black unicorn"@ }
    else if i == 21 { "vampire"@ }
    else if i == 22 { "wraith"@ }
    else if i == 23 { "xeroc"@ }
    else if i == 24 { "yeti"@ }
    else { "zombie"@ }
}

/// The name of the monster shown by the capital letter `letter`.
pub fn monster_name_of(letter: u8) -> (name: &'static str)
    requires
        65 <= letter <= 90,
    ensures
        name@ == monster_name(letter - 65),
{
    let i = letter - 65;
    if i == 0 { "aquator" }
    else if i == 1 { "bat" }
    else if i == 2 { "centaur" }
    else if i == 3 { "dragon" }
    else if i == 4 { "emu" }
    else if i == 5 { "venus flytrap" }
    else if i == 6 { "griffin" }
    else if i == 7 { "hobgoblin" }
    else if i == 8 { "ice monster" }
    else if i == 9 { "jabberwock" }
    else if i == 10 { "kestrel" }
    else if i == 11 { "leprechaun" }
    else if i == 12 { "medusa" }
    else if i == 13 { "nymph" }
    else if i == 14 { "orc" }
    else if i == 15 { "phantom" }
    else if i == 16 { "quagga" }
    else if i == 17 { "rattlesnake" }
    else if i == 18 { "snake" }
    else if i == 19 { "troll" }
    else if i == 20 { "black unicorn" }
    else if i == 21 { "vampire" }
    else if i == 22 { "wraith" }
    else if i == 23 { "xeroc" }
    else if i == 24 { "yeti" }
    else { "zombie" }
}

/// What a death cause is called: a capital letter is that monster; `a`, `b`,
/// `d`, `h` and `s` are an arrow, a bolt, a dart, hypothermia and
/// starvation; anything else is Wally the Wonder Badger.
pub open spec fn kill_noun(cause: u8) -> Seq<char> {
    if 65 <= cause <= 90 { monster_name(cause - 65) }
    else if cause == 97 { "arrow"@ }
    else if cause == 98 { "bolt"@ }
    else if cause == 100 { "dart"@ }
    else if cause == 104 { "hypothermia"@ }
    else if cause == 115 { "starvation"@ }
    else { "Wally the Wonder Badger"@ }
}

/// Whether the name of a death cause takes an article: monsters, arrows,
/// bolts and darts do.
pub open spec fn takes_article(cause: u8) -> bool {
    (65 <= cause <= 90) || cause == 97 || cause == 98 || cause == 100
}

/// An ASCII vowel, either case.
pub open spec fn is_vowel(c: char) -> bool {
    c == 'a' || c == 'A' || c == 'e' || c == 'E' || c == 'i' || c == 'I' || c == 'o'
        || c == 'O' || c == 'u' || c == 'U'
}

/// The killer's name as the death screen shows it; with `article`, a name
/// that takes one is preceded by `a ` or, before a vowel, `an `.
pub open spec fn killname_text(cause: u8, article: bool) -> Seq<char> {
    let noun = kill_noun(cause);
    if article && takes_article(cause) {
        "a"@ + (if noun.len() > 0 && is_vowel(noun[0]) { "n"@ } else { ""@ }) + " "@ + noun
    } else {
        noun
    }
}

fn kill_noun_of(cause: u8) -> (noun: &'static str)
    ensures
        noun@ == kill_noun(cause),
{
    if 65 <= cause && cause <= 90 {
        monster_name_of(cause)
    } else if cause == 97 {
        "arrow"
    } else if cause == 98 {
        "bolt"
    } else if cause == 100 {
        "dart"
    } else if cause == 104 {
        "hypothermia"
    } else if cause == 115 {
        "starvation"
    } else {
        "Wally the Wonder Badger"
    }
}

/// The name of what killed the hero (`cause` is a monster letter or one of
/// the special causes), with an indefinite article when `article` is set.
pub fn killname(cause: u8, article: bool) -> (name: String)
    ensures
        name@ == killname_text(cause, article),
{
    let noun = kill_noun_of(cause);
    if article && (65 <= cause && cause <= 90 || cause == 97 || cause == 98 || cause == 100) {
        let first = first_char(noun);
        let vowel = match first {
            Some(c) => c == 'a' || c == 'A' || c == 'e' || c == 'E' || c == 'i' || c == 'I'
                || c == 'o' || c == 'O' || c == 'u' || c == 'U',
            None => false,
        };
        let mut name = String::new();
        push_text(&mut name, "a");
        if vowel {
            push_text(&mut name, "n");
        }
        proof {
            reveal_strlit("");
        }
        push_text(&mut name, " ");
        push_text(&mut name, noun);
        assert(name@ =~= killname_text(cause, article));
        name
    } else {
        noun.to_owned()
    }
}

/// The causes of death the demo death screen picks from: every monster,
/// an arrow, a bolt, hypothermia, a dart, starvation, a blank and a zero
/// byte, in that order.
pub open spec fn demo_cause(i: int) -> u8 {
    if 0 <= i < 26 { (65 + i) as u8 }
    else if i == 26 { 97 }
    else if i == 27 { 98 }
    else if i == 28 { 104 }
    else if i == 29 { 100 }
    else if i == 30 { 115 }
    else if i == 31 { 32 }
    else { 0 }
}

/// Pick a random cause of death for the demo death screen.
pub fn death_monst(dice: &mut Dice) -> (cause: u8)
    ensures
        exists|i: int| 0 <= i < 33 && cause == #[trigger] demo_cause(i),
{
    let r = rnd(dice, 33);
    let i = (r % 33) as u8;
    let cause = if i < 26 { 65 + i }
    else if i == 26 { 97 }
    else if i == 27 { 98 }
    else if i == 28 { 104 }
    else if i == 29 { 100 }
    else if i == 30 { 115 }
    else if i == 31 { 32 }
    else { 0 };
    assert(cause == demo_cause(i as int));
    cause
}

/// The longest name a score entry keeps, in bytes.
pub const MAX_NAME: usize = 1023;

/// One line of the top-ten table.
#[derive(Clone, Debug)]
pub struct ScoreEntry {
    pub uid: u32,
    pub score: i32,
    pub flags: u32,
    pub monster: u16,
    pub name: Vec<u8>,
    pub level: i32,
    pub time: u32,
}

/// Where a new score of `amount` enters the table, scanning from `k`: at the
/// first entry it beats, unless an entry of the same player (neither of them
/// a win, and only one entry per player kept) comes first, in which case it
/// does not enter (the table's length).
pub open spec fn insert_pos(t: Seq<ScoreEntry>, amount: i32, flags: i32, uid: u32, allscore: bool, k: int) -> int
    decreases t.len() - k,
{
    if k >= t.len() || k < 0 {
        t.len() as int
    } else if amount > t[k].score {
        k
    } else if !allscore && flags != 2 && t[k].uid == uid && t[k].flags != 2 {
        t.len() as int
    } else {
        insert_pos(t, amount, flags, uid, allscore, k + 1)
    }
}

/// Scores never increase down the table.
pub open spec fn scores_descending(t: Seq<ScoreEntry>) -> bool {
    forall|i: int, j: int| 0 <= i < j < t.len() ==> t[i].score >= t[j].score
}

proof fn lemma_insert_pos(t: Seq<ScoreEntry>, amount: i32, flags: i32, uid: u32, allscore: bool, k: int)
    requires
        0 <= k <= t.len(),
    ensures
        k <= insert_pos(t, amount, flags, uid, allscore, k) <= t.len(),
        insert_pos(t, amount, flags, uid, allscore, k) < t.len() ==> amount > t[insert_pos(t, amount, flags, uid, allscore, k)].score,
        insert_pos(t, amount, flags, uid, allscore, k) < t.len() ==> forall|j: int|
            k <= j < insert_pos(t, amount, flags, uid, allscore, k) ==> amount <= #[trigger] t[j].score,
    decreases t.len() - k,
{
    if k < t.len() && !(amount > t[k].score) && !(!allscore && flags != 2 && t[k].uid == uid && t[k].flags != 2) {
        lemma_insert_pos(t, amount, flags, uid, allscore, k + 1);
    }
}

/// The first `MAX_NAME` bytes of `name`.
pub open spec fn kept_name(name: Seq<u8>) -> Seq<u8> {
    if name.len() > MAX_NAME { name.subrange(0, MAX_NAME as int) } else { name }
}

fn keep_name(name: &[u8]) -> (v: Vec<u8>)
    ensures
        v@ == kept_name(name@),
{
    let n = if name.len() > MAX_NAME { MAX_NAME } else { name.len() };
    let mut v: Vec<u8> = Vec::new();
    let mut i: usize = 0;
    while i < n
        invariant
            n <= name@.len(),
            n == (if name@.len() > MAX_NAME { MAX_NAME as int } else { name@.len() as int }),
            i <= n,
            v@ == name@.subrange(0, i as int),
        decreases n - i,
    {
        v.push(name[i]);
        i = i + 1;
        assert(v@ =~= name@.subrange(0, i as int));
    }
    assert(v@ =~= kept_name(name@));
    v
}

/// Enter a finished game into the top-ten table.
///
/// The score of `amount` goes in above the first entry it beats; the entries
/// below move down one place and the last one drops off. Unless `allscore`
/// is set or the game was won (`flags == 2`), an earlier entry of the same
/// player that is not a win keeps the new score out. The new entry records
/// the player, the score, `flags`, the cause of death, the player's name
/// (cut to `MAX_NAME` bytes) and `max_level` for a win or `level` otherwise;
/// its time is that of the entry it displaced. Returns the place taken.
pub fn insert_score(
    table: &mut Vec<ScoreEntry>,
    amount: i32,
    flags: i32,
    monster: u8,
    uid: u32,
    name: &[u8],
    level: i32,
    max_level: i32,
    allscore: bool,
) -> (placed: Option<usize>)
    ensures
        ({
            let p = insert_pos(old(table)@, amount, flags, uid, allscore, 0);
            &&& p < old(table)@.len() <==> placed == Some(p as usize)
            &&& placed is None ==> final(table)@ == old(table)@
            &&& placed is Some ==> {
                &&& final(table)@.len() == old(table)@.len()
                &&& forall|i: int| 0 <= i < p ==> #[trigger] final(table)@[i] == old(table)@[i]
                &&& forall|i: int| p < i < old(table)@.len() ==> #[trigger] final(table)@[i] == old(table)@[i - 1]
                &&& final(table)@[p].uid == uid
                &&& final(table)@[p].score == amount
                &&& final(table)@[p].flags == flags as u32
                &&& final(table)@[p].monster == monster as u16
                &&& final(table)@[p].name@ == kept_name(name@)
                &&& final(table)@[p].level == (if flags == 2 { max_level } else { level })
                &&& final(table)@[p].time == old(table)@[p].time
            }
        }),
        scores_descending(old(table)@) ==> scores_descending(final(table)@),
{
    let ghost t = table@;
    let n = table.len();
    let mut k: usize = 0;
    let mut pos: usize = n;
    proof {
        lemma_insert_pos(t, amount, flags, uid, allscore, 0);
    }
    while k < n
        invariant_except_break
            k <= n,
            pos == n,
            insert_pos(t, amount, flags, uid, allscore, 0) == insert_pos(t, amount, flags, uid, allscore, k as int),
        invariant
            n == t.len(),
            table@ == t,
        ensures
            pos == insert_pos(t, amount, flags, uid, allscore, 0),
        decreases n - k,
    {
        if amount > table[k].score {
            pos = k;
            break;
        }
        if !allscore && flags != 2 && table[k].uid == uid && table[k].flags != 2 {
            pos = n;
            break;
        }
        k = k + 1;
    }
    if pos >= n {
        return None;
    }
    let displaced_time = table[pos].time;
    #[verifier::truncate]
    let stored_flags = flags as u32;
    let entry = ScoreEntry {
        uid,
        score: amount,
        flags: stored_flags,
        monster: monster as u16,
        name: keep_name(name),
        level: if flags == 2 { max_level } else { level },
        time: displaced_time,
    };
    table.insert(pos, entry);
    table.pop();
    proof {
        let u = table@;
        assert(u.len() == t.len());
        assert forall|i: int| 0 <= i < pos implies #[trigger] u[i] == t[i] by {}
        assert forall|i: int| pos < i < t.len() implies #[trigger] u[i] == t[i - 1] by {}
        if scores_descending(t) {
            assert forall|i: int, j: int| 0 <= i < j < u.len() implies u[i].score >= u[j].score by {
                if j == pos {
                    assert(u[i] == t[i]);
                } else if i == pos {
                    assert(u[j] == t[j - 1]);
                    assert(t[pos as int].score >= t[j - 1].score);
                } else if i < pos {
                    if j < pos {
                        assert(u[j] == t[j]);
                    } else {
                        assert(u[j] == t[j - 1]);
                    }
                } else {
                    assert(u[i] == t[i - 1]);
                    assert(u[j] == t[j - 1]);
                }
            }
        }
    }
    Some(pos)
}

/// How a game ended, as the score table words it.
pub open spec fn reason_text(flags: u32) -> Seq<char> {
    if flags == 1 { "quit"@ }
    else if flags == 2 { "A total winner"@ }
    else if flags == 3 { "killed with Amulet"@ }
    else { "killed"@ }
}

/// The words for how a game ended (`flags` of a score entry).
pub fn death_reason(flags: u32) -> (r: &'static str)
    ensures
        r@ == reason_text(flags),
{
    if flags == 1 { "quit" }
    else if flags == 2 { "A total winner" }
    else if flags == 3 { "killed with Amulet" }
    else { "killed" }
}

/// Whether a score line names the killer: for deaths, with or without the
/// Amulet.
pub fn names_killer(flags: u32) -> (b: bool)
    ensures
        b == (flags == 0 || flags == 3),
{
    flags == 0 || flags == 3
}

/// How many lines of the table are shown: the entries before the first
/// empty one (score `0`).
pub fn shown_scores(table: &Vec<ScoreEntry>) -> (n: usize)
    ensures
        n <= table@.len(),
        forall|i: int| 0 <= i < n ==> #[trigger] table@[i].score != 0,
        n < table@.len() ==> table@[n as int].score == 0,
{
    let mut n: usize = 0;
    while n < table.len()
        invariant
            n <= table@.len(),
            forall|i: int| 0 <= i < n ==> #[trigger] table@[i].score != 0,
        decreases table@.len() - n,
    {
        if table[n].score == 0 {
            return n;
        }
        n = n + 1;
    }
    n
}

/// What a hero who dies with `purse` gold keeps: a tenth (rounded toward
/// zero) goes.
pub fn death_purse(purse: i32) -> (kept: i32)
    ensures
        kept == purse - (if purse >= 0 { purse / 10 } else { -((-purse) / 10) }),
{
    purse - purse / 10
}

/// The screen and cursor after the first `n` lines of the tombstone are
/// written from `cur`.
pub open spec fn art_effect(grid: Seq<Seq<ScreenCell>>, cur: IVec2, so: bool, n: int) -> (Seq<Seq<ScreenCell>>, IVec2)
    decreases n,
{
    if n <= 0 {
        (grid, cur)
    } else {
        let (g, c) = art_effect(grid, cur, so, n - 1);
        text_effect(g, c, so, encode_utf8(tombstone()[n - 1]))
    }
}

/// What is written after the tombstone's "killed by a": `n` when the
/// killer's name starts with a vowel, then the name.
pub open spec fn article_line(killer: Seq<char>) -> Seq<char> {
    (if killer.len() > 0 && is_vowel(killer[0]) { seq!['n'] } else { Seq::<char>::empty() }) + killer
}

/// The death screen of a hero called `name` with `purse` gold, killed by
/// `cause`: the tombstone on a cleared screen, the killer's name centred on
/// row 17 (with its article on row 16, or a blank there for starvation and
/// cold), the hero's name centred on row 14, the gold centred on row 15 and
/// the year on row 18.
pub open spec fn tombstone_screen(so: bool, cause: u8, name: Seq<char>, purse: int) -> Seq<Seq<ScreenCell>> {
    let killer = killname_text(cause, false);
    let kb = encode_utf8(killer);
    let nb = encode_utf8(name);
    let gb = encode_utf8(decimal(purse) + " Au"@);
    let s0 = art_effect(blank_screen(), IVec2 { x: 0, y: 0 }, so, tombstone().len() as int).0;
    let s1 = text_effect(s0, IVec2 { x: center_col(kb.len() as int) as i32, y: 17 }, so, kb).0;
    let s2 = if cause == 115 || cause == 104 {
        text_effect(s1, IVec2 { x: 32, y: 16 }, so, encode_utf8(" "@)).0
    } else {
        text_effect(s1, IVec2 { x: 33, y: 16 }, so, encode_utf8(article_line(killer))).0
    };
    let s3 = text_effect(s2, IVec2 { x: center_col(nb.len() as int) as i32, y: 14 }, so, nb).0;
    let s4 = text_effect(s3, IVec2 { x: center_col(gb.len() as int) as i32, y: 15 }, so, gb).0;
    text_effect(s4, IVec2 { x: 26, y: 18 }, so, encode_utf8("1900"@)).0
}

/// Draw the death screen (see `tombstone_screen`); `killer` is the name of
/// the cause of death.
pub fn draw_tombstone(term: &mut Terminal, cause: u8, killer: &str, name: &str, purse: i32)
    requires
        old(term).wf(),
        killer@ == killname_text(cause, false),
        killer.spec_bytes().len() < i32::MAX,
        name.spec_bytes().len() < i32::MAX,
    ensures
        final(term).wf(),
        same_settings(final(term), old(term)),
        final(term).screen() == tombstone_screen(old(term).spec_standout(), cause, name@, purse as int),
{
    let ghost so = term.spec_standout();
    term.clear();
    let art = rip_art();
    let mut i: usize = 0;
    while i < art.len()
        invariant
            art@.len() == tombstone().len(),
            forall|k: int| 0 <= k < art@.len() ==> #[trigger] art@[k]@ == tombstone()[k],
            i <= art@.len(),
            term.wf(),
            same_settings(term, old(term)),
            so == old(term).spec_standout(),
            cursor_ok(term.spec_cursor()),
            (term.screen(), term.spec_cursor()) == art_effect(blank_screen(), IVec2 { x: 0, y: 0 }, so, i as int),
        decreases art@.len() - i,
    {
        term.write_text(art[i]);
        i = i + 1;
    }
    term.write_text_at(IVec2 { x: center(killer), y: 17 }, killer);
    if cause == 115 || cause == 104 {
        term.write_text_at(IVec2 { x: 32, y: 16 }, " ");
    } else {
        let vowel = match first_char(killer) {
            Some(c) => c == 'a' || c == 'A' || c == 'e' || c == 'E' || c == 'i' || c == 'I'
                || c == 'o' || c == 'O' || c == 'u' || c == 'U',
            None => false,
        };
        let mut phrase = String::new();
        if vowel {
            push_text(&mut phrase, "n");
            proof {
                reveal_strlit("n");
            }
        }
        push_text(&mut phrase, killer);
        assert(phrase@ =~= article_line(killer@));
        term.write_text_at(IVec2 { x: 33, y: 16 }, phrase.as_str());
    }
    term.write_text_at(IVec2 { x: center(name), y: 14 }, name);
    let mut gold = String::new();
    push_chars(&mut gold, &decimal_chars(purse as i64));
    push_text(&mut gold, " Au");
    proof {
        reveal_strlit(" Au");
        lemma_decimal_i32(purse as int);
        let d = decimal(purse as int);
        assert(gold@ =~= d + " Au"@);
        assert forall|k: int| 0 <= k < gold@.len() implies '\0' <= #[trigger] gold@[k] <= '\u{7f}' by {
            if k < d.len() {
                assert(gold@[k] == d[k]);
                assert('0' <= d[k] <= '9' || d[k] == '-');
            } else {
                assert(" Au"@ =~= seq![' ', 'A', 'u']);
                assert(gold@[k] == " Au"@[k - d.len()]);
            }
        }
        assert(is_ascii_chars(gold@));
        is_ascii_chars_encode_utf8(gold@);
    }
    term.write_text_at(IVec2 { x: center(gold.as_str()), y: 15 }, gold.as_str());
    term.write_text_at(IVec2 { x: 26, y: 18 }, "1900");
}

/// The one-line death notice shown when tombstones are off: the killer
/// (with `a ` or `an ` unless the hero starved or froze) and the gold.
pub open spec fn death_line_text(cause: u8, killer: Seq<char>, purse: int) -> Seq<char> {
    let who = if cause != 115 && cause != 104 {
        (if killer.len() > 0 && is_vowel(killer[0]) { "an "@ } else { "a "@ }) + killer
    } else {
        killer
    };
    who + " with "@ + decimal(purse) + " gold"@
}

/// The screen with the one-line death notice: `Killed by ` at the start of
/// the bottom row of a cleared screen, then the notice.
pub open spec fn death_line_screen(so: bool, cause: u8, purse: int) -> Seq<Seq<ScreenCell>> {
    let (g, c) = text_effect(blank_screen(), IVec2 { x: 0, y: 23 }, so, encode_utf8("Killed by "@));
    text_effect(g, c, so, encode_utf8(death_line_text(cause, killname_text(cause, false), purse))).0
}

/// Show the one-line death notice (see `death_line_screen`); `killer` is
/// the name of the cause of death.
pub fn draw_death_line(term: &mut Terminal, cause: u8, killer: &str, purse: i32)
    requires
        old(term).wf(),
        killer@ == killname_text(cause, false),
    ensures
        final(term).wf(),
        same_settings(final(term), old(term)),
        final(term).screen() == death_line_screen(old(term).spec_standout(), cause, purse as int),
{
    term.clear();
    term.write_text_at(IVec2 { x: 0, y: 23 }, "Killed by ");
    let mut line = String::new();
    if cause != 115 && cause != 104 {
        let vowel = match first_char(killer) {
            Some(c) => c == 'a' || c == 'A' || c == 'e' || c == 'E' || c == 'i' || c == 'I'
                || c == 'o' || c == 'O' || c == 'u' || c == 'U',
            None => false,
        };
        if vowel {
            push_text(&mut line, "an ");
        } else {
            push_text(&mut line, "a ");
        }
    }
    push_text(&mut line, killer);
    push_text(&mut line, " with ");
    push_chars(&mut line, &decimal_chars(purse as i64));
    push_text(&mut line, " gold");
    assert(line@ =~= death_line_text(cause, killer@, purse as int));
    term.write_text(line.as_str());
}

/// Where a score enters the table: above the first entry it beats and below
/// every entry it does not beat; with `allscore` or for a win it enters
/// exactly when it beats some entry; otherwise a player's earlier entry
/// that is not a win keeps a lower score of his out, and no entry above the
/// new one is such an entry.
pub proof fn law_score_place(t: Seq<ScoreEntry>, amount: i32, flags: i32, uid: u32, allscore: bool)
    ensures
        ({
            let p = insert_pos(t, amount, flags, uid, allscore, 0);
            &&& 0 <= p <= t.len()
            &&& p < t.len() ==> amount > t[p].score && forall|j: int| 0 <= j < p ==> amount <= #[trigger] t[j].score
            &&& (allscore || flags == 2) ==> (p < t.len() <==> exists|i: int| 0 <= i < t.len() && amount > #[trigger] t[i].score)
            &&& p < t.len() && !allscore && flags != 2 ==> forall|j: int| 0 <= j < p ==> !(#[trigger] t[j].uid == uid && t[j].flags != 2)
        }),
{
    lemma_insert_pos(t, amount, flags, uid, allscore, 0);
    lemma_insert_pos_more(t, amount, flags, uid, allscore, 0);
}

proof fn lemma_insert_pos_more(t: Seq<ScoreEntry>, amount: i32, flags: i32, uid: u32, allscore: bool, k: int)
    requires
        0 <= k <= t.len(),
    ensures
        (allscore || flags == 2) ==> (insert_pos(t, amount, flags, uid, allscore, k) < t.len()
            <==> exists|i: int| k <= i < t.len() && amount > #[trigger] t[i].score),
        insert_pos(t, amount, flags, uid, allscore, k) < t.len() && !allscore && flags != 2 ==> forall|j: int|
            k <= j < insert_pos(t, amount, flags, uid, allscore, k) ==> !(#[trigger] t[j].uid == uid && t[j].flags != 2),
    decreases t.len() - k,
{
    if k < t.len() && !(amount > t[k].score) && !(!allscore && flags != 2 && t[k].uid == uid && t[k].flags != 2) {
        lemma_insert_pos_more(t, amount, flags, uid, allscore, k + 1);
        if exists|i: int| k <= i < t.len() && amount > #[trigger] t[i].score {
            let i = choose|i: int| k <= i < t.len() && amount > #[trigger] t[i].score;
            assert(i != k);
        }
    }
}

} // verus!
