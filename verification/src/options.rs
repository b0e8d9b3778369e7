//! Game options and the option string (`ROGUEOPTS`) that sets them.

use vstd::prelude::*;

verus! {

/// The game's options.
#[derive(Clone, Debug)]
pub struct GameOptions {
    pub terse: bool,
    /// Flush typeahead during battle.
    pub flush: bool,
    /// Show the position only at the end of a run.
    pub jump: bool,
    /// Show the lamp-illuminated floor.
    pub see_floor: bool,
    /// Follow turnings in passageways.
    pub passgo: bool,
    /// Print a tombstone when killed.
    pub tombstone: bool,
    /// Inventory style: 0 overwrite, 1 slow, 2 clear.
    pub inv_type: i32,
    pub name: Vec<u8>,
    pub fruit: Vec<u8>,
    pub file_name: Vec<u8>,
}

/// The options as plain values: the six switches (in the order terse,
/// flush, jump, seefloor, passgo, tombstone), the inventory style and the
/// three texts (name, fruit, save file).
pub struct OptionsView {
    pub switches: Seq<bool>,
    pub inv_type: i32,
    pub texts: Seq<Seq<u8>>,
}

impl GameOptions {
    pub open spec fn view(&self) -> OptionsView {
        OptionsView {
            switches: seq![self.terse, self.flush, self.jump, self.see_floor, self.passgo, self.tombstone],
            inv_type: self.inv_type,
            texts: seq![self.name@, self.fruit@, self.file_name@],
        }
    }

    /// The options a game starts with: see the floor, print a tombstone,
    /// overwrite-style inventory, and `slime-mold` for fruit.
    pub fn new() -> (o: GameOptions)
        ensures
            o@.switches == seq![false, false, false, true, false, true],
            o@.inv_type == 0,
            o@.texts == seq![Seq::<u8>::empty(), slime_mold(), Seq::<u8>::empty()],
    {
        let fruit: Vec<u8> = vec![115u8, 108, 105, 109, 101, 45, 109, 111, 108, 100];
        let o = GameOptions {
            terse: false,
            flush: false,
            jump: false,
            see_floor: true,
            passgo: false,
            tombstone: true,
            inv_type: 0,
            name: Vec::new(),
            fruit,
            file_name: Vec::new(),
        };
        assert(o@.texts =~= seq![Seq::<u8>::empty(), slime_mold(), Seq::<u8>::empty()]);
        o
    }
}

/// The default fruit, `slime-mold`.
pub open spec fn slime_mold() -> Seq<u8> {
    seq![115u8, 108, 105, 109, 101, 45, 109, 111, 108, 100]
}

/// The name of option `k`: the six switches, then `inven`, `name`, `fruit`
/// and `file`.
pub open spec fn option_name(k: int) -> Seq<u8> {
    if k == 0 { seq![116u8, 101, 114, 115, 101] }
    else if k == 1 { seq![102u8, 108, 117, 115, 104] }
    else if k == 2 { seq![106u8, 117, 109, 112] }
    else if k == 3 { seq![115u8, 101, 101, 102, 108, 111, 111, 114] }
    else if k == 4 { seq![112u8, 97, 115, 115, 103, 111] }
    else if k == 5 { seq![116u8, 111, 109, 98, 115, 116, 111, 110, 101] }
    else if k == 6 { seq![105u8, 110, 118, 101, 110] }
    else if k == 7 { seq![110u8, 97, 109, 101] }
    else if k == 8 { seq![102u8, 114, 117, 105, 116] }
    else { seq![102u8, 105, 108, 101] }
}

/// The names of the inventory styles: `Overwrite`, `Slow`, `Clear`.
pub open spec fn inv_style_name(k: int) -> Seq<u8> {
    if k == 0 { seq![79u8, 118, 101, 114, 119, 114, 105, 116, 101] }
    else if k == 1 { seq![83u8, 108, 111, 119] }
    else { seq![67u8, 108, 101, 97, 114] }
}

/// The byte at `i`, or the terminating zero past the end.
pub open spec fn byte_at(s: Seq<u8>, i: int) -> u8 {
    if 0 <= i < s.len() { s[i] } else { 0 }
}

/// An ASCII letter.
pub open spec fn is_letter(b: u8) -> bool {
    (65 <= b <= 90) || (97 <= b <= 122)
}

/// A printable ASCII byte, space included.
pub open spec fn is_printable(b: u8) -> bool {
    32 <= b <= 126
}

/// The first position from `i` that holds a letter or the end.
pub open spec fn skip_non_letters(s: Seq<u8>, i: int) -> int
    decreases s.len() - i,
{
    if 0 <= i < s.len() && s[i] != 0 && !is_letter(s[i]) { skip_non_letters(s, i + 1) } else { i }
}

/// The first position from `i` that does not hold a letter.
pub open spec fn skip_letters(s: Seq<u8>, i: int) -> int
    decreases s.len() - i,
{
    if 0 <= i < s.len() && is_letter(s[i]) { skip_letters(s, i + 1) } else { i }
}

/// The first position from `i` that does not hold `=`.
pub open spec fn skip_equals(s: Seq<u8>, i: int) -> int
    decreases s.len() - i,
{
    if 0 <= i < s.len() && s[i] == 61 { skip_equals(s, i + 1) } else { i }
}

/// The first position from `i` that holds a comma or the end.
pub open spec fn skip_to_comma(s: Seq<u8>, i: int) -> int
    decreases s.len() - i,
{
    if 0 <= i < s.len() && s[i] != 0 && s[i] != 44 { skip_to_comma(s, i + 1) } else { i }
}

/// The option whose name is `s[a..b]`, if any.
pub open spec fn named_option(s: Seq<u8>, a: int, b: int) -> Option<int> {
    if exists|k: int| 0 <= k < 10 && #[trigger] option_name(k) == s.subrange(a, b) {
        Some(choose|k: int| 0 <= k < 10 && #[trigger] option_name(k) == s.subrange(a, b))
    } else {
        None
    }
}

/// The printable bytes of `q`, in order.
pub open spec fn printable_only(q: Seq<u8>) -> Seq<u8>
    decreases q.len(),
{
    if q.len() == 0 {
        q
    } else {
        let r = printable_only(q.drop_last());
        if is_printable(q.last()) { r.push(q.last()) } else { r }
    }
}

/// The inventory style named by `seg` (its first letter taken as a
/// capital): the first style whose name starts with `seg`.
pub open spec fn inv_style_of(seg: Seq<u8>) -> Option<int> {
    let t = if seg.len() > 0 && 97 <= seg[0] <= 122 { seg.update(0, (seg[0] - 32) as u8) } else { seg };
    if t.len() <= inv_style_name(0).len() && t == inv_style_name(0).subrange(0, t.len() as int) { Some(0) }
    else if t.len() <= inv_style_name(1).len() && t == inv_style_name(1).subrange(0, t.len() as int) { Some(1) }
    else if t.len() <= inv_style_name(2).len() && t == inv_style_name(2).subrange(0, t.len() as int) { Some(2) }
    else { None }
}

/// Input fields take at most this many bytes.
pub const MAXINP: usize = 50;

/// The options after option `k` is given at `p` (just past its name): a
/// switch is turned on; `inven` takes the style its value names; a text
/// option takes the printable bytes of its value (at most `MAXINP` of them),
/// after `home` when the value starts with `~`, and is left alone when the
/// value is empty.
pub open spec fn apply_option(o: OptionsView, s: Seq<u8>, home: Seq<u8>, k: int, p: int) -> OptionsView {
    if k < 6 {
        OptionsView { switches: o.switches.update(k, true), ..o }
    } else {
        let v = skip_equals(s, p);
        let e = skip_to_comma(s, v);
        let seg = s.subrange(v, e);
        if k == 6 {
            match inv_style_of(seg) {
                Some(style) => OptionsView { inv_type: style as i32, ..o },
                None => o,
            }
        } else {
            let copied = printable_only(s.subrange(v, v + (if e - v < MAXINP { e - v } else { MAXINP as int })));
            if byte_at(s, v) == 126 {
                OptionsView { texts: o.texts.update(k - 7, home + copied), ..o }
            } else if e - v > 0 {
                OptionsView { texts: o.texts.update(k - 7, copied), ..o }
            } else {
                o
            }
        }
    }
}

/// Each skip moves forward and stays within the string.
pub proof fn lemma_skips(s: Seq<u8>, i: int)
    requires
        0 <= i <= s.len(),
    ensures
        i <= skip_non_letters(s, i) <= s.len(),
        i <= skip_letters(s, i) <= s.len(),
        i <= skip_equals(s, i) <= s.len(),
        i <= skip_to_comma(s, i) <= s.len(),
    decreases s.len() - i,
{
    if i < s.len() {
        lemma_skips(s, i + 1);
    }
}

/// The options after reading the option string `s` from position `i`.
///
/// Options are separated by commas; an option is a name, made of letters,
/// then for a text or style option `=` and its value. Reading stops at the
/// first name that is not an option's.
pub open spec fn parse_from(o: OptionsView, s: Seq<u8>, home: Seq<u8>, i: int) -> OptionsView
    decreases s.len() - i,
{
    if i < 0 || i >= s.len() {
        o
    } else {
        let a = skip_non_letters(s, i);
        if a >= s.len() || s[a] == 0 {
            o
        } else {
            let b = skip_letters(s, a);
            match named_option(s, a, b) {
                None => o,
                Some(k) => {
                    let q = skip_to_comma(s, b);
                    let next = if q < s.len() && s[q] == 44 { q + 1 } else { q };
                    proof {
                        lemma_skips(s, i);
                        lemma_skips(s, a + 1);
                        lemma_skips(s, b);
                    }
                    parse_from(apply_option(o, s, home, k, b), s, home, next)
                },
            }
        }
    }
}

proof fn lemma_names_differ()
    ensures
        forall|j: int, k: int| 0 <= j < 10 && 0 <= k < 10 && j != k ==> option_name(j) != option_name(k),
{
    assert forall|j: int, k: int| 0 <= j < 10 && 0 <= k < 10 && j != k implies option_name(j) != option_name(k) by {
        let a = option_name(j);
        let b = option_name(k);
        if a.len() == b.len() {
            if a[0] == b[0] {
                assert(a[1] != b[1]);
            } else {
                assert(a[0] != b[0]);
            }
        }
    }
}

fn option_name_bytes(k: usize) -> (v: Vec<u8>)
    requires
        k < 10,
    ensures
        v@ == option_name(k as int),
{
    let v = if k == 0 { vec![116u8, 101, 114, 115, 101] }
    else if k == 1 { vec![102u8, 108, 117, 115, 104] }
    else if k == 2 { vec![106u8, 117, 109, 112] }
    else if k == 3 { vec![115u8, 101, 101, 102, 108, 111, 111, 114] }
    else if k == 4 { vec![112u8, 97, 115, 115, 103, 111] }
    else if k == 5 { vec![116u8, 111, 109, 98, 115, 116, 111, 110, 101] }
    else if k == 6 { vec![105u8, 110, 118, 101, 110] }
    else if k == 7 { vec![110u8, 97, 109, 101] }
    else if k == 8 { vec![102u8, 114, 117, 105, 116] }
    else { vec![102u8, 105, 108, 101] };
    assert(v@ =~= option_name(k as int));
    v
}

fn inv_style_bytes(k: usize) -> (v: Vec<u8>)
    requires
        k < 3,
    ensures
        v@ == inv_style_name(k as int),
{
    let v = if k == 0 { vec![79u8, 118, 101, 114, 119, 114, 105, 116, 101] }
    else if k == 1 { vec![83u8, 108, 111, 119] }
    else { vec![67u8, 108, 101, 97, 114] };
    assert(v@ =~= inv_style_name(k as int));
    v
}

/// Whether `s[a..b]` is `name`.
fn span_is(s: &[u8], a: usize, b: usize, name: &Vec<u8>) -> (r: bool)
    requires
        a <= b <= s@.len(),
    ensures
        r == (s@.subrange(a as int, b as int) == name@),
{
    if b - a != name.len() {
        return false;
    }
    let mut i: usize = 0;
    while i < name.len()
        invariant
            a <= b <= s@.len(),
            b - a == name@.len(),
            i <= name@.len(),
            forall|j: int| 0 <= j < i ==> s@[a + j] == #[trigger] name@[j],
        decreases name@.len() - i,
    {
        if s[a + i] != name[i] {
            assert(s@.subrange(a as int, b as int)[i as int] != name@[i as int]);
            return false;
        }
        i = i + 1;
    }
    assert(s@.subrange(a as int, b as int) =~= name@);
    true
}

/// Whether `t` starts `name`.
fn starts(t: &Vec<u8>, name: &Vec<u8>) -> (r: bool)
    ensures
        r == (t@.len() <= name@.len() && t@ == name@.subrange(0, t@.len() as int)),
{
    if t.len() > name.len() {
        return false;
    }
    let mut i: usize = 0;
    while i < t.len()
        invariant
            t@.len() <= name@.len(),
            i <= t@.len(),
            forall|j: int| 0 <= j < i ==> t@[j] == #[trigger] name@[j],
        decreases t@.len() - i,
    {
        if t[i] != name[i] {
            assert(name@.subrange(0, t@.len() as int)[i as int] != t@[i as int]);
            return false;
        }
        i = i + 1;
    }
    assert(t@ =~= name@.subrange(0, t@.len() as int));
    true
}

fn skip_non_letters_at(s: &[u8], i: usize) -> (j: usize)
    requires
        i <= s@.len(),
    ensures
        j == skip_non_letters(s@, i as int),
{
    let mut j = i;
    while j < s.len() && s[j] != 0 && !((65 <= s[j] && s[j] <= 90) || (97 <= s[j] && s[j] <= 122))
        invariant
            i <= j <= s@.len(),
            skip_non_letters(s@, i as int) == skip_non_letters(s@, j as int),
        decreases s@.len() - j,
    {
        j = j + 1;
    }
    j
}

fn skip_letters_at(s: &[u8], i: usize) -> (j: usize)
    requires
        i <= s@.len(),
    ensures
        j == skip_letters(s@, i as int),
{
    let mut j = i;
    while j < s.len() && ((65 <= s[j] && s[j] <= 90) || (97 <= s[j] && s[j] <= 122))
        invariant
            i <= j <= s@.len(),
            skip_letters(s@, i as int) == skip_letters(s@, j as int),
        decreases s@.len() - j,
    {
        j = j + 1;
    }
    j
}

fn skip_equals_at(s: &[u8], i: usize) -> (j: usize)
    requires
        i <= s@.len(),
    ensures
        j == skip_equals(s@, i as int),
{
    let mut j = i;
    while j < s.len() && s[j] == 61
        invariant
            i <= j <= s@.len(),
            skip_equals(s@, i as int) == skip_equals(s@, j as int),
        decreases s@.len() - j,
    {
        j = j + 1;
    }
    j
}

fn skip_to_comma_at(s: &[u8], i: usize) -> (j: usize)
    requires
        i <= s@.len(),
    ensures
        j == skip_to_comma(s@, i as int),
{
    let mut j = i;
    while j < s.len() && s[j] != 0 && s[j] != 44
        invariant
            i <= j <= s@.len(),
            skip_to_comma(s@, i as int) == skip_to_comma(s@, j as int),
        decreases s@.len() - j,
    {
        j = j + 1;
    }
    j
}

fn named_option_at(s: &[u8], a: usize, b: usize) -> (r: Option<usize>)
    requires
        a <= b <= s@.len(),
    ensures
        match r {
            Some(k) => k < 10 && named_option(s@, a as int, b as int) == Some(k as int),
            None => named_option(s@, a as int, b as int) is None,
        },
{
    let mut k: usize = 0;
    proof {
        lemma_names_differ();
    }
    while k < 10
        invariant
            a <= b <= s@.len(),
            k <= 10,
            forall|j: int| 0 <= j < k ==> #[trigger] option_name(j) != s@.subrange(a as int, b as int),
        decreases 10 - k,
    {
        let name = option_name_bytes(k);
        if span_is(s, a, b, &name) {
            proof {
                lemma_names_differ();
                let c = choose|j: int| 0 <= j < 10 && #[trigger] option_name(j) == s@.subrange(a as int, b as int);
                assert(option_name(c) == option_name(k as int));
            }
            return Some(k);
        }
        k = k + 1;
    }
    None
}

impl GameOptions {
    /// Take the value at `v..e` of a text option, after `home` when it starts
    /// with `~` (see `apply_option`).
    fn text_value(s: &[u8], home: &[u8], v: usize, e: usize) -> (t: Vec<u8>)
        requires
            v <= e <= s@.len(),
        ensures
            t@ == (if byte_at(s@, v as int) == 126 { home@ } else { Seq::<u8>::empty() })
                + printable_only(s@.subrange(v as int, v + (if e - v < MAXINP { e - v } else { MAXINP as int }))),
    {
        let mut t: Vec<u8> = Vec::new();
        if v < s.len() && s[v] == 126 {
            let mut h: usize = 0;
            while h < home.len()
                invariant
                    h <= home@.len(),
                    t@ == home@.subrange(0, h as int),
                decreases home@.len() - h,
            {
                t.push(home[h]);
                h = h + 1;
                assert(t@ =~= home@.subrange(0, h as int));
            }
            assert(home@.subrange(0, home@.len() as int) =~= home@);
        }
        let ghost head = t@;
        assert(head == (if byte_at(s@, v as int) == 126 { home@ } else { Seq::<u8>::empty() }));
        let limit: usize = if e - v < MAXINP { e - v } else { MAXINP };
        let mut k: usize = 0;
        while k < limit
            invariant
                v <= e <= s@.len(),
                limit <= e - v,
                k <= limit,
                t@ == head + printable_only(s@.subrange(v as int, v + k)),
            decreases limit - k,
        {
            let c = s[v + k];
            proof {
                let q = s@.subrange(v as int, v + k + 1);
                assert(q.drop_last() =~= s@.subrange(v as int, v + k));
                assert(q.last() == c);
            }
            if 32 <= c && c <= 126 {
                t.push(c);
            }
            k = k + 1;
            assert(t@ =~= head + printable_only(s@.subrange(v as int, v + k)));
        }
        t
    }

    fn apply(&mut self, s: &[u8], home: &[u8], k: usize, p: usize)
        requires
            k < 10,
            p <= s@.len(),
        ensures
            final(self)@ == apply_option(old(self)@, s@, home@, k as int, p as int),
    {
        if k == 0 {
            self.terse = true;
        } else if k == 1 {
            self.flush = true;
        } else if k == 2 {
            self.jump = true;
        } else if k == 3 {
            self.see_floor = true;
        } else if k == 4 {
            self.passgo = true;
        } else if k == 5 {
            self.tombstone = true;
        } else {
            proof {
                lemma_skips(s@, p as int);
            }
            let v = skip_equals_at(s, p);
            proof {
                lemma_skips(s@, v as int);
            }
            let e = skip_to_comma_at(s, v);
            if k == 6 {
                let mut t: Vec<u8> = Vec::new();
                let mut j = v;
                while j < e
                    invariant
                        v <= j <= e,
                        e <= s@.len(),
                        t@ == s@.subrange(v as int, j as int),
                    decreases e - j,
                {
                    t.push(s[j]);
                    j = j + 1;
                    assert(t@ =~= s@.subrange(v as int, j as int));
                }
                let ghost seg = t@;
                if t.len() > 0 && 97 <= t[0] && t[0] <= 122 {
                    let up = t[0] - 32;
                    t.set(0, up);
                }
                if starts(&t, &inv_style_bytes(0)) {
                    self.inv_type = 0;
                } else if starts(&t, &inv_style_bytes(1)) {
                    self.inv_type = 1;
                } else if starts(&t, &inv_style_bytes(2)) {
                    self.inv_type = 2;
                }
                proof {
                    let tt = if seg.len() > 0 && 97 <= seg[0] <= 122 { seg.update(0, (seg[0] - 32) as u8) } else { seg };
                    assert(t@ =~= tt);
                }
            } else {
                let tilde = v < s.len() && s[v] == 126;
                if tilde || e - v > 0 {
                    let value = Self::text_value(s, home, v, e);
                    if k == 7 {
                        self.name = value;
                    } else if k == 8 {
                        self.fruit = value;
                    } else {
                        self.file_name = value;
                    }
                }
                proof {
                    assert(final(self)@.texts =~= apply_option(old(self)@, s@, home@, k as int, p as int).texts);
                }
            }
        }
        proof {
            assert(final(self)@.switches =~= apply_option(old(self)@, s@, home@, k as int, p as int).switches);
            assert(final(self)@.texts =~= apply_option(old(self)@, s@, home@, k as int, p as int).texts);
        }
    }

    /// Read an option string such as `ROGUEOPTS`: `name=Rodney,terse,
    /// fruit=~/mango` (see `parse_from`). `home` is the player's home
    /// directory, which a text value that starts with `~` begins with.
    pub fn parse_opts(&mut self, s: &[u8], home: &[u8])
        ensures
            final(self)@ == parse_from(old(self)@, s@, home@, 0),
    {
        let mut i: usize = 0;
        while i < s.len()
            invariant
                i <= s@.len(),
                parse_from(old(self)@, s@, home@, 0) == parse_from(self@, s@, home@, i as int),
            decreases s@.len() - i,
        {
            proof {
                lemma_skips(s@, i as int);
            }
            let a = skip_non_letters_at(s, i);
            if a >= s.len() || s[a] == 0 {
                return;
            }
            proof {
                lemma_skips(s@, a as int);
                lemma_skips(s@, a + 1);
            }
            let b = skip_letters_at(s, a);
            match named_option_at(s, a, b) {
                None => {
                    return;
                },
                Some(k) => {
                    proof {
                        lemma_skips(s@, b as int);
                    }
                    let ghost before = self@;
                    self.apply(s, home, k, b);
                    let q = skip_to_comma_at(s, b);
                    let next = if q < s.len() && s[q] == 44 { q + 1 } else { q };
                    assert(parse_from(before, s@, home@, i as int) == parse_from(self@, s@, home@, next as int));
                    i = next;
                },
            }
        }
    }
}

/// The prompt of option `k` on the options screen.
pub open spec fn option_prompt(k: int) -> Seq<u8> {
    if k == 0 { seq![84u8, 101, 114, 115, 101, 32, 111, 117, 116, 112, 117, 116] }
    else
    if k == 1 { seq![70u8, 108, 117, 115, 104, 32, 116, 121, 112, 101, 97, 104, 101, 97, 100, 32, 100, 117, 114, 105, 110, 103, 32, 98, 97, 116, 116, 108, 101] }
    else
    if k == 2 { seq![83u8, 104, 111, 119, 32, 112, 111, 115, 105, 116, 105, 111, 110, 32, 111, 110, 108, 121, 32, 97, 116, 32, 101, 110, 100, 32, 111, 102, 32, 114, 117, 110] }
    else
    if k == 3 { seq![83u8, 104, 111, 119, 32, 116, 104, 101, 32, 108, 97, 109, 112, 45, 105, 108, 108, 117, 109, 105, 110, 97, 116, 101, 100, 32, 102, 108, 111, 111, 114] }
    else
    if k == 4 { seq![70u8, 111, 108, 108, 111, 119, 32, 116, 117, 114, 110, 105, 110, 103, 115, 32, 105, 110, 32, 112, 97, 115, 115, 97, 103, 101, 119, 97, 121, 115] }
    else
    if k == 5 { seq![80u8, 114, 105, 110, 116, 32, 111, 117, 116, 32, 116, 111, 109, 98, 115, 116, 111, 110, 101, 32, 119, 104, 101, 110, 32, 107, 105, 108, 108, 101, 100] }
    else
    if k == 6 { seq![73u8, 110, 118, 101, 110, 116, 111, 114, 121, 32, 115, 116, 121, 108, 101] }
    else
    if k == 7 { seq![78u8, 97, 109, 101] }
    else
    if k == 8 { seq![70u8, 114, 117, 105, 116] }
    else { seq![83u8, 97, 118, 101, 32, 102, 105, 108, 101] }
}

fn option_prompt_bytes(k: usize) -> (v: Vec<u8>)
    requires
        k < 10,
    ensures
        v@ == option_prompt(k as int),
{
    let v = if k == 0 { vec![84u8, 101, 114, 115, 101, 32, 111, 117, 116, 112, 117, 116] }
    else if k == 1 { vec![70u8, 108, 117, 115, 104, 32, 116, 121, 112, 101, 97, 104, 101, 97, 100, 32, 100, 117, 114, 105, 110, 103, 32, 98, 97, 116, 116, 108, 101] }
    else if k == 2 { vec![83u8, 104, 111, 119, 32, 112, 111, 115, 105, 116, 105, 111, 110, 32, 111, 110, 108, 121, 32, 97, 116, 32, 101, 110, 100, 32, 111, 102, 32, 114, 117, 110] }
    else if k == 3 { vec![83u8, 104, 111, 119, 32, 116, 104, 101, 32, 108, 97, 109, 112, 45, 105, 108, 108, 117, 109, 105, 110, 97, 116, 101, 100, 32, 102, 108, 111, 111, 114] }
    else if k == 4 { vec![70u8, 111, 108, 108, 111, 119, 32, 116, 117, 114, 110, 105, 110, 103, 115, 32, 105, 110, 32, 112, 97, 115, 115, 97, 103, 101, 119, 97, 121, 115] }
    else if k == 5 { vec![80u8, 114, 105, 110, 116, 32, 111, 117, 116, 32, 116, 111, 109, 98, 115, 116, 111, 110, 101, 32, 119, 104, 101, 110, 32, 107, 105, 108, 108, 101, 100] }
    else if k == 6 { vec![73u8, 110, 118, 101, 110, 116, 111, 114, 121, 32, 115, 116, 121, 108, 101] }
    else if k == 7 { vec![78u8, 97, 109, 101] }
    else if k == 8 { vec![70u8, 114, 117, 105, 116] }
    else { vec![83u8, 97, 118, 101, 32, 102, 105, 108, 101] };
    assert(v@ =~= option_prompt(k as int));
    v
}

/// `True` or `False`.
pub open spec fn bool_text(b: bool) -> Seq<u8> {
    if b { seq![84u8, 114, 117, 101] } else { seq![70u8, 97, 108, 115, 101] }
}

/// The value of option `k` as the options screen shows it: `True` or
/// `False` for a switch, the style's name for the inventory style (nothing
/// for a style out of range), the text itself for the others.
pub open spec fn option_value_text(v: OptionsView, k: int) -> Seq<u8> {
    if k < 6 {
        bool_text(v.switches[k])
    } else if k == 6 {
        if 0 <= v.inv_type < 3 { inv_style_name(v.inv_type as int) } else { Seq::empty() }
    } else {
        v.texts[k - 7]
    }
}

/// The line of option `k` on the options screen: its prompt, its name in
/// quotes and brackets, a colon, and its value.
pub open spec fn option_line_text(v: OptionsView, k: int) -> Seq<u8> {
    option_prompt(k) + seq![32u8, 40, 34] + option_name(k) + seq![34u8, 41, 58, 32] + option_value_text(v, k)
}

impl GameOptions {
    /// The line of option `k` on the options screen (see `option_line_text`).
    pub fn option_line(&self, k: usize) -> (line: Vec<u8>)
        requires
            k < 10,
        ensures
            line@ == option_line_text(self@, k as int),
    {
        let mut line = option_prompt_bytes(k);
        line.push(32);
        line.push(40);
        line.push(34);
        let mut name = option_name_bytes(k);
        line.append(&mut name);
        line.push(34);
        line.push(41);
        line.push(58);
        line.push(32);
        let ghost head = line@;
        let mut value: Vec<u8> = if k < 6 {
            let b = if k == 0 { self.terse } else if k == 1 { self.flush } else if k == 2 { self.jump } else if k == 3 {
                self.see_floor
            } else if k == 4 { self.passgo } else { self.tombstone };
            if b { vec![84u8, 114, 117, 101] } else { vec![70u8, 97, 108, 115, 101] }
        } else if k == 6 {
            if 0 <= self.inv_type && self.inv_type < 3 { inv_style_bytes(self.inv_type as usize) } else { Vec::new() }
        } else if k == 7 {
            self.name.clone()
        } else if k == 8 {
            self.fruit.clone()
        } else {
            self.file_name.clone()
        };
        assert(value@ =~= option_value_text(self@, k as int));
        line.append(&mut value);
        assert(line@ =~= option_line_text(self@, k as int));
        line
    }
}

} // verus!
