//! Reading a line of the score file: six numbers separated by white space.

use vstd::prelude::*;

use crate::format::{decimal, decimal_chars, digit_char, digits, lemma_digits_len, pow10};
use crate::rip::ScoreEntry;

verus! {

/// A white-space character, as `char::is_whitespace` has it: the characters
/// with the Unicode `White_Space` property.
pub open spec fn is_space(c: char) -> bool {
    ('\t' <= c <= '\r') || c == ' ' || c == '\u{85}' || c == '\u{a0}' || c == '\u{1680}'
        || ('\u{2000}' <= c <= '\u{200a}') || c == '\u{2028}' || c == '\u{2029}'
        || c == '\u{202f}' || c == '\u{205f}' || c == '\u{3000}'
}

/// The end of the run of white space that starts at `i`.
pub open spec fn space_end(s: Seq<char>, i: int) -> int
    decreases s.len() - i,
{
    if 0 <= i < s.len() && is_space(s[i]) { space_end(s, i + 1) } else { i }
}

/// The end of the run of other characters that starts at `i`.
pub open spec fn word_end(s: Seq<char>, i: int) -> int
    decreases s.len() - i,
{
    if 0 <= i < s.len() && !is_space(s[i]) { word_end(s, i + 1) } else { i }
}

/// The first word at or after `i`: where it starts and ends.
pub open spec fn token(s: Seq<char>, i: int) -> Option<(int, int)> {
    let a = space_end(s, i);
    if a >= s.len() { None } else { Some((a, word_end(s, a))) }
}

/// Word `k` of `s` (from 0).
pub open spec fn nth_token(s: Seq<char>, k: nat) -> Option<(int, int)>
    decreases k,
{
    if k == 0 {
        token(s, 0)
    } else {
        match nth_token(s, (k - 1) as nat) {
            None => None,
            Some(p) => token(s, p.1),
        }
    }
}

/// The value of digit `c` in `radix` (10 or 16), if it is one.
pub open spec fn digit_value(c: char, radix: int) -> Option<int> {
    if '0' <= c <= '9' {
        Some(c as int - 48)
    } else if radix == 16 && 'a' <= c <= 'f' {
        Some(c as int - 87)
    } else if radix == 16 && 'A' <= c <= 'F' {
        Some(c as int - 55)
    } else {
        None
    }
}

/// The value of the digits `d` in `radix`, if every one is a digit.
pub open spec fn digits_value(d: Seq<char>, radix: int) -> Option<int>
    decreases d.len(),
{
    if d.len() == 0 {
        Some(0)
    } else {
        match (digits_value(d.drop_last(), radix), digit_value(d.last(), radix)) {
            (Some(v), Some(x)) => Some(v * radix + x),
            _ => None,
        }
    }
}

/// A number as `from_str_radix` reads it into a type whose values are
/// `min..=max`: an optional `+` (or `-` when the type has negative values),
/// then at least one digit, and a value that fits.
pub open spec fn parse_number(t: Seq<char>, radix: int, min: int, max: int) -> Option<int> {
    if t.len() == 0 {
        None
    } else if (t[0] == '+' || t[0] == '-') && t.len() == 1 {
        None
    } else {
        let neg = t[0] == '-' && min < 0;
        let body = if t[0] == '+' || neg { t.drop_first() } else { t };
        match digits_value(body, radix) {
            None => None,
            Some(v) => {
                let x = if neg { -v } else { v };
                if min <= x <= max { Some(x) } else { None }
            },
        }
    }
}

/// Field `k` of a score line, read as a number of `radix` in `min..=max`.
pub open spec fn field_value(s: Seq<char>, k: nat, radix: int, min: int, max: int) -> Option<int> {
    match nth_token(s, k) {
        None => None,
        Some(p) => parse_number(s.subrange(p.0, p.1), radix, min, max),
    }
}

/// The six numbers of a score line: the player's id, the score, the flags,
/// the cause of death, the level (all decimal) and the time (hexadecimal).
/// Any further words are ignored; a missing or unreadable field gives
/// nothing.
pub open spec fn scoreline_fields(s: Seq<char>) -> Option<(u32, i32, u32, u16, i32, u32)> {
    let uid = field_value(s, 0, 10, 0, u32::MAX as int);
    let score = field_value(s, 1, 10, i32::MIN as int, i32::MAX as int);
    let flags = field_value(s, 2, 10, 0, u32::MAX as int);
    let monster = field_value(s, 3, 10, 0, u16::MAX as int);
    let level = field_value(s, 4, 10, i32::MIN as int, i32::MAX as int);
    let time = field_value(s, 5, 16, 0, u32::MAX as int);
    if uid is Some && score is Some && flags is Some && monster is Some && level is Some && time is Some {
        Some((uid->0 as u32, score->0 as i32, flags->0 as u32, monster->0 as u16, level->0 as i32, time->0 as u32))
    } else {
        None
    }
}

/// The lower-case hexadecimal digit of `d` (below 16).
pub open spec fn hex_char(d: int) -> char {
    if d < 10 { (48 + d) as char } else { (87 + d) as char }
}

/// The lower-case hexadecimal digits of `n`, most significant first.
pub open spec fn hex_digits(n: nat) -> Seq<char>
    decreases n,
{
    if n < 16 {
        seq![hex_char(n as int)]
    } else {
        hex_digits(n / 16).push(hex_char((n % 16) as int))
    }
}

/// The text of a score-file line: a space before each of the six numbers
/// (the time in hexadecimal), then a space and a newline.
pub open spec fn scoreline_text(uid: u32, score: i32, flags: u32, monster: u16, level: i32, time: u32) -> Seq<char> {
    seq![' '] + decimal(uid as int) + seq![' '] + decimal(score as int) + seq![' '] + decimal(flags as int)
        + seq![' '] + decimal(monster as int) + seq![' '] + decimal(level as int) + seq![' ']
        + hex_digits(time as nat) + seq![' ', '\n']
}

/// Bytes of the line of numbers of a score-file entry.
pub const SCORELINE_LEN: usize = 100;

/// The stored line: the bytes of `text`, cut or padded with zero bytes to
/// `SCORELINE_LEN`.
pub open spec fn scoreline_record(text: Seq<char>) -> Seq<u8> {
    Seq::new(SCORELINE_LEN as nat, |i: int| if i < text.len() { text[i] as u32 as u8 } else { 0u8 })
}

/// Bytes read back as characters, one for one (what ASCII text decodes to).
pub open spec fn ascii_chars(bytes: Seq<u8>) -> Seq<char> {
    bytes.map_values(|b: u8| b as char)
}

/// Every byte is below 128.
pub open spec fn all_ascii(bytes: Seq<u8>) -> bool {
    forall|i: int| 0 <= i < bytes.len() ==> #[trigger] bytes[i] < 128
}

proof fn lemma_digit_char(x: int)
    requires
        0 <= x < 10,
    ensures
        digit_value(digit_char(x), 10) == Some(x),
        '0' <= digit_char(x) <= '9',
{
    assert(digit_char(x) as int == 48 + x);
}

proof fn lemma_hex_char(x: int)
    requires
        0 <= x < 16,
    ensures
        digit_value(hex_char(x), 16) == Some(x),
        '0' <= hex_char(x) <= '9' || 'a' <= hex_char(x) <= 'f',
{
    if x < 10 {
        assert(hex_char(x) as int == 48 + x);
    } else {
        assert(hex_char(x) as int == 87 + x);
    }
}

proof fn lemma_digits_read(n: nat)
    ensures
        digits_value(digits(n), 10) == Some(n as int),
        digits(n).len() >= 1,
        forall|i: int| 0 <= i < digits(n).len() ==> '0' <= #[trigger] digits(n)[i] <= '9',
    decreases n,
{
    let d = digits(n);
    if n >= 10 {
        lemma_digits_read(n / 10);
        lemma_digit_char((n % 10) as int);
        assert(d.drop_last() =~= digits(n / 10));
        assert(d.last() == digit_char((n % 10) as int));
        assert((n / 10) * 10 + n % 10 == n);
        assert(digits_value(d.drop_last(), 10) == Some((n / 10) as int));
        assert(digits_value(d, 10) == Some(((n / 10) * 10 + n % 10) as int));
        assert forall|i: int| 0 <= i < d.len() implies '0' <= #[trigger] d[i] <= '9' by {
            if i < d.len() - 1 {
                assert(d[i] == digits(n / 10)[i]);
            }
        }
    } else {
        lemma_digit_char(n as int);
        assert(d.drop_last() =~= Seq::<char>::empty());
        assert(digits_value(d.drop_last(), 10) == Some(0int));
    }
}

proof fn lemma_hex_read(n: nat)
    ensures
        digits_value(hex_digits(n), 16) == Some(n as int),
        hex_digits(n).len() >= 1,
        forall|i: int| 0 <= i < hex_digits(n).len() ==> ('0' <= #[trigger] hex_digits(n)[i] <= '9' || 'a' <= hex_digits(n)[i] <= 'f'),
    decreases n,
{
    let d = hex_digits(n);
    if n >= 16 {
        lemma_hex_read(n / 16);
        lemma_hex_char((n % 16) as int);
        assert(d.drop_last() =~= hex_digits(n / 16));
        assert(d.last() == hex_char((n % 16) as int));
        assert((n / 16) * 16 + n % 16 == n);
        assert(digits_value(d.drop_last(), 16) == Some((n / 16) as int));
        assert(digits_value(d, 16) == Some(((n / 16) * 16 + n % 16) as int));
        assert forall|i: int| 0 <= i < d.len() implies ('0' <= #[trigger] d[i] <= '9' || 'a' <= d[i] <= 'f') by {
            if i < d.len() - 1 {
                assert(d[i] == hex_digits(n / 16)[i]);
            }
        }
    } else {
        lemma_hex_char(n as int);
        assert(d.drop_last() =~= Seq::<char>::empty());
        assert(digits_value(d.drop_last(), 16) == Some(0int));
    }
}

proof fn lemma_hex_len(n: nat)
    requires
        n <= u32::MAX,
    ensures
        hex_digits(n).len() <= 8,
{
    reveal_with_fuel(hex_digits, 9);
    assert(n / 16 / 16 / 16 / 16 / 16 / 16 / 16 < 16);
}

proof fn lemma_decimal_field(n: int, min: int, max: int, bound: nat)
    requires
        min <= n <= max,
        n < 0 ==> min < 0,
        -pow10(bound) < n < pow10(bound),
        bound >= 1,
    ensures
        parse_number(decimal(n), 10, min, max) == Some(n),
        decimal(n).len() >= 1,
        decimal(n).len() <= bound + 1,
        forall|i: int| 0 <= i < decimal(n).len() ==> !is_space(#[trigger] decimal(n)[i]) && decimal(n)[i] as u32 <= 127,
{
    if n < 0 {
        let m = (-n) as nat;
        lemma_digits_read(m);
        lemma_digits_len(m, bound, pow10(bound));
        let t = decimal(n);
        assert(t.drop_first() =~= digits(m));
        assert forall|i: int| 0 <= i < t.len() implies !is_space(#[trigger] t[i]) && t[i] as u32 <= 127 by {
            if i > 0 {
                assert(t[i] == digits(m)[i - 1]);
            }
        }
    } else {
        lemma_digits_read(n as nat);
        lemma_digits_len(n as nat, bound, pow10(bound));
        let t = decimal(n);
        assert forall|i: int| 0 <= i < t.len() implies !is_space(#[trigger] t[i]) && t[i] as u32 <= 127 by {
            assert('0' <= t[i] <= '9');
        }
    }
}

proof fn lemma_space_run(s: Seq<char>, a: int, b: int)
    requires
        0 <= a <= b <= s.len(),
        forall|i: int| a <= i < b ==> is_space(#[trigger] s[i]),
        b < s.len() ==> !is_space(s[b]),
    ensures
        space_end(s, a) == b,
    decreases b - a,
{
    if a < b {
        lemma_space_run(s, a + 1, b);
    }
}

proof fn lemma_word_run(s: Seq<char>, a: int, b: int)
    requires
        0 <= a <= b <= s.len(),
        forall|i: int| a <= i < b ==> !is_space(#[trigger] s[i]),
        b < s.len() ==> is_space(s[b]),
    ensures
        word_end(s, a) == b,
    decreases b - a,
{
    if a < b {
        lemma_word_run(s, a + 1, b);
    }
}

/// The word of `s` that a space at `i` introduces, when `word` follows it
/// and a space follows `word`.
proof fn lemma_spaced_word(s: Seq<char>, i: int, word: Seq<char>)
    requires
        0 <= i,
        i + 1 + word.len() < s.len(),
        word.len() >= 1,
        is_space(s[i]),
        s.subrange(i + 1, i + 1 + word.len()) == word,
        forall|j: int| 0 <= j < word.len() ==> !is_space(#[trigger] word[j]),
        is_space(s[i + 1 + word.len()]),
    ensures
        token(s, i) == Some((i + 1, i + 1 + word.len())),
{
    let a = i + 1;
    let b = a + word.len();
    assert(s[a] == word[0]);
    lemma_space_run(s, i, a);
    assert forall|j: int| a <= j < b implies !is_space(#[trigger] s[j]) by {
        assert(s[j] == word[j - a]);
    }
    lemma_word_run(s, a, b);
}

/// A line made of six words, each after a space, then a space and a
/// newline.
spec fn spaced_line(d1: Seq<char>, d2: Seq<char>, d3: Seq<char>, d4: Seq<char>, d5: Seq<char>, d6: Seq<char>) -> Seq<char> {
    seq![' '] + d1 + seq![' '] + d2 + seq![' '] + d3 + seq![' '] + d4 + seq![' '] + d5 + seq![' '] + d6 + seq![' ', '\n']
}

proof fn lemma_record_chars(t: Seq<char>)
    requires
        t.len() <= SCORELINE_LEN,
        forall|i: int| 0 <= i < t.len() ==> (#[trigger] t[i]) as u32 <= 127,
    ensures
        ascii_chars(scoreline_record(t)).len() == SCORELINE_LEN,
        forall|i: int| 0 <= i < t.len() ==> #[trigger] ascii_chars(scoreline_record(t))[i] == t[i],
        forall|i: int| t.len() <= i < SCORELINE_LEN ==> #[trigger] ascii_chars(scoreline_record(t))[i] == '\0',
        all_ascii(scoreline_record(t)),
{
    let rec = scoreline_record(t);
    let c = ascii_chars(rec);
    assert forall|i: int| 0 <= i < t.len() implies #[trigger] c[i] == t[i] by {
        lemma_ascii_char_byte(t[i]);
    }
    assert forall|i: int| 0 <= i < rec.len() implies #[trigger] rec[i] < 128 by {
        if i < t.len() {
            lemma_ascii_char_byte(t[i]);
        }
    }
}

/// The words of a spaced line are its six words, in order.
proof fn lemma_spaced_line_tokens(d1: Seq<char>, d2: Seq<char>, d3: Seq<char>, d4: Seq<char>, d5: Seq<char>, d6: Seq<char>, c: Seq<char>)
    requires
        d1.len() >= 1 && d2.len() >= 1 && d3.len() >= 1 && d4.len() >= 1 && d5.len() >= 1 && d6.len() >= 1,
        forall|i: int| 0 <= i < d1.len() ==> !is_space(#[trigger] d1[i]),
        forall|i: int| 0 <= i < d2.len() ==> !is_space(#[trigger] d2[i]),
        forall|i: int| 0 <= i < d3.len() ==> !is_space(#[trigger] d3[i]),
        forall|i: int| 0 <= i < d4.len() ==> !is_space(#[trigger] d4[i]),
        forall|i: int| 0 <= i < d5.len() ==> !is_space(#[trigger] d5[i]),
        forall|i: int| 0 <= i < d6.len() ==> !is_space(#[trigger] d6[i]),
        c.len() >= spaced_line(d1, d2, d3, d4, d5, d6).len(),
        forall|i: int| 0 <= i < spaced_line(d1, d2, d3, d4, d5, d6).len() ==> #[trigger] c[i] == spaced_line(d1, d2, d3, d4, d5, d6)[i],
    ensures
        field_value(c, 0, 10, 0, u32::MAX as int) == parse_number(d1, 10, 0, u32::MAX as int),
        field_value(c, 1, 10, i32::MIN as int, i32::MAX as int) == parse_number(d2, 10, i32::MIN as int, i32::MAX as int),
        field_value(c, 2, 10, 0, u32::MAX as int) == parse_number(d3, 10, 0, u32::MAX as int),
        field_value(c, 3, 10, 0, u16::MAX as int) == parse_number(d4, 10, 0, u16::MAX as int),
        field_value(c, 4, 10, i32::MIN as int, i32::MAX as int) == parse_number(d5, 10, i32::MIN as int, i32::MAX as int),
        field_value(c, 5, 16, 0, u32::MAX as int) == parse_number(d6, 16, 0, u32::MAX as int),
{
    let t = spaced_line(d1, d2, d3, d4, d5, d6);
    let a1 = 0int;
    let a2 = a1 + 1 + d1.len();
    let a3 = a2 + 1 + d2.len();
    let a4 = a3 + 1 + d3.len();
    let a5 = a4 + 1 + d4.len();
    let a6 = a5 + 1 + d5.len();
    let a7 = a6 + 1 + d6.len();
    assert(t.len() == a7 + 2);
    assert(t[a1] == ' ' && t[a2] == ' ' && t[a3] == ' ' && t[a4] == ' ' && t[a5] == ' ' && t[a6] == ' ' && t[a7] == ' ');
    assert(c.subrange(a1 + 1, a2) =~= d1);
    assert(c.subrange(a2 + 1, a3) =~= d2);
    assert(c.subrange(a3 + 1, a4) =~= d3);
    assert(c.subrange(a4 + 1, a5) =~= d4);
    assert(c.subrange(a5 + 1, a6) =~= d5);
    assert(c.subrange(a6 + 1, a7) =~= d6);
    lemma_spaced_word(c, a1, d1);
    lemma_spaced_word(c, a2, d2);
    lemma_spaced_word(c, a3, d3);
    lemma_spaced_word(c, a4, d4);
    lemma_spaced_word(c, a5, d5);
    lemma_spaced_word(c, a6, d6);
    assert(nth_token(c, 0) == Some((a1 + 1, a2)));
    assert(nth_token(c, 1) == Some((a2 + 1, a3)));
    assert(nth_token(c, 2) == Some((a3 + 1, a4)));
    assert(nth_token(c, 3) == Some((a4 + 1, a5)));
    assert(nth_token(c, 4) == Some((a5 + 1, a6)));
    assert(nth_token(c, 5) == Some((a6 + 1, a7)));
}

/// Reading back a score line written for six numbers gives those numbers.
pub proof fn lemma_scoreline_round_trip(uid: u32, score: i32, flags: u32, monster: u16, level: i32, time: u32)
    ensures
        scoreline_fields(ascii_chars(scoreline_record(scoreline_text(uid, score, flags, monster, level, time))))
            == Some((uid, score, flags, monster, level, time)),
        all_ascii(scoreline_record(scoreline_text(uid, score, flags, monster, level, time))),
{
    reveal_with_fuel(pow10, 12);
    let d1 = decimal(uid as int);
    let d2 = decimal(score as int);
    let d3 = decimal(flags as int);
    let d4 = decimal(monster as int);
    let d5 = decimal(level as int);
    let h = hex_digits(time as nat);
    lemma_decimal_field(uid as int, 0, u32::MAX as int, 10);
    lemma_decimal_field(score as int, i32::MIN as int, i32::MAX as int, 10);
    lemma_decimal_field(flags as int, 0, u32::MAX as int, 10);
    lemma_decimal_field(monster as int, 0, u16::MAX as int, 5);
    lemma_decimal_field(level as int, i32::MIN as int, i32::MAX as int, 10);
    lemma_hex_read(time as nat);
    lemma_hex_len(time as nat);
    let t = scoreline_text(uid, score, flags, monster, level, time);
    assert(t =~= spaced_line(d1, d2, d3, d4, d5, h));
    assert forall|j: int| 0 <= j < h.len() implies !is_space(#[trigger] h[j]) && h[j] as u32 <= 127 by {
        assert('0' <= h[j] <= '9' || 'a' <= h[j] <= 'f');
    }
    assert forall|i: int| 0 <= i < t.len() implies (#[trigger] t[i]) as u32 <= 127 by {
        let a2 = 1 + d1.len();
        let a3 = a2 + 1 + d2.len();
        let a4 = a3 + 1 + d3.len();
        let a5 = a4 + 1 + d4.len();
        let a6 = a5 + 1 + d5.len();
        let a7 = a6 + 1 + h.len();
        if 0 < i < a2 {
            assert(t[i] == d1[i - 1]);
        } else if a2 < i < a3 {
            assert(t[i] == d2[i - a2 - 1]);
        } else if a3 < i < a4 {
            assert(t[i] == d3[i - a3 - 1]);
        } else if a4 < i < a5 {
            assert(t[i] == d4[i - a4 - 1]);
        } else if a5 < i < a6 {
            assert(t[i] == d5[i - a5 - 1]);
        } else if a6 < i < a7 {
            assert(t[i] == h[i - a6 - 1]);
        }
    }
    lemma_record_chars(t);
    let c = ascii_chars(scoreline_record(t));
    lemma_spaced_line_tokens(d1, d2, d3, d4, d5, h, c);
    assert(parse_number(h, 16, 0, u32::MAX as int) == Some(time as int)) by {
        assert('0' <= h[0] <= '9' || 'a' <= h[0] <= 'f');
    }
}

/// What `String::from_utf8_lossy` makes of `bytes`.
pub uninterp spec fn lossy_text(bytes: Seq<u8>) -> Seq<char>;

/// `String::from_utf8_lossy`: the text of `bytes`, with each invalid
/// sequence replaced by U+FFFD. The result is named; of it only this is
/// claimed: bytes that are all ASCII (valid UTF-8 with one character per
/// byte) come back unchanged, one character per byte.
#[verifier::external_body]
fn utf8_lossy(bytes: &[u8]) -> (s: String)
    ensures
        s@ == lossy_text(bytes@),
        all_ascii(bytes@) ==> s@ == ascii_chars(bytes@),
{
    String::from_utf8_lossy(bytes).into_owned()
}

fn is_space_char(c: char) -> (b: bool)
    ensures
        b == is_space(c),
{
    ('\t' <= c && c <= '\r') || c == ' ' || c == '\u{85}' || c == '\u{a0}' || c == '\u{1680}'
        || ('\u{2000}' <= c && c <= '\u{200a}') || c == '\u{2028}' || c == '\u{2029}'
        || c == '\u{202f}' || c == '\u{205f}' || c == '\u{3000}'
}

fn chars_of(text: &str) -> (v: Vec<char>)
    ensures
        v@ == text@,
{
    let mut v: Vec<char> = Vec::new();
    for c in iter: text.chars()
        invariant
            iter.seq() == text@,
            v@ == text@.subrange(0, iter.index() as int),
    {
        let ghost i = iter.index();
        v.push(c);
        assert(v@ =~= text@.subrange(0, i + 1));
    }
    assert(v@ =~= text@);
    v
}

fn skip_spaces(v: &Vec<char>, i: usize) -> (j: usize)
    requires
        i <= v@.len(),
    ensures
        j == space_end(v@, i as int),
        i <= j <= v@.len(),
        j < v@.len() ==> !is_space(v@[j as int]),
{
    let mut j = i;
    while j < v.len() && is_space_char(v[j])
        invariant
            i <= j <= v@.len(),
            space_end(v@, i as int) == space_end(v@, j as int),
            forall|m: int| i <= m < j ==> is_space(#[trigger] v@[m]),
        decreases v@.len() - j,
    {
        j = j + 1;
    }
    j
}

fn skip_word(v: &Vec<char>, i: usize) -> (j: usize)
    requires
        i <= v@.len(),
    ensures
        j == word_end(v@, i as int),
        i <= j <= v@.len(),
        j < v@.len() ==> is_space(v@[j as int]),
{
    let mut j = i;
    while j < v.len() && !is_space_char(v[j])
        invariant
            i <= j <= v@.len(),
            word_end(v@, i as int) == word_end(v@, j as int),
            forall|m: int| i <= m < j ==> !is_space(#[trigger] v@[m]),
        decreases v@.len() - j,
    {
        j = j + 1;
    }
    j
}

fn next_token(v: &Vec<char>, from: usize) -> (r: Option<(usize, usize)>)
    requires
        from <= v@.len(),
    ensures
        match r {
            None => token(v@, from as int) is None,
            Some(p) => token(v@, from as int) == Some((p.0 as int, p.1 as int)) && p.0 < p.1 <= v@.len(),
        },
{
    let a = skip_spaces(v, from);
    if a >= v.len() {
        return None;
    }
    let b = skip_word(v, a);
    proof {
        assert(!is_space(v@[a as int]));
        assert(word_end(v@, a as int) == word_end(v@, a + 1));
    }
    Some((a, b))
}

fn digit_of(c: char, radix: u32) -> (r: Option<u32>)
    requires
        radix == 10 || radix == 16,
    ensures
        match r {
            None => digit_value(c, radix as int) is None,
            Some(x) => digit_value(c, radix as int) == Some(x as int) && x < radix,
        },
{
    if '0' <= c && c <= '9' {
        Some(c as u32 - 48)
    } else if radix == 16 && 'a' <= c && c <= 'f' {
        Some(c as u32 - 87)
    } else if radix == 16 && 'A' <= c && c <= 'F' {
        Some(c as u32 - 55)
    } else {
        None
    }
}

proof fn lemma_digits_prefix(d: Seq<char>, radix: int, j: int)
    requires
        radix >= 1,
        0 <= j <= d.len(),
        digits_value(d, radix) is Some,
    ensures
        digits_value(d.take(j), radix) is Some,
        digits_value(d, radix)->0 >= digits_value(d.take(j), radix)->0 >= 0,
    decreases d.len(),
{
    if j == d.len() {
        assert(d.take(j) =~= d);
        lemma_digits_nonneg(d, radix);
    } else {
        let p = d.drop_last();
        lemma_digits_prefix(p, radix, j);
        assert(p.take(j) =~= d.take(j));
        let v = digits_value(p, radix)->0;
        let x = digit_value(d.last(), radix)->0;
        lemma_digits_nonneg(p, radix);
        assert(v * radix + x >= v) by (nonlinear_arith)
            requires v >= 0, radix >= 1, x >= 0;
    }
}

proof fn lemma_digits_nonneg(d: Seq<char>, radix: int)
    requires
        radix >= 1,
        digits_value(d, radix) is Some,
    ensures
        digits_value(d, radix)->0 >= 0,
    decreases d.len(),
{
    if d.len() > 0 {
        let v = digits_value(d.drop_last(), radix)->0;
        lemma_digits_nonneg(d.drop_last(), radix);
        assert(v * radix >= 0) by (nonlinear_arith)
            requires v >= 0, radix >= 1;
    }
}

proof fn lemma_digits_bad_prefix(d: Seq<char>, radix: int, j: int)
    requires
        radix >= 1,
        0 <= j <= d.len(),
        digits_value(d.take(j), radix) is None,
    ensures
        digits_value(d, radix) is None,
{
    if digits_value(d, radix) is Some {
        lemma_digits_prefix(d, radix, j);
    }
}

/// Read `v[a..b]` as a number of `radix` in `min..=max` (see `parse_number`).
fn parse_number_at(v: &Vec<char>, a: usize, b: usize, radix: u32, min: i64, max: i64) -> (r: Option<i64>)
    requires
        a <= b <= v@.len(),
        radix == 10 || radix == 16,
        -0x1_0000_0000 <= min <= 0 <= max <= 0x1_0000_0000,
    ensures
        match r {
            None => parse_number(v@.subrange(a as int, b as int), radix as int, min as int, max as int) is None,
            Some(x) => parse_number(v@.subrange(a as int, b as int), radix as int, min as int, max as int) == Some(x as int),
        },
{
    let ghost t = v@.subrange(a as int, b as int);
    if a == b {
        return None;
    }
    let first = v[a];
    if (first == '+' || first == '-') && b - a == 1 {
        return None;
    }
    let neg = first == '-' && min < 0;
    let start = if first == '+' || neg { a + 1 } else { a };
    let ghost body = v@.subrange(start as int, b as int);
    assert(body =~= (if t[0] == '+' || neg { t.drop_first() } else { t }));
    let limit: i64 = if neg { -min } else { max };
    let mut acc: i64 = 0;
    let mut i = start;
    while i < b
        invariant
            start <= i <= b,
            b <= v@.len(),
            body == v@.subrange(start as int, b as int),
            radix == 10 || radix == 16,
            0 <= limit <= 0x1_0000_0000,
            0 <= acc <= limit,
            digits_value(body.take(i - start), radix as int) == Some(acc as int),
            t == v@.subrange(a as int, b as int),
            t.len() > 0,
            !((t[0] == '+' || t[0] == '-') && t.len() == 1),
            neg == (t[0] == '-' && min < 0),
            body == (if t[0] == '+' || neg { t.drop_first() } else { t }),
            limit == (if neg { -min } else { max as int }),
            -0x1_0000_0000 <= min <= 0 <= max <= 0x1_0000_0000,
        decreases b - i,
    {
        let d = digit_of(v[i], radix);
        assert(body.take(i - start + 1).drop_last() =~= body.take(i - start));
        assert(body.take(i - start + 1).last() == v@[i as int]);
        match d {
            None => {
                proof {
                    lemma_digits_bad_prefix(body, radix as int, i - start + 1);
                }
                return None;
            },
            Some(x) => {
                assert(acc * (radix as i64) <= 0x1_0000_0000 * 16) by (nonlinear_arith)
                    requires 0 <= acc <= 0x1_0000_0000, radix <= 16;
                assert(acc * (radix as i64) >= 0) by (nonlinear_arith)
                    requires 0 <= acc, radix >= 0;
                let next = acc * (radix as i64) + (x as i64);
                if next > limit {
                    proof {
                        if digits_value(body, radix as int) is Some {
                            lemma_digits_prefix(body, radix as int, i - start + 1);
                        }
                    }
                    return None;
                }
                acc = next;
            },
        }
        i = i + 1;
    }
    assert(body.take(b - start) =~= body);
    if neg { Some(-acc) } else { Some(acc) }
}

/// Read the six numbers of a score line from its text (see
/// `scoreline_fields`).
pub fn parse_score_text(text: &str) -> (r: Option<(u32, i32, u32, u16, i32, u32)>)
    ensures
        r == scoreline_fields(text@),
{
    let v = chars_of(text);
    let ghost s = v@;
    let mut pos: usize = 0;
    let mut values: Vec<i64> = Vec::new();
    let mut k: usize = 0;
    while k < 6
        invariant
            s == v@,
            s == text@,
            pos <= v@.len(),
            k <= 6,
            values@.len() == k,
            k > 0 ==> (nth_token(s, (k - 1) as nat) matches Some(p) && p.1 == pos),
            k == 0 ==> pos == 0,
            forall|j: int| 0 <= j < k ==> field_value(s, j as nat, field_radix(j), field_min(j), field_max(j)) == Some(#[trigger] values@[j] as int),
        decreases 6 - k,
    {
        let tok = next_token(&v, pos);
        proof {
            if k > 0 {
                assert(nth_token(s, k as nat) == token(s, pos as int));
            }
        }
        match tok {
            None => {
                proof {
                    lemma_missing_field(s, k as nat);
                }
                return None;
            },
            Some((a, b)) => {
                let radix: u32 = if k == 5 { 16 } else { 10 };
                let min: i64 = if k == 1 || k == 4 { -0x8000_0000 } else { 0 };
                let max: i64 = if k == 1 || k == 4 { 0x7fff_ffff } else if k == 3 { 0xffff } else { 0xffff_ffff };
                match parse_number_at(&v, a, b, radix, min, max) {
                    None => {
                        proof {
                            lemma_bad_field(s, k as nat);
                        }
                        return None;
                    },
                    Some(x) => {
                        values.push(x);
                        pos = b;
                    },
                }
            },
        }
        k = k + 1;
    }
    Some((values[0] as u32, values[1] as i32, values[2] as u32, values[3] as u16, values[4] as i32, values[5] as u32))
}

spec fn field_radix(k: int) -> int {
    if k == 5 { 16 } else { 10 }
}

spec fn field_min(k: int) -> int {
    if k == 1 || k == 4 { i32::MIN as int } else { 0 }
}

spec fn field_max(k: int) -> int {
    if k == 1 || k == 4 { i32::MAX as int } else if k == 3 { u16::MAX as int } else { u32::MAX as int }
}

proof fn lemma_missing_field(s: Seq<char>, k: nat)
    requires
        k < 6,
        nth_token(s, k) is None,
    ensures
        scoreline_fields(s) is None,
{
    lemma_later_missing(s, k, 5);
}

proof fn lemma_later_missing(s: Seq<char>, k: nat, j: nat)
    requires
        k <= j,
        nth_token(s, k) is None,
    ensures
        nth_token(s, j) is None,
    decreases j - k,
{
    if j > k {
        lemma_later_missing(s, k, (j - 1) as nat);
    }
}

proof fn lemma_bad_field(s: Seq<char>, k: nat)
    requires
        k < 6,
        field_value(s, k, field_radix(k as int), field_min(k as int), field_max(k as int)) is None,
    ensures
        scoreline_fields(s) is None,
{
}

/// Read the six numbers of a 100-byte score-file line (see
/// `scoreline_fields`), after decoding its bytes as text.
pub fn parse_scoreline(line: &[u8]) -> (r: Option<(u32, i32, u32, u16, i32, u32)>)
    ensures
        r == scoreline_fields(lossy_text(line@)),
        all_ascii(line@) ==> r == scoreline_fields(ascii_chars(line@)),
{
    let text = utf8_lossy(line);
    parse_score_text(text.as_str())
}

} // verus!

verus! {

proof fn lemma_ascii_char_byte(c: char)
    requires
        c as u32 <= 127,
    ensures
        (c as u32 as u8) as char == c,
{
    let v: u32 = c as u32;
    assert(v as u8 == v) by (bit_vector)
        requires v <= 127;
    assert((v as u8) as char == c);
}

} // verus!

verus! {

fn hex_digit_of(d: u32) -> (c: char)
    requires
        d < 16,
    ensures
        c == hex_char(d as int),
{
    let b: u8 = if d < 10 { 48u8 + d as u8 } else { 87u8 + d as u8 };
    b as char
}

fn push_hex(v: &mut Vec<char>, n: u32)
    ensures
        final(v)@ == old(v)@ + hex_digits(n as nat),
    decreases n,
{
    if n >= 16 {
        push_hex(v, n / 16);
    }
    v.push(hex_digit_of(n % 16));
    proof {
        if n >= 16 {
            assert(hex_digits(n as nat) == hex_digits((n / 16) as nat).push(hex_char((n % 16) as int)));
        }
    }
}

fn push_all(v: &mut Vec<char>, w: Vec<char>)
    ensures
        final(v)@ == old(v)@ + w@,
{
    let mut w = w;
    let mut i: usize = 0;
    let ghost start = v@;
    while i < w.len()
        invariant
            i <= w@.len(),
            v@ == start + w@.subrange(0, i as int),
        decreases w@.len() - i,
    {
        v.push(w[i]);
        i = i + 1;
        assert(v@ =~= start + w@.subrange(0, i as int));
    }
    assert(w@.subrange(0, w@.len() as int) =~= w@);
}

/// The stored line of numbers of a score entry (see `scoreline_text` and
/// `scoreline_record`).
pub fn scoreline_bytes(e: &ScoreEntry) -> (line: Vec<u8>)
    ensures
        line@ == scoreline_record(scoreline_text(e.uid, e.score, e.flags, e.monster, e.level, e.time)),
{
    let mut t: Vec<char> = Vec::new();
    t.push(' ');
    push_all(&mut t, decimal_chars(e.uid as i64));
    t.push(' ');
    push_all(&mut t, decimal_chars(e.score as i64));
    t.push(' ');
    push_all(&mut t, decimal_chars(e.flags as i64));
    t.push(' ');
    push_all(&mut t, decimal_chars(e.monster as i64));
    t.push(' ');
    push_all(&mut t, decimal_chars(e.level as i64));
    t.push(' ');
    push_hex(&mut t, e.time);
    t.push(' ');
    t.push('\n');
    let ghost text = scoreline_text(e.uid, e.score, e.flags, e.monster, e.level, e.time);
    assert(t@ =~= text);
    let mut line: Vec<u8> = Vec::new();
    let mut i: usize = 0;
    while i < SCORELINE_LEN
        invariant
            i <= SCORELINE_LEN,
            t@ == text,
            line@.len() == i,
            forall|k: int| 0 <= k < i ==> #[trigger] line@[k] == scoreline_record(text)[k],
        decreases SCORELINE_LEN - i,
    {
        let b: u8 = if i < t.len() {
            let code: u32 = t[i] as u32;
            #[verifier::truncate]
            let low: u8 = code as u8;
            low
        } else {
            0u8
        };
        line.push(b);
        i = i + 1;
    }
    assert(line@ =~= scoreline_record(text));
    line
}

} // verus!

verus! {

/// Bytes of the name field of a score-file entry.
pub const NAME_LEN: usize = 1024;

/// Bytes of a whole score-file entry: the name field, then the line of
/// numbers.
pub const ENTRY_LEN: usize = 1124;

/// The end of the name stored in `field` from `i`: its first zero byte, or
/// the end of the field.
pub open spec fn name_end(field: Seq<u8>, i: int) -> int
    decreases field.len() - i,
{
    if i < 0 || i >= field.len() || field[i] == 0 { i } else { name_end(field, i + 1) }
}

/// The name stored in a name field: the bytes before its first zero byte.
pub open spec fn stored_name(field: Seq<u8>) -> Seq<u8> {
    field.subrange(0, name_end(field, 0))
}

/// The name field written for `name`: its bytes, then zero bytes.
pub open spec fn name_field(name: Seq<u8>) -> Seq<u8> {
    Seq::new(NAME_LEN as nat, |i: int| if i < name.len() { name[i] } else { 0u8 })
}

fn find_name_end(field: &[u8]) -> (n: usize)
    ensures
        n == name_end(field@, 0),
        n <= field@.len(),
{
    let mut i: usize = 0;
    while i < field.len() && field[i] != 0
        invariant
            i <= field@.len(),
            name_end(field@, 0) == name_end(field@, i as int),
        decreases field@.len() - i,
    {
        i = i + 1;
    }
    i
}

/// Read one score-file entry: the name before the first zero byte of the
/// name field, and the six numbers of the line after it (all zero when the
/// line cannot be read).
pub fn read_entry(record: &[u8]) -> (e: ScoreEntry)
    requires
        record@.len() == ENTRY_LEN,
    ensures
        e.name@ == stored_name(record@.subrange(0, NAME_LEN as int)),
        ({
            let line = record@.subrange(NAME_LEN as int, ENTRY_LEN as int);
            let fields = if all_ascii(line) { scoreline_fields(ascii_chars(line)) } else { scoreline_fields(lossy_text(line)) };
            match fields {
                Some((uid, score, flags, monster, level, time)) =>
                    e.uid == uid && e.score == score && e.flags == flags && e.monster == monster && e.level == level && e.time == time,
                None => e.uid == 0 && e.score == 0 && e.flags == 0 && e.monster == 0 && e.level == 0 && e.time == 0,
            }
        }),
{
    let mut field: Vec<u8> = Vec::new();
    let mut i: usize = 0;
    while i < NAME_LEN
        invariant
            record@.len() == ENTRY_LEN,
            i <= NAME_LEN,
            field@ == record@.subrange(0, i as int),
        decreases NAME_LEN - i,
    {
        field.push(record[i]);
        i = i + 1;
        assert(field@ =~= record@.subrange(0, i as int));
    }
    let end = find_name_end(field.as_slice());
    let mut name: Vec<u8> = Vec::new();
    let mut k: usize = 0;
    while k < end
        invariant
            end <= field@.len(),
            k <= end,
            name@ == field@.subrange(0, k as int),
        decreases end - k,
    {
        name.push(field[k]);
        k = k + 1;
        assert(name@ =~= field@.subrange(0, k as int));
    }
    let mut line: Vec<u8> = Vec::new();
    let mut j: usize = NAME_LEN;
    while j < ENTRY_LEN
        invariant
            record@.len() == ENTRY_LEN,
            NAME_LEN <= j <= ENTRY_LEN,
            line@ == record@.subrange(NAME_LEN as int, j as int),
        decreases ENTRY_LEN - j,
    {
        line.push(record[j]);
        j = j + 1;
        assert(line@ =~= record@.subrange(NAME_LEN as int, j as int));
    }
    match parse_scoreline(line.as_slice()) {
        Some((uid, score, flags, monster, level, time)) => ScoreEntry { uid, score, flags, monster, name, level, time },
        None => ScoreEntry { uid: 0, score: 0, flags: 0, monster: 0, name, level: 0, time: 0 },
    }
}

/// The bytes of one score-file entry: the name field, then the line of
/// numbers.
pub fn entry_record(e: &ScoreEntry) -> (record: Vec<u8>)
    requires
        e.name@.len() <= NAME_LEN,
    ensures
        record@ == name_field(e.name@) + scoreline_record(scoreline_text(e.uid, e.score, e.flags, e.monster, e.level, e.time)),
{
    let mut record: Vec<u8> = Vec::new();
    let mut i: usize = 0;
    while i < NAME_LEN
        invariant
            e.name@.len() <= NAME_LEN,
            i <= NAME_LEN,
            record@.len() == i,
            forall|k: int| 0 <= k < i ==> #[trigger] record@[k] == name_field(e.name@)[k],
        decreases NAME_LEN - i,
    {
        let b = if i < e.name.len() { e.name[i] } else { 0u8 };
        record.push(b);
        i = i + 1;
    }
    let line = scoreline_bytes(e);
    let mut j: usize = 0;
    let ghost head = record@;
    assert(head =~= name_field(e.name@));
    while j < line.len()
        invariant
            j <= line@.len(),
            record@ == head + line@.subrange(0, j as int),
        decreases line@.len() - j,
    {
        record.push(line[j]);
        j = j + 1;
        assert(record@ =~= head + line@.subrange(0, j as int));
    }
    assert(line@.subrange(0, line@.len() as int) =~= line@);
    record
}

/// An entry written to the score file reads back as it was: the same name
/// (when it is shorter than the field and holds no zero byte) and the same
/// six numbers.
pub proof fn lemma_entry_round_trip(name: Seq<u8>, uid: u32, score: i32, flags: u32, monster: u16, level: i32, time: u32)
    requires
        name.len() < NAME_LEN,
        forall|i: int| 0 <= i < name.len() ==> #[trigger] name[i] != 0,
    ensures
        ({
            let record = name_field(name) + scoreline_record(scoreline_text(uid, score, flags, monster, level, time));
            let line = record.subrange(NAME_LEN as int, ENTRY_LEN as int);
            &&& record.len() == ENTRY_LEN
            &&& stored_name(record.subrange(0, NAME_LEN as int)) == name
            &&& all_ascii(line)
            &&& scoreline_fields(ascii_chars(line)) == Some((uid, score, flags, monster, level, time))
        }),
{
    let line0 = scoreline_record(scoreline_text(uid, score, flags, monster, level, time));
    let record = name_field(name) + line0;
    assert(record.subrange(0, NAME_LEN as int) =~= name_field(name));
    assert(record.subrange(NAME_LEN as int, ENTRY_LEN as int) =~= line0);
    lemma_name_end(name_field(name), name.len() as int, 0);
    assert(name_field(name).subrange(0, name.len() as int) =~= name);
    lemma_scoreline_round_trip(uid, score, flags, monster, level, time);
}

proof fn lemma_name_end(field: Seq<u8>, n: int, i: int)
    requires
        0 <= i <= n < field.len(),
        field[n] == 0,
        forall|k: int| 0 <= k < n ==> #[trigger] field[k] != 0,
    ensures
        name_end(field, i) == n,
    decreases n - i,
{
    if i < n {
        lemma_name_end(field, n, i + 1);
    }
}

} // verus!
