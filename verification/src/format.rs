//! Decimal numbers and padded fields, as the status line and the score
//! table print them.

use vstd::prelude::*;

use crate::text::string_push;

verus! {

/// The character of decimal digit `d`.
pub open spec fn digit_char(d: int) -> char {
    (48 + d) as char
}

/// The decimal digits of `n`, most significant first.
pub open spec fn digits(n: nat) -> Seq<char>
    decreases n,
{
    if n < 10 {
        seq![digit_char(n as int)]
    } else {
        digits(n / 10).push(digit_char((n % 10) as int))
    }
}

/// `n` in decimal, with a leading `-` when negative.
pub open spec fn decimal(n: int) -> Seq<char> {
    if n < 0 { seq!['-'] + digits((-n) as nat) } else { digits(n as nat) }
}

/// `n` spaces.
pub open spec fn spaces(n: int) -> Seq<char> {
    Seq::new(if n > 0 { n as nat } else { 0 }, |_i: int| ' ')
}

/// `text` padded with spaces to `width` characters: on the left when
/// `right_aligned`, else on the right. Longer text is left as it is.
pub open spec fn field(text: Seq<char>, width: int, right_aligned: bool) -> Seq<char> {
    if right_aligned { spaces(width - text.len()) + text } else { text + spaces(width - text.len()) }
}

fn digit_of(d: u64) -> (c: char)
    requires
        d < 10,
    ensures
        c == digit_char(d as int),
{
    let b: u8 = 48u8 + d as u8;
    b as char
}

fn push_digits(v: &mut Vec<char>, n: u64)
    ensures
        final(v)@ == old(v)@ + digits(n as nat),
    decreases n,
{
    if n >= 10 {
        push_digits(v, n / 10);
    }
    v.push(digit_of(n % 10));
    proof {
        if n >= 10 {
            assert(digits(n as nat) == digits((n / 10) as nat).push(digit_char((n % 10) as int)));
        }
    }
}

/// The decimal form of `n`.
pub fn decimal_chars(n: i64) -> (v: Vec<char>)
    requires
        n > i64::MIN,
    ensures
        v@ == decimal(n as int),
{
    let mut v: Vec<char> = Vec::new();
    if n < 0 {
        v.push('-');
        push_digits(&mut v, (-n) as u64);
    } else {
        push_digits(&mut v, n as u64);
    }
    v
}

/// Append `text` padded to `width` (see `field`).
pub fn push_field(s: &mut String, text: &Vec<char>, width: usize, right_aligned: bool)
    ensures
        final(s)@ == old(s)@ + field(text@, width as int, right_aligned),
{
    let ghost start = s@;
    let pad: usize = if text.len() < width { width - text.len() } else { 0 };
    if !right_aligned {
        push_chars(s, text);
    }
    let mut i: usize = 0;
    let ghost mid = s@;
    while i < pad
        invariant
            i <= pad,
            s@ == mid + spaces(i as int),
        decreases pad - i,
    {
        string_push(s, ' ');
        i = i + 1;
        assert(s@ =~= mid + spaces(i as int));
    }
    assert(spaces(pad as int) =~= spaces(width - text@.len()));
    if right_aligned {
        push_chars(s, text);
    }
    assert(s@ =~= start + field(text@, width as int, right_aligned));
}

/// Append the characters of `text`.
pub fn push_chars(s: &mut String, text: &Vec<char>)
    ensures
        final(s)@ == old(s)@ + text@,
{
    let ghost start = s@;
    let mut i: usize = 0;
    while i < text.len()
        invariant
            i <= text@.len(),
            s@ == start + text@.subrange(0, i as int),
        decreases text@.len() - i,
    {
        string_push(s, text[i]);
        i = i + 1;
        assert(s@ =~= start + text@.subrange(0, i as int));
    }
    assert(text@.subrange(0, text@.len() as int) =~= text@);
}

pub(crate) proof fn lemma_digits_len(n: nat, k: nat, p: nat)
    requires
        k >= 1,
        p == pow10(k),
        n < p,
    ensures
        digits(n).len() <= k,
    decreases k,
{
    if n >= 10 {
        assert(k >= 2) by {
            if k == 1 {
                reveal_with_fuel(pow10, 2);
            }
        }
        lemma_pow10_step((k - 1) as nat);
        lemma_digits_len(n / 10, (k - 1) as nat, pow10((k - 1) as nat));
    }
}

pub(crate) open spec fn pow10(k: nat) -> nat
    decreases k,
{
    if k == 0 { 1 } else { 10 * pow10((k - 1) as nat) }
}

pub(crate) proof fn lemma_pow10_step(k: nat)
    ensures
        pow10(k + 1) == 10 * pow10(k),
{
}

/// The decimal form of a 32-bit number: at most eleven ASCII characters.
pub(crate) proof fn lemma_decimal_i32(n: int)
    requires
        i32::MIN <= n <= u32::MAX,
    ensures
        decimal(n).len() <= 11,
        decimal(n).len() >= 1,
        forall|i: int| 0 <= i < decimal(n).len() ==> ('0' <= #[trigger] decimal(n)[i] <= '9' || decimal(n)[i] == '-'),
{
    reveal_with_fuel(pow10, 11);
    if n < 0 {
        let m = (-n) as nat;
        lemma_digits_len(m, 10, pow10(10));
        lemma_digits_ascii(m);
        let t = decimal(n);
        assert forall|i: int| 0 <= i < t.len() implies ('0' <= #[trigger] t[i] <= '9' || t[i] == '-') by {
            if i > 0 {
                assert(t[i] == digits(m)[i - 1]);
            }
        }
    } else {
        lemma_digits_len(n as nat, 10, pow10(10));
        lemma_digits_ascii(n as nat);
    }
}

proof fn lemma_digits_ascii(n: nat)
    ensures
        digits(n).len() >= 1,
        forall|i: int| 0 <= i < digits(n).len() ==> '0' <= #[trigger] digits(n)[i] <= '9',
    decreases n,
{
    let d = digits(n);
    assert(digit_char((n % 10) as int) as int == 48 + n % 10);
    if n >= 10 {
        lemma_digits_ascii(n / 10);
        assert forall|i: int| 0 <= i < d.len() implies '0' <= #[trigger] d[i] <= '9' by {
            if i < d.len() - 1 {
                assert(d[i] == digits(n / 10)[i]);
            }
        }
    }
}

} // verus!
