//! Answers to the option screen's prompts: a switch, the inventory style and
//! a line of text, each read one key at a time.

use vstd::prelude::*;

use super::input::ESCAPE;
use crate::options::MAXINP;

verus! {

/// How a prompt ends.
#[derive(Clone, Copy, Debug, PartialEq, Eq, Structural)]
pub enum PromptEnd {
    /// The answer is taken; go on to the next option.
    Normal,
    /// Escape: leave the option screen.
    Quit,
    /// `-`: go back to the previous option.
    Back,
}

/// What one key does at a prompt for a choice.
#[derive(Clone, Copy, Debug, PartialEq, Eq, Structural)]
pub enum ChoiceKey {
    /// The choice is made (or kept, on return) and the prompt ends.
    End(PromptEnd),
    /// The key chose value `v`, which ends the prompt.
    Chose(i32),
    /// Not an answer: show the valid keys and ask again.
    Retry,
}

/// A switch prompt's answer to key `ch`: `t` or `T` is true, `f` or `F`
/// false, return keeps the value, Escape quits, `-` goes back.
pub open spec fn switch_answer(ch: i32) -> ChoiceKey {
    if ch == 116 || ch == 84 { ChoiceKey::Chose(1) }
    else if ch == 102 || ch == 70 { ChoiceKey::Chose(0) }
    else if ch == 10 || ch == 13 { ChoiceKey::End(PromptEnd::Normal) }
    else if ch == ESCAPE { ChoiceKey::End(PromptEnd::Quit) }
    else if ch == 45 { ChoiceKey::End(PromptEnd::Back) }
    else { ChoiceKey::Retry }
}

/// The switch prompt's answer to a key (see `switch_answer`); a chosen value
/// is `1` for true and `0` for false.
pub fn switch_key(ch: i32) -> (a: ChoiceKey)
    ensures
        a == switch_answer(ch),
{
    if ch == 116 || ch == 84 { ChoiceKey::Chose(1) }
    else if ch == 102 || ch == 70 { ChoiceKey::Chose(0) }
    else if ch == 10 || ch == 13 { ChoiceKey::End(PromptEnd::Normal) }
    else if ch == ESCAPE { ChoiceKey::End(PromptEnd::Quit) }
    else if ch == 45 { ChoiceKey::End(PromptEnd::Back) }
    else { ChoiceKey::Retry }
}

/// The inventory-style prompt's answer to key `ch`: `o`, `s` or `c` (either
/// case) choose overwrite, slow or clear; return keeps the style, Escape
/// quits, `-` goes back.
pub open spec fn style_answer(ch: i32) -> ChoiceKey {
    if ch == 111 || ch == 79 { ChoiceKey::Chose(0) }
    else if ch == 115 || ch == 83 { ChoiceKey::Chose(1) }
    else if ch == 99 || ch == 67 { ChoiceKey::Chose(2) }
    else if ch == 10 || ch == 13 { ChoiceKey::End(PromptEnd::Normal) }
    else if ch == ESCAPE { ChoiceKey::End(PromptEnd::Quit) }
    else if ch == 45 { ChoiceKey::End(PromptEnd::Back) }
    else { ChoiceKey::Retry }
}

/// The inventory-style prompt's answer to a key (see `style_answer`).
pub fn style_key(ch: i32) -> (a: ChoiceKey)
    ensures
        a == style_answer(ch),
{
    if ch == 111 || ch == 79 { ChoiceKey::Chose(0) }
    else if ch == 115 || ch == 83 { ChoiceKey::Chose(1) }
    else if ch == 99 || ch == 67 { ChoiceKey::Chose(2) }
    else if ch == 10 || ch == 13 { ChoiceKey::End(PromptEnd::Normal) }
    else if ch == ESCAPE { ChoiceKey::End(PromptEnd::Quit) }
    else if ch == 45 { ChoiceKey::End(PromptEnd::Back) }
    else { ChoiceKey::Retry }
}

/// A text prompt's line as typed so far.
pub struct LineInput {
    buf: Vec<u8>,
}

/// What a key does to the typed line `line`: the line after it, and how the
/// prompt ends if it does. Return and Escape end it; a timed-out read is
/// ignored; the erase key takes back one byte; the kill key clears the line;
/// a printable byte is added while there is room; anything else is ignored.
pub open spec fn line_step(line: Seq<u8>, ch: i32, erase: u8, kill: u8) -> (Seq<u8>, Option<PromptEnd>) {
    if ch == 10 || ch == 13 {
        (line, Some(PromptEnd::Normal))
    } else if ch == ESCAPE {
        (line, Some(PromptEnd::Quit))
    } else if ch == -1 {
        (line, None)
    } else if ch == erase as i32 {
        (if line.len() > 0 { line.drop_last() } else { line }, None)
    } else if ch == kill as i32 {
        (Seq::<u8>::empty(), None)
    } else if line.len() >= MAXINP || !(32 <= ch <= 126) {
        (line, None)
    } else {
        (line.push(ch as u8), None)
    }
}

impl LineInput {
    pub closed spec fn line(&self) -> Seq<u8> {
        self.buf@
    }

    /// An empty line.
    pub fn new() -> (l: LineInput)
        ensures
            l.line().len() == 0,
    {
        LineInput { buf: Vec::new() }
    }

    /// Take key `ch` (see `line_step`); `erase` and `kill` are the terminal's
    /// erase and line-kill keys.
    pub fn key(&mut self, ch: i32, erase: u8, kill: u8) -> (end: Option<PromptEnd>)
        requires
            old(self).line().len() <= MAXINP,
        ensures
            (final(self).line(), end) == line_step(old(self).line(), ch, erase, kill),
            final(self).line().len() <= MAXINP,
    {
        if ch == 10 || ch == 13 {
            Some(PromptEnd::Normal)
        } else if ch == ESCAPE {
            Some(PromptEnd::Quit)
        } else if ch == -1 {
            None
        } else if ch == erase as i32 {
            if self.buf.len() > 0 {
                self.buf.pop();
            }
            None
        } else if ch == kill as i32 {
            self.buf = Vec::new();
            None
        } else if self.buf.len() >= MAXINP || !(32 <= ch && ch <= 126) {
            None
        } else {
            self.buf.push(ch as u8);
            None
        }
    }

    /// The typed line, which replaces the option's text when it is not
    /// empty.
    pub fn value(&self) -> (v: Option<Vec<u8>>)
        ensures
            match v {
                Some(t) => self.line().len() > 0 && t@ == self.line(),
                None => self.line().len() == 0,
            },
    {
        if self.buf.len() > 0 {
            Some(self.buf.clone())
        } else {
            None
        }
    }
}

} // verus!
