//! Terminal user interface: the screen model, key decoding and message
//! layout.

pub mod terminal;
pub mod input;

use vstd::prelude::*;

verus! {

/// Which logical screen a UI operation targets.
///
/// All windows in this game alias a single full-screen grid, so this is purely
/// descriptive.
#[derive(Clone, Copy, Debug, PartialEq, Eq, Structural)]
pub enum Window {
    /// The standard game screen.
    Stdscr,
    /// The "current screen" alias, used after refreshes.
    Curscr,
}

} // verus!
pub mod output;
pub mod prompt;
pub mod runtime;
pub mod status;
