use vstd::prelude::*;

use super::terminal::{baudrate, Terminal};
use super::Window;

verus! {

/// Start the terminal and return the standard screen handle.
pub fn initialize(term: &mut Terminal) -> (w: Window)
    ensures
        w == Window::Stdscr,
        !final(term).spec_shut_down(),
        final(term).screen() == old(term).screen(),
        final(term).wf() == old(term).wf(),
        final(term).spec_cursor() == old(term).spec_cursor(),
        final(term).spec_standout() == old(term).spec_standout(),
        final(term).spec_input_timeout() == old(term).spec_input_timeout(),
{
    term.init();
    Window::Stdscr
}

/// Leave the game interface for the host terminal.
pub fn shutdown(term: &mut Terminal)
    ensures
        final(term).spec_shut_down(),
        final(term).screen() == old(term).screen(),
        final(term).wf() == old(term).wf(),
        final(term).spec_cursor() == old(term).spec_cursor(),
        final(term).spec_standout() == old(term).spec_standout(),
        final(term).spec_input_timeout() == old(term).spec_input_timeout(),
{
    term.shutdown();
}

/// Whether the terminal has been shut down.
pub fn is_shutdown(term: &Terminal) -> (b: bool)
    ensures
        b == term.spec_shut_down(),
{
    term.is_shutdown()
}

/// The terminal's reported line speed.
pub fn baud_rate() -> (b: i32)
    ensures
        b == 9600,
{
    baudrate()
}

} // verus!
