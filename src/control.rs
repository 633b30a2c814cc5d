//! The control signals that keys stand for.
use vstd::prelude::*;

verus! {

/// A request from the user: stop, start over with a fresh grid, or lower or
/// raise the target frame rate by one frame per second.
#[derive(Clone, Copy, Debug, PartialEq, Eq, Structural)]
pub enum Control {
    Quit,
    Restart,
    FpsDown,
    FpsUp,
}

/// The control that a key stands for, if any.
pub open spec fn key_control(c: char) -> Option<Control> {
    if c == 'q' {
        Some(Control::Quit)
    } else if c == 'r' {
        Some(Control::Restart)
    } else if c == 'f' {
        Some(Control::FpsDown)
    } else if c == 's' {
        Some(Control::FpsUp)
    } else {
        None
    }
}

/// Maps a pressed key to its control: `q` quits, `r` restarts, `f` lowers and
/// `s` raises the frame rate; any other key does nothing.
pub fn control_for_key(c: char) -> (r: Option<Control>)
    ensures
        r == key_control(c),
{
    if c == 'q' {
        Some(Control::Quit)
    } else if c == 'r' {
        Some(Control::Restart)
    } else if c == 'f' {
        Some(Control::FpsDown)
    } else if c == 's' {
        Some(Control::FpsUp)
    } else {
        None
    }
}

} // verus!
