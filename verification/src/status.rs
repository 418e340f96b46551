//! The line in the status bar, and the timer that clears it.

use crate::effect::{Instant, Notice};
use vstd::prelude::*;

verus! {

/// How long a line stays: long enough to read a confirmation without looking
/// for it, short enough not to claim it still when the user comes back.
pub const STATUS_LINGER: Instant = 6000;

/// The line in the status bar.
#[derive(Clone, Copy, Debug, PartialEq, Eq, Structural)]
pub struct StatusLine {
    pub notice: Option<Notice>,
    /// Moves with every line, so that a timer can tell whether the line it was
    /// started for is still the one on screen.
    pub generation: u64,
}

/// The bar once `notice` is shown.
pub open spec fn showing(status: StatusLine, notice: Notice) -> StatusLine {
    StatusLine {
        notice: Some(notice),
        generation: ((status.generation + 1) % 0x1_0000_0000_0000_0000) as u64,
    }
}

/// The bar once the timer that was started with `generation` has elapsed.
pub open spec fn elapsed(status: StatusLine, generation: u64) -> StatusLine {
    if status.generation == generation {
        StatusLine { notice: None, ..status }
    } else {
        status
    }
}

/// The timer of a line clears that line, and never the line after it.
pub proof fn law_a_timer_clears_its_own_line(status: StatusLine, first: Notice, second: Notice)
    ensures
        elapsed(showing(status, first), showing(status, first).generation).notice is None,
        elapsed(
            showing(showing(status, first), second),
            showing(status, first).generation,
        ) == showing(showing(status, first), second),
{
}

impl StatusLine {
    /// An empty bar.
    pub fn new() -> (status: Self)
        ensures
            status == (StatusLine { notice: None, generation: 0 }),
    {
        StatusLine { notice: None, generation: 0 }
    }

    /// Show a line. The timer that is to clear it carries the result, and
    /// replaces the timer before it.
    pub fn set_status(&mut self, notice: Notice) -> (generation: u64)
        ensures
            *final(self) == showing(*old(self), notice),
            generation == final(self).generation,
    {
        self.generation = self.generation.wrapping_add(1);
        self.notice = Some(notice);
        self.generation
    }

    /// The timer that was started with `generation` has elapsed.
    pub fn status_elapsed(&mut self, generation: u64)
        ensures
            *final(self) == elapsed(*old(self), generation),
    {
        if self.generation == generation {
            self.notice = None;
        }
    }
}

/// A line that is shown is the one on screen, under a generation of its own; a
/// timer of another generation leaves it there.
pub proof fn law_a_line_stays_until_its_timer(status: StatusLine, notice: Notice, generation: u64)
    ensures
        showing(status, notice).notice == Some(notice),
        showing(status, notice).generation != status.generation,
        generation != status.generation ==> elapsed(status, generation) == status,
        elapsed(status, status.generation).notice is None,
        elapsed(status, generation).generation == status.generation,
{
}

} // verus!
