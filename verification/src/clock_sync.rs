//! The clock-sync generator's schedule.
//!
//! The generator announces the link with a burst of startup commands, then
//! sends clock-sync commands, quickly at first and slowly ever after, until a
//! send fails. Sending and sleeping are the caller's part.

use crate::command::Command;
use vstd::prelude::*;

verus! {

/// How many startup commands open the schedule.
pub const STARTUP_BURST: u8 = 5;

/// How many emissions make up the burst and the quick clock-syncs together.
pub const WARMUP_TOTAL: u8 = 10;

/// Milliseconds to pause after each quick clock-sync.
pub const QUICK_PAUSE_MILLIS: u64 = 25;

/// Milliseconds to pause after each clock-sync of the steady phase.
pub const STEADY_PAUSE_MILLIS: u64 = 500;

/// One emission: the command to send, and how long to pause once it is
/// delivered.
#[derive(Clone, Copy, Debug, PartialEq, Eq)]
pub struct Emission {
    pub command: Command,
    pub pause_millis: u64,
}

/// The `n`-th emission of the schedule, counting from zero.
pub open spec fn schedule(n: nat) -> Emission {
    if n < STARTUP_BURST {
        Emission { command: Command::Startup, pause_millis: 0 }
    } else if n < WARMUP_TOTAL {
        Emission { command: Command::ClockSync, pause_millis: QUICK_PAUSE_MILLIS }
    } else {
        Emission { command: Command::ClockSync, pause_millis: STEADY_PAUSE_MILLIS }
    }
}

/// The generator: how far it is in the schedule, and whether it has stopped.
///
/// `sent` counts delivered commands up to [`WARMUP_TOTAL`] and stays there:
/// from then on every emission is the same.
#[derive(Clone, Copy, Debug, PartialEq, Eq)]
pub struct ClockSync {
    pub sent: u8,
    pub stopped: bool,
}

impl ClockSync {
    /// The count never passes [`WARMUP_TOTAL`].
    pub open spec fn wf(self) -> bool {
        self.sent <= WARMUP_TOTAL
    }

    /// What the generator sends next: nothing once it has stopped.
    pub open spec fn pending(self) -> Option<Emission> {
        if self.stopped {
            None
        } else {
            Some(schedule(self.sent as nat))
        }
    }

    /// The generator after a send that was delivered or not.
    pub open spec fn after(self, delivered: bool) -> ClockSync {
        if self.stopped {
            self
        } else if !delivered {
            ClockSync { sent: self.sent, stopped: true }
        } else if self.sent < WARMUP_TOTAL {
            ClockSync { sent: (self.sent + 1) as u8, stopped: false }
        } else {
            self
        }
    }

    /// The generator after a run of sends, oldest first.
    pub open spec fn after_all(self, delivered: Seq<bool>) -> ClockSync
        decreases delivered.len(),
    {
        if delivered.len() == 0 {
            self
        } else {
            self.after_all(delivered.drop_last()).after(delivered.last())
        }
    }

    /// A generator at the start of the schedule.
    pub fn new() -> (generator: ClockSync)
        ensures
            generator == (ClockSync { sent: 0, stopped: false }),
            generator.wf(),
    {
        ClockSync { sent: 0, stopped: false }
    }

    /// The emission that is due, or `None` once the generator has stopped.
    pub fn next(&self) -> (emission: Option<Emission>)
        ensures
            emission == self.pending(),
    {
        if self.stopped {
            None
        } else if self.sent < STARTUP_BURST {
            Some(Emission { command: Command::Startup, pause_millis: 0 })
        } else if self.sent < WARMUP_TOTAL {
            Some(Emission { command: Command::ClockSync, pause_millis: QUICK_PAUSE_MILLIS })
        } else {
            Some(Emission { command: Command::ClockSync, pause_millis: STEADY_PAUSE_MILLIS })
        }
    }

    /// Records how the send of the due emission went. A failed send stops
    /// the generator for good.
    pub fn record(&mut self, delivered: bool)
        ensures
            *final(self) == old(self).after(delivered),
            old(self).wf() ==> final(self).wf(),
    {
        if !self.stopped {
            if !delivered {
                self.stopped = true;
            } else if self.sent < WARMUP_TOTAL {
                self.sent = self.sent + 1;
            }
        }
    }
}

/// While every send is delivered the count is the number of sends, capped at
/// [`WARMUP_TOTAL`], and the generator has not stopped.
pub proof fn lemma_count(delivered: Seq<bool>)
    requires
        forall|i: int| 0 <= i < delivered.len() ==> delivered[i],
    ensures
        !(ClockSync { sent: 0, stopped: false }).after_all(delivered).stopped,
        (ClockSync { sent: 0, stopped: false }).after_all(delivered).sent == if delivered.len()
            < WARMUP_TOTAL {
            delivered.len() as int
        } else {
            WARMUP_TOTAL as int
        },
    decreases delivered.len(),
{
    if delivered.len() > 0 {
        lemma_count(delivered.drop_last());
        assert(delivered.last());
    }
}

/// While every send is delivered the generator follows the schedule: after
/// `delivered.len()` sends the emission that is due is the one with that
/// index.
pub proof fn lemma_follows_schedule(delivered: Seq<bool>)
    requires
        forall|i: int| 0 <= i < delivered.len() ==> delivered[i],
    ensures
        (ClockSync { sent: 0, stopped: false }).after_all(delivered).wf(),
        (ClockSync { sent: 0, stopped: false }).after_all(delivered).pending() == Some(
            schedule(delivered.len()),
        ),
{
    lemma_count(delivered);
}

/// A failed send stops the generator, whatever state it is in, and a stopped
/// generator stays stopped with nothing due.
pub proof fn lemma_failed_send_stops(generator: ClockSync, delivered: Seq<bool>)
    requires
        generator.stopped || exists|i: int| 0 <= i < delivered.len() && !delivered[i],
    ensures
        generator.after_all(delivered).stopped,
        generator.after_all(delivered).pending().is_none(),
    decreases delivered.len(),
{
    if delivered.len() > 0 {
        if generator.stopped || exists|i: int| 0 <= i < delivered.len() - 1 && !delivered[i] {
            if !generator.stopped {
                let i = choose|i: int| 0 <= i < delivered.len() - 1 && !delivered[i];
                assert(!delivered.drop_last()[i]);
            }
            lemma_failed_send_stops(generator, delivered.drop_last());
        } else {
            assert(!delivered.last());
        }
    }
}

} // verus!
