//! The dispatch loop's decisions.
//!
//! The loop polls the command channel without blocking, writes one frame per
//! command in the order of arrival, and sleeps between cycles. Receiving,
//! writing and sleeping are the caller's part; what to do next is decided
//! here, one received event at a time.

use crate::command::Command;
use crate::frame::{frame, frame_of};
use crate::time::{elapsed_since, TimeSpan};
use std::time::Instant;
use vstd::prelude::*;

verus! {

/// Milliseconds the loop sleeps between two cycles.
pub const TICK_MILLIS: u64 = 50;

/// Where a running loop stands in its cycle.
#[derive(Clone, Copy, Debug, PartialEq, Eq)]
pub enum Phase {
    /// At the head of a cycle: the next receive is the cycle's first.
    Poll,
    /// Past the first receive: taking whatever else is queued.
    Drain,
}

/// The state of the dispatch loop.
#[derive(Clone, Copy, Debug, PartialEq, Eq)]
pub enum LoopState {
    Running(Phase),
    Terminated,
}

/// What a non-blocking receive on the command channel gave.
#[derive(Clone, Copy, Debug, PartialEq, Eq)]
pub enum Received {
    /// A command was waiting.
    Command(Command),
    /// Nothing is queued.
    Empty,
    /// Nothing is queued and every sender is gone.
    Disconnected,
}

/// What the caller does before it reports the next receive.
#[derive(Clone, Debug, PartialEq, Eq)]
pub enum Directive {
    /// Write these bytes to the link, then receive again at once.
    Write(Vec<u8>),
    /// Receive again at once.
    Receive,
    /// Sleep for [`TICK_MILLIS`], then receive again.
    Sleep,
    /// Leave the loop.
    Stop,
}

/// A [`Directive`] with its bytes as a sequence.
pub enum DirectiveView {
    Write(Seq<u8>),
    Receive,
    Sleep,
    Stop,
}

impl View for Directive {
    type V = DirectiveView;

    open spec fn view(&self) -> DirectiveView {
        match *self {
            Directive::Write(wire) => DirectiveView::Write(wire@),
            Directive::Receive => DirectiveView::Receive,
            Directive::Sleep => DirectiveView::Sleep,
            Directive::Stop => DirectiveView::Stop,
        }
    }
}

/// The frame that goes out for a command when `elapsed` has passed since the
/// reference start: none for the shutdown sentinel.
pub open spec fn packet_of(cmd: Command, elapsed: TimeSpan) -> Option<Seq<u8>> {
    if cmd == Command::ShutdownThreads {
        None
    } else {
        Some(frame_of(cmd.payload(elapsed)))
    }
}

/// The bytes of an optional buffer.
pub open spec fn bytes_of(wire: Option<Vec<u8>>) -> Option<Seq<u8>> {
    match wire {
        Some(w) => Some(w@),
        None => None,
    }
}

/// One decision of the loop: the state after `event`, and what to do.
pub open spec fn step_of(state: LoopState, event: Received, elapsed: TimeSpan) -> (
    LoopState,
    DirectiveView,
) {
    match state {
        LoopState::Terminated => (LoopState::Terminated, DirectiveView::Stop),
        LoopState::Running(phase) => match event {
            Received::Command(cmd) => match packet_of(cmd, elapsed) {
                Some(wire) => (LoopState::Running(Phase::Drain), DirectiveView::Write(wire)),
                None => (LoopState::Terminated, DirectiveView::Stop),
            },
            Received::Empty => match phase {
                Phase::Poll => (LoopState::Running(Phase::Drain), DirectiveView::Receive),
                Phase::Drain => (LoopState::Running(Phase::Poll), DirectiveView::Sleep),
            },
            Received::Disconnected => match phase {
                Phase::Poll => (LoopState::Terminated, DirectiveView::Stop),
                Phase::Drain => (LoopState::Running(Phase::Poll), DirectiveView::Sleep),
            },
        },
    }
}

/// Builds the frame for `cmd` with `elapsed` as the time since the reference
/// start. The shutdown sentinel has no frame.
pub fn packet(cmd: &Command, elapsed: TimeSpan) -> (wire: Option<Vec<u8>>)
    ensures
        bytes_of(wire) == packet_of(*cmd, elapsed),
{
    if cmd.is_shutdown() {
        None
    } else {
        let payload = cmd.into_vec_u8(elapsed);
        Some(frame(payload.as_slice()))
    }
}

/// Builds the frame to send for `cmd` now, stamped against the clock from
/// `starting_time`. The shutdown sentinel has no frame.
pub fn send_packet(cmd: &Command, starting_time: Instant) -> (wire: Option<Vec<u8>>)
    ensures
        exists|elapsed: TimeSpan|
            elapsed.is_normal() && bytes_of(wire) == #[trigger] packet_of(*cmd, elapsed),
        wire.is_none() <==> *cmd == Command::ShutdownThreads,
{
    if cmd.is_shutdown() {
        let ghost any = TimeSpan { secs: 0, nanos: 0 };
        assert(any.is_normal() && bytes_of(None) == packet_of(*cmd, any));
        None
    } else {
        let elapsed = elapsed_since(&starting_time);
        packet(cmd, elapsed)
    }
}

/// Decides one step of the loop with `elapsed` as the time since the
/// reference start.
pub fn step(state: LoopState, event: Received, elapsed: TimeSpan) -> (out: (LoopState, Directive))
    ensures
        (out.0, out.1@) == step_of(state, event, elapsed),
{
    match state {
        LoopState::Terminated => (LoopState::Terminated, Directive::Stop),
        LoopState::Running(phase) => match event {
            Received::Command(cmd) => match packet(&cmd, elapsed) {
                Some(wire) => (LoopState::Running(Phase::Drain), Directive::Write(wire)),
                None => (LoopState::Terminated, Directive::Stop),
            },
            Received::Empty => match phase {
                Phase::Poll => (LoopState::Running(Phase::Drain), Directive::Receive),
                Phase::Drain => (LoopState::Running(Phase::Poll), Directive::Sleep),
            },
            Received::Disconnected => match phase {
                Phase::Poll => (LoopState::Terminated, Directive::Stop),
                Phase::Drain => (LoopState::Running(Phase::Poll), Directive::Sleep),
            },
        },
    }
}

/// The dispatch loop: its reference start time, fixed for its whole life, and
/// its state.
#[derive(Clone, Copy, Debug)]
pub struct Dispatcher {
    pub starting_time: Instant,
    pub state: LoopState,
}

impl Dispatcher {
    /// A loop at the head of its first cycle, with `starting_time` as the
    /// reference for every timestamp.
    pub fn new(starting_time: Instant) -> (dispatcher: Dispatcher)
        ensures
            dispatcher.starting_time == starting_time,
            dispatcher.state == LoopState::Running(Phase::Poll),
    {
        Dispatcher { starting_time, state: LoopState::Running(Phase::Poll) }
    }

    /// Whether the loop has ended.
    pub fn is_terminated(&self) -> (b: bool)
        ensures
            b == (self.state == LoopState::Terminated),
    {
        match self.state {
            LoopState::Terminated => true,
            LoopState::Running(_) => false,
        }
    }

    /// Takes one received event and says what to do. A frame is stamped
    /// against the clock at the moment of the call.
    pub fn handle(&mut self, event: Received) -> (directive: Directive)
        ensures
            final(self).starting_time == old(self).starting_time,
            exists|elapsed: TimeSpan|
                elapsed.is_normal() && (final(self).state, directive@) == #[trigger] step_of(
                    old(self).state,
                    event,
                    elapsed,
                ),
    {
        let elapsed = elapsed_since(&self.starting_time);
        let (next, directive) = step(self.state, event, elapsed);
        self.state = next;
        directive
    }
}

/// A received event together with the time that had passed since the
/// reference start when it was handled.
pub type Timed = (Received, TimeSpan);

/// The loop run over a sequence of events, oldest first: the state it ends
/// in, and the frames it had written, in the order of writing.
pub open spec fn run(state: LoopState, events: Seq<Timed>) -> (LoopState, Seq<Seq<u8>>)
    decreases events.len(),
{
    if events.len() == 0 {
        (state, Seq::empty())
    } else {
        let (before, written) = run(state, events.drop_last());
        let (next, directive) = step_of(before, events.last().0, events.last().1);
        match directive {
            DirectiveView::Write(wire) => (next, written.push(wire)),
            _ => (next, written),
        }
    }
}

/// The frames of the commands among `events`, in the order of arrival.
pub open spec fn frames_of(events: Seq<Timed>) -> Seq<Seq<u8>>
    decreases events.len(),
{
    if events.len() == 0 {
        Seq::empty()
    } else {
        let earlier = frames_of(events.drop_last());
        match events.last().0 {
            Received::Command(cmd) => match packet_of(cmd, events.last().1) {
                Some(wire) => earlier.push(wire),
                None => earlier,
            },
            _ => earlier,
        }
    }
}

/// The shutdown sentinel ends the loop from every state, and nothing is
/// written for it.
pub proof fn lemma_shutdown_stops(state: LoopState, elapsed: TimeSpan)
    ensures
        packet_of(Command::ShutdownThreads, elapsed).is_none(),
        step_of(state, Received::Command(Command::ShutdownThreads), elapsed) == (
            LoopState::Terminated,
            DirectiveView::Stop,
        ),
{
}

/// Every command but the shutdown sentinel has a frame, and the loop writes
/// exactly that frame for it, whether the command is the first of its cycle
/// or follows another.
pub proof fn lemma_command_is_written(phase: Phase, cmd: Command, elapsed: TimeSpan)
    requires
        cmd != Command::ShutdownThreads,
    ensures
        packet_of(cmd, elapsed) == Some(frame_of(cmd.payload(elapsed))),
        step_of(LoopState::Running(phase), Received::Command(cmd), elapsed) == (
            LoopState::Running(Phase::Drain),
            DirectiveView::Write(frame_of(cmd.payload(elapsed))),
        ),
{
}

/// A loop that has ended stays ended and writes nothing more.
pub proof fn lemma_terminated_is_final(events: Seq<Timed>)
    ensures
        run(LoopState::Terminated, events) == (LoopState::Terminated, Seq::<Seq<u8>>::empty()),
    decreases events.len(),
{
    if events.len() > 0 {
        lemma_terminated_is_final(events.drop_last());
    }
}

/// Once every sender is gone a running loop ends within one tick: if it is
/// draining it sleeps once, and the first receive after that ends it. Nothing
/// is written on the way.
pub proof fn lemma_disconnect_terminates(phase: Phase, first: TimeSpan, second: TimeSpan)
    ensures
        step_of(LoopState::Running(Phase::Poll), Received::Disconnected, first) == (
            LoopState::Terminated,
            DirectiveView::Stop,
        ),
        step_of(LoopState::Running(Phase::Drain), Received::Disconnected, first) == (
            LoopState::Running(Phase::Poll),
            DirectiveView::Sleep,
        ),
        run(
            LoopState::Running(phase),
            seq![(Received::Disconnected, first), (Received::Disconnected, second)],
        ) == (LoopState::Terminated, Seq::<Seq<u8>>::empty()),
{
    let events = seq![(Received::Disconnected, first), (Received::Disconnected, second)];
    let one = events.drop_last();
    assert(one.drop_last().len() == 0);
    assert(one.last() == (Received::Disconnected, first));
    assert(events.last() == (Received::Disconnected, second));
    reveal_with_fuel(run, 3);
}

/// A loop that is running after some events was running before the last of
/// them.
pub proof fn lemma_running_was_running(state: LoopState, events: Seq<Timed>)
    requires
        events.len() > 0,
        run(state, events).0 != LoopState::Terminated,
    ensures
        run(state, events.drop_last()).0 != LoopState::Terminated,
{
}

/// Frames go out in the order in which the commands were received, none
/// missing and none added: as long as the loop was still running when the
/// last event came, what it has written is the frames of the commands
/// received, in that order.
pub proof fn lemma_writes_in_order(state: LoopState, events: Seq<Timed>)
    requires
        events.len() > 0 ==> run(state, events.drop_last()).0 != LoopState::Terminated,
    ensures
        run(state, events).1 == frames_of(events),
    decreases events.len(),
{
    if events.len() > 0 {
        let earlier = events.drop_last();
        if earlier.len() > 0 {
            lemma_running_was_running(state, earlier);
        }
        lemma_writes_in_order(state, earlier);
    }
}

} // verus!
