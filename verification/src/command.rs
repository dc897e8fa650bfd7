//! The commands the device understands and their canonical payloads.

use crate::time::{elapsed_since, TimeSpan, NANOS_PER_MILLI};
use std::time::Instant;
use vstd::prelude::*;

verus! {

/// Command byte of [`Command::EaseServo`].
pub const OP_EASE_SERVO: u8 = 0xD2;

/// Command byte of [`Command::EaseDc`].
pub const OP_EASE_DC: u8 = 0x87;

/// Command byte of [`Command::ClockSync`].
pub const OP_CLOCK_SYNC: u8 = 0x4B;

/// Command byte of [`Command::Startup`].
pub const OP_STARTUP: u8 = 0xCC;

/// Ease a servo: move `channel` linearly to `val`, arriving `time` from now.
#[derive(Clone, Copy, Debug, PartialEq, Eq)]
pub struct EaseServoCommand {
    pub time: TimeSpan,
    pub channel: u8,
    pub val: u16,
}

/// Ease the two DC motors: ramp to `values`, arriving `time` from now.
#[derive(Clone, Copy, Debug, PartialEq, Eq)]
pub struct EaseDcCommand {
    pub time: TimeSpan,
    pub values: (i16, i16),
}

/// [`EaseDcCommand`] with the abbreviation in capitals.
pub type EaseDCCommand = EaseDcCommand;

/// Everything that can be queued for the device.
///
/// `ShutdownThreads` is a sentinel for the host side only: it has no payload
/// and is never put on the wire.
#[derive(Clone, Copy, Debug, PartialEq, Eq)]
pub enum Command {
    EaseServo(EaseServoCommand),
    EaseDc(EaseDcCommand),
    ClockSync,
    Startup,
    ShutdownThreads,
}

/// The two bytes of `x`, least significant first.
pub open spec fn le_bytes_u16(x: u16) -> Seq<u8> {
    seq![(x % 256) as u8, (x / 256) as u8]
}

/// The four bytes of `x`, least significant first.
pub open spec fn le_bytes_u32(x: u32) -> Seq<u8> {
    seq![
        (x % 256) as u8,
        (x / 256 % 256) as u8,
        (x / 65536 % 256) as u8,
        (x / 16777216) as u8,
    ]
}

/// The two's-complement bit pattern of `x`.
pub open spec fn bits_i16(x: i16) -> u16 {
    if x < 0 {
        (x + 65536) as u16
    } else {
        x as u16
    }
}

/// The two bytes of `x` in two's complement, least significant first.
pub open spec fn le_bytes_i16(x: i16) -> Seq<u8> {
    le_bytes_u16(bits_i16(x))
}

/// The timestamp a command carries: the time elapsed since the reference
/// start plus the command's own delay, in whole milliseconds, reduced to 32
/// bits.
pub open spec fn wire_millis(elapsed: TimeSpan, delay: TimeSpan) -> u32 {
    ((elapsed.total_nanos() + delay.total_nanos()) / (NANOS_PER_MILLI as nat) % 0x1_0000_0000) as u32
}

impl Command {
    /// The delay the command asks for; zero where it carries none.
    pub open spec fn delay(self) -> TimeSpan {
        match self {
            Command::EaseServo(c) => c.time,
            Command::EaseDc(c) => c.time,
            _ => TimeSpan { secs: 0, nanos: 0 },
        }
    }

    /// The length of the canonical payload, which the variant alone decides.
    pub open spec fn payload_len(self) -> nat {
        match self {
            Command::EaseServo(_) => 8,
            Command::EaseDc(_) => 9,
            Command::ClockSync => 5,
            Command::Startup => 1,
            Command::ShutdownThreads => 0,
        }
    }

    /// The canonical payload of the command when `elapsed` has passed since
    /// the reference start.
    pub open spec fn payload(self, elapsed: TimeSpan) -> Seq<u8> {
        match self {
            Command::EaseServo(c) => seq![OP_EASE_SERVO] + le_bytes_u32(
                wire_millis(elapsed, c.time),
            ) + seq![c.channel] + le_bytes_u16(c.val),
            Command::EaseDc(c) => seq![OP_EASE_DC] + le_bytes_u32(wire_millis(elapsed, c.time))
                + le_bytes_i16(c.values.0) + le_bytes_i16(c.values.1),
            Command::ClockSync => seq![OP_CLOCK_SYNC] + le_bytes_u32(
                wire_millis(elapsed, TimeSpan { secs: 0, nanos: 0 }),
            ),
            Command::Startup => seq![OP_STARTUP],
            Command::ShutdownThreads => Seq::empty(),
        }
    }

    /// Whether this is the shutdown sentinel.
    pub fn is_shutdown(&self) -> (b: bool)
        ensures
            b == (*self == Command::ShutdownThreads),
    {
        match self {
            Command::ShutdownThreads => true,
            _ => false,
        }
    }

    /// Encodes the command with `elapsed` as the time since the reference
    /// start.
    pub fn into_vec_u8(&self, elapsed: TimeSpan) -> (v: Vec<u8>)
        ensures
            v@ == self.payload(elapsed),
            v@.len() == self.payload_len(),
    {
        let mut v: Vec<u8> = Vec::new();
        match self {
            Command::EaseServo(c) => {
                v.push(OP_EASE_SERVO);
                push_u32_le(&mut v, stamp(elapsed, c.time));
                v.push(c.channel);
                push_u16_le(&mut v, c.val);
            },
            Command::EaseDc(c) => {
                v.push(OP_EASE_DC);
                push_u32_le(&mut v, stamp(elapsed, c.time));
                push_u16_le(&mut v, pattern_i16(c.values.0));
                push_u16_le(&mut v, pattern_i16(c.values.1));
            },
            Command::ClockSync => {
                v.push(OP_CLOCK_SYNC);
                push_u32_le(&mut v, stamp(elapsed, TimeSpan { secs: 0, nanos: 0 }));
            },
            Command::Startup => {
                v.push(OP_STARTUP);
            },
            Command::ShutdownThreads => {},
        }
        assert(v@ =~= self.payload(elapsed));
        v
    }

    /// Encodes the command against the clock: the timestamp counts from
    /// `starting_time` to the moment of the call.
    pub fn convert_into_vec_u8(&self, starting_time: Instant) -> (v: Vec<u8>)
        ensures
            exists|elapsed: TimeSpan| elapsed.is_normal() && v@ == #[trigger] self.payload(elapsed),
            v@.len() == self.payload_len(),
    {
        let elapsed = elapsed_since(&starting_time);
        self.into_vec_u8(elapsed)
    }
}

/// Computes [`wire_millis`].
pub fn stamp(elapsed: TimeSpan, delay: TimeSpan) -> (millis: u32)
    ensures
        millis == wire_millis(elapsed, delay),
{
    let a: u128 = (elapsed.secs as u128) * 1_000_000_000 + (elapsed.nanos as u128);
    let b: u128 = (delay.secs as u128) * 1_000_000_000 + (delay.nanos as u128);
    let millis: u128 = (a + b) / 1_000_000;
    (millis % 0x1_0000_0000) as u32
}

/// Computes [`bits_i16`].
fn pattern_i16(x: i16) -> (bits: u16)
    ensures
        bits == bits_i16(x),
{
    if x < 0 {
        ((x as i32) + 65536) as u16
    } else {
        x as u16
    }
}

/// Appends the bytes of `x`, least significant first.
fn push_u16_le(v: &mut Vec<u8>, x: u16)
    ensures
        final(v)@ == old(v)@ + le_bytes_u16(x),
{
    v.push((x % 256) as u8);
    v.push((x / 256) as u8);
    assert(v@ =~= old(v)@ + le_bytes_u16(x));
}

/// Appends the bytes of `x`, least significant first.
fn push_u32_le(v: &mut Vec<u8>, x: u32)
    ensures
        final(v)@ == old(v)@ + le_bytes_u32(x),
{
    v.push((x % 256) as u8);
    v.push((x / 256 % 256) as u8);
    v.push((x / 65536 % 256) as u8);
    v.push((x / 16777216) as u8);
    assert(v@ =~= old(v)@ + le_bytes_u32(x));
}

/// The length of a canonical payload depends on the variant alone: neither
/// the fields nor the time change it.
pub proof fn lemma_payload_len(cmd: Command, elapsed: TimeSpan)
    ensures
        cmd.payload(elapsed).len() == cmd.payload_len(),
        cmd.payload_len() == match cmd {
            Command::EaseServo(_) => 8nat,
            Command::EaseDc(_) => 9nat,
            Command::ClockSync => 5nat,
            Command::Startup => 1nat,
            Command::ShutdownThreads => 0nat,
        },
        cmd.payload_len() == 0 <==> cmd == Command::ShutdownThreads,
{
}

} // verus!
