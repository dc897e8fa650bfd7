//! Outbound command protocol for a motion-control microcontroller on a serial
//! link: typed commands are encoded, byte-stuffed, checksummed and framed,
//! and the two loops that feed the link decide here what to do next.

pub mod clock_sync;
pub mod command;
pub mod crc;
pub mod dispatch;
pub mod frame;
pub mod time;

pub use crate::command::{Command, EaseDCCommand, EaseDcCommand, EaseServoCommand};
pub use crate::crc::create_crc8;
pub use crate::dispatch::send_packet;
pub use crate::time::TimeSpan;
