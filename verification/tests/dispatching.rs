use serial_comm::command::{Command, EaseDcCommand, EaseServoCommand};
use serial_comm::dispatch::{
    packet, send_packet, step, Directive, Dispatcher, LoopState, Phase, Received, TICK_MILLIS,
};
use serial_comm::time::TimeSpan;
use std::time::{Duration, Instant};

fn zero() -> TimeSpan {
    TimeSpan { secs: 0, nanos: 0 }
}

fn servo() -> Command {
    Command::EaseServo(EaseServoCommand { time: zero(), channel: 12, val: 4000 })
}

fn dc() -> Command {
    Command::EaseDc(EaseDcCommand { time: TimeSpan::from_millis(345), values: (10, -20) })
}

const SERVO_FRAME: [u8; 15] = [
    0x00, 0xD2, 0xFF, 0xEE, 0xFF, 0xEE, 0xFF, 0xEE, 0xFF, 0xEE, 0x0C, 0xA0, 0x0F, 0x1D, 0xCC,
];

const DC_FRAME: [u8; 16] = [
    0x00, 0x87, 0x41, 0x05, 0xFF, 0xEE, 0xFF, 0xEE, 0x0A, 0xFF, 0xEE, 0xEC, 0xFF, 0xDD, 0x2F, 0xCC,
];

#[test]
fn tick_is_fifty_milliseconds() {
    assert_eq!(TICK_MILLIS, 50);
}

#[test]
fn packet_of_each_command() {
    assert_eq!(packet(&servo(), zero()), Some(SERVO_FRAME.to_vec()));
    assert_eq!(packet(&dc(), TimeSpan::from_millis(1000)), Some(DC_FRAME.to_vec()));
    assert_eq!(
        packet(&Command::ClockSync, TimeSpan::from_millis(0x0102_0304)),
        Some(vec![0x00, 0x4B, 0x04, 0x03, 0x02, 0x01, 0xBC, 0xCC])
    );
    assert_eq!(packet(&Command::Startup, zero()), Some(vec![0x00, 0xFF, 0xBB, 0x69, 0xCC]));
}

#[test]
fn shutdown_has_no_packet() {
    assert_eq!(packet(&Command::ShutdownThreads, zero()), None);
    assert_eq!(send_packet(&Command::ShutdownThreads, Instant::now()), None);
}

#[test]
fn send_packet_stamps_against_the_clock() {
    assert_eq!(
        send_packet(&Command::Startup, Instant::now()),
        Some(vec![0x00, 0xFF, 0xBB, 0x69, 0xCC])
    );
    let wire = match send_packet(&Command::ClockSync, Instant::now()) {
        Some(wire) => wire,
        None => panic!("a clock-sync has a frame"),
    };
    assert_eq!(wire[0], 0x00);
    assert_eq!(wire[1], 0x4B);
    assert_eq!(wire[wire.len() - 1], 0xCC);
    assert!(wire.len() >= 8 && wire.len() <= 12);
}

#[test]
fn first_command_of_a_cycle_is_written() {
    let (next, directive) = step(LoopState::Running(Phase::Poll), Received::Command(servo()), zero());
    assert_eq!(next, LoopState::Running(Phase::Drain));
    assert_eq!(directive, Directive::Write(SERVO_FRAME.to_vec()));
}

#[test]
fn drained_command_is_written_the_same_way() {
    let (next, directive) =
        step(LoopState::Running(Phase::Drain), Received::Command(servo()), zero());
    assert_eq!(next, LoopState::Running(Phase::Drain));
    assert_eq!(directive, Directive::Write(SERVO_FRAME.to_vec()));
}

#[test]
fn empty_channel_at_the_head_moves_on_to_the_drain() {
    assert_eq!(
        step(LoopState::Running(Phase::Poll), Received::Empty, zero()),
        (LoopState::Running(Phase::Drain), Directive::Receive)
    );
}

#[test]
fn empty_channel_in_the_drain_sleeps() {
    assert_eq!(
        step(LoopState::Running(Phase::Drain), Received::Empty, zero()),
        (LoopState::Running(Phase::Poll), Directive::Sleep)
    );
}

#[test]
fn shutdown_stops_the_loop_and_writes_nothing() {
    for phase in [Phase::Poll, Phase::Drain] {
        assert_eq!(
            step(LoopState::Running(phase), Received::Command(Command::ShutdownThreads), zero()),
            (LoopState::Terminated, Directive::Stop)
        );
    }
}

#[test]
fn terminated_loop_stays_terminated() {
    for event in [
        Received::Command(servo()),
        Received::Command(Command::ShutdownThreads),
        Received::Empty,
        Received::Disconnected,
    ] {
        assert_eq!(
            step(LoopState::Terminated, event, zero()),
            (LoopState::Terminated, Directive::Stop)
        );
    }
}

#[test]
fn commands_are_written_in_the_order_received() {
    // X from one producer, then Y from another, both queued before the tick.
    let mut state = LoopState::Running(Phase::Poll);
    let mut written: Vec<Vec<u8>> = Vec::new();
    let mut sleeps: u32 = 0;
    let events = [
        (Received::Command(servo()), zero()),
        (Received::Command(dc()), TimeSpan::from_millis(1000)),
        (Received::Empty, TimeSpan::from_millis(1000)),
    ];
    for (event, elapsed) in events {
        let (next, directive) = step(state, event, elapsed);
        state = next;
        match directive {
            Directive::Write(wire) => written.push(wire),
            Directive::Sleep => sleeps += 1,
            Directive::Receive => {}
            Directive::Stop => panic!("the loop is still running"),
        }
    }
    assert_eq!(written, vec![SERVO_FRAME.to_vec(), DC_FRAME.to_vec()]);
    assert_eq!(sleeps, 1);
    assert_eq!(state, LoopState::Running(Phase::Poll));
}

#[test]
fn shutdown_in_a_batch_stops_before_what_follows() {
    let mut state = LoopState::Running(Phase::Poll);
    let mut written: Vec<Vec<u8>> = Vec::new();
    let events = [
        Received::Command(Command::Startup),
        Received::Command(Command::ShutdownThreads),
        Received::Command(servo()),
    ];
    for event in events {
        let (next, directive) = step(state, event, zero());
        state = next;
        if let Directive::Write(wire) = directive {
            written.push(wire);
        }
    }
    assert_eq!(written, vec![vec![0x00, 0xFF, 0xBB, 0x69, 0xCC]]);
    assert_eq!(state, LoopState::Terminated);
}

#[test]
fn dropping_all_senders_ends_the_loop_at_the_next_poll() {
    assert_eq!(
        step(LoopState::Running(Phase::Poll), Received::Disconnected, zero()),
        (LoopState::Terminated, Directive::Stop)
    );
}

#[test]
fn dropping_all_senders_during_a_drain_ends_the_loop_after_one_sleep() {
    let (state, directive) = step(LoopState::Running(Phase::Drain), Received::Disconnected, zero());
    assert_eq!(directive, Directive::Sleep);
    assert_eq!(state, LoopState::Running(Phase::Poll));
    assert_eq!(
        step(state, Received::Disconnected, zero()),
        (LoopState::Terminated, Directive::Stop)
    );
}

#[test]
fn dispatcher_starts_at_the_head_of_a_cycle() {
    let start = Instant::now();
    let dispatcher = Dispatcher::new(start);
    assert_eq!(dispatcher.starting_time, start);
    assert_eq!(dispatcher.state, LoopState::Running(Phase::Poll));
    assert!(!dispatcher.is_terminated());
}

#[test]
fn dispatcher_runs_a_cycle() {
    let start = Instant::now();
    let mut dispatcher = Dispatcher::new(start);
    assert_eq!(
        dispatcher.handle(Received::Command(Command::Startup)),
        Directive::Write(vec![0x00, 0xFF, 0xBB, 0x69, 0xCC])
    );
    assert_eq!(dispatcher.state, LoopState::Running(Phase::Drain));
    assert_eq!(dispatcher.handle(Received::Empty), Directive::Sleep);
    assert_eq!(dispatcher.state, LoopState::Running(Phase::Poll));
    assert_eq!(dispatcher.handle(Received::Empty), Directive::Receive);
    assert_eq!(dispatcher.handle(Received::Empty), Directive::Sleep);
    assert_eq!(dispatcher.handle(Received::Command(Command::ShutdownThreads)), Directive::Stop);
    assert!(dispatcher.is_terminated());
    assert_eq!(dispatcher.handle(Received::Command(Command::Startup)), Directive::Stop);
    assert!(dispatcher.is_terminated());
    assert_eq!(dispatcher.starting_time, start);
}

#[test]
fn dispatcher_stamps_frames_from_its_starting_time() {
    let start = match Instant::now().checked_sub(Duration::from_millis(70_000)) {
        Some(start) => start,
        None => return,
    };
    let mut dispatcher = Dispatcher::new(start);
    let wire = match dispatcher.handle(Received::Command(Command::ClockSync)) {
        Directive::Write(wire) => wire,
        other => panic!("expected a frame, got {:?}", other),
    };
    // 70 000 ms is 0x00011170: the third timestamp byte is 0x01 for the next
    // 65 seconds, and the fourth is zero and therefore stuffed.
    assert_eq!(wire[0], 0x00);
    assert_eq!(wire[1], 0x4B);
    let n: usize = wire.len();
    assert_eq!(&wire[n - 5..n - 2], &[0x01, 0xFF, 0xEE]);
    assert_eq!(wire[n - 1], 0xCC);
}

#[test]
fn dispatcher_ends_when_senders_are_gone() {
    let mut dispatcher = Dispatcher::new(Instant::now());
    assert_eq!(dispatcher.handle(Received::Disconnected), Directive::Stop);
    assert!(dispatcher.is_terminated());
}
