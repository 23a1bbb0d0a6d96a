use sparkboard::error::EpdError;
use sparkboard::panel::{
    copied, filled, wait_until_idle, IdleWait, PollOutcome, GET_STATUS_OPCODE, POLL_DELAY_MS,
    SETTLE_DELAY_MS,
};

#[test]
fn protocol_constants() {
    assert_eq!(GET_STATUS_OPCODE, 0x71);
    assert_eq!(POLL_DELAY_MS, 20);
    assert_eq!(SETTLE_DELAY_MS, 100);
}

#[test]
fn idle_line_returns_after_exactly_one_poll() {
    // Busy line pre-set to the idle level before the first poll: the wait
    // ends after exactly one poll iteration, with no extra polling.
    let samples = vec![true];
    assert_eq!(wait_until_idle(&samples, 1), Ok(1));

    // A generous budget changes nothing: still exactly one poll, and the
    // remaining samples are never consumed.
    let samples = vec![true, false, false, false, false];
    assert_eq!(wait_until_idle(&samples, 5), Ok(1));
}

#[test]
fn busy_line_polls_until_idle() {
    let samples = vec![false, false, true, false];
    assert_eq!(wait_until_idle(&samples, 4), Ok(3));
}

#[test]
fn busy_line_never_idle_times_out() {
    let samples = vec![false, false, false];
    assert_eq!(wait_until_idle(&samples, 3), Err(EpdError::BusyTimeout));
}

#[test]
fn idle_wait_steps() {
    let mut w = IdleWait::new(2);
    assert_eq!(w.poll(false), PollOutcome::Again);
    assert_eq!(w.poll(false), PollOutcome::TimedOut);

    let mut w = IdleWait::new(2);
    assert_eq!(w.poll(true), PollOutcome::Idle);
    assert_eq!(w.polls, 1);
}

#[test]
fn error_variants_are_distinct() {
    assert_ne!(EpdError::Transport, EpdError::InvalidBufferSize);
    assert_ne!(EpdError::InvalidBufferSize, EpdError::BusyTimeout);
    assert_ne!(EpdError::Transport, EpdError::BusyTimeout);
}

#[test]
fn filled_and_copied_buffers() {
    let f = filled(5, 0xAB);
    assert_eq!(f, vec![0xAB; 5]);
    let c = copied(&f);
    assert_eq!(c, f);
    assert_eq!(filled(0, 0x00), Vec::<u8>::new());
}
