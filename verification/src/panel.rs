//! Panel state machine: the reset / init / busy-poll / draw / sleep
//! sequencing shared by all panel variants.
//!
//! Driver methods return plans of [`PanelOp`] steps; the owner of the bus
//! performs each step, expanding it through the transport planners, and
//! feeds busy-line samples back into [`IdleWait`] while a `WaitIdle` step
//! runs.

use vstd::prelude::*;

use crate::error::EpdError;

verus! {

/// Opcode that asks the panel for its status during a busy wait.
pub const GET_STATUS_OPCODE: u8 = 0x71;

/// Pause after each status poll before the busy line is sampled.
pub const POLL_DELAY_MS: u64 = 20;

/// Extra settle time after the busy line first reads idle.
pub const SETTLE_DELAY_MS: u64 = 100;

/// Protocol position of a panel between two driver calls. The reset pulse
/// and the configuration sequence are not observable from outside: `init`
/// performs both, so a panel is seen either before first use, ready, or in
/// deep sleep.
#[derive(Clone, Copy, Debug, PartialEq, Eq, Structural)]
pub enum PanelState {
    /// Not yet initialised (or physically power-cycled).
    Unpowered,
    /// Initialised; draw, clear and sleep are valid.
    Ready,
    /// In deep sleep; only a new `init` (which starts with the reset pulse)
    /// wakes the panel.
    Sleeping,
}

/// One step of a panel-level plan.
#[derive(Debug, PartialEq, Eq)]
pub enum PanelOp {
    /// Run the hardware reset pulse (the `transport::reset` plan).
    ResetPulse,
    /// Send an opcode with its payload (the `transport::send` plan).
    Send(u8, Vec<u8>),
    /// Send a bare opcode (the `transport::send_command` plan).
    Command(u8),
    /// Pause for the given number of milliseconds.
    DelayMs(u64),
    /// Poll the busy line until it reads idle, then wait the settle delay.
    WaitIdle,
}

/// Does `op` send opcode `cmd` with exactly `payload`?
pub open spec fn is_send_op(op: PanelOp, cmd: u8, payload: Seq<u8>) -> bool {
    op is Send && op->Send_0 == cmd && op->Send_1@ == payload
}

/// `n` copies of byte `b`.
pub open spec fn uniform(n: int, b: u8) -> Seq<u8> {
    Seq::new(n as nat, |i: int| b)
}

/// Builds a buffer of `n` copies of byte `b`.
pub fn filled(n: usize, b: u8) -> (v: Vec<u8>)
    ensures
        v@ == uniform(n as int, b),
{
    let mut v: Vec<u8> = Vec::new();
    let mut i: usize = 0;
    while i < n
        invariant
            i <= n,
            v@.len() == i,
            forall|t: int| 0 <= t < i ==> v@[t] == b,
        decreases n - i,
    {
        v.push(b);
        i = i + 1;
    }
    assert(v@ =~= uniform(n as int, b));
    v
}

/// Copies a byte buffer, so that a plan can own its payload.
pub fn copied(src: &Vec<u8>) -> (v: Vec<u8>)
    ensures
        v@ == src@,
{
    let n: usize = src.len();
    let mut v: Vec<u8> = Vec::new();
    let mut i: usize = 0;
    while i < n
        invariant
            i <= n,
            n == src@.len(),
            v@ == src@.take(i as int),
        decreases n - i,
    {
        v.push(src[i]);
        assert(v@ =~= src@.take(i + 1));
        i = i + 1;
    }
    assert(v@ =~= src@);
    v
}

/// Outcome of one busy-line poll.
#[derive(Clone, Copy, Debug, PartialEq, Eq, Structural)]
pub enum PollOutcome {
    /// The panel reported idle: wait the settle delay, then proceed.
    Idle,
    /// Still busy: poll again.
    Again,
    /// Still busy and the poll budget is exhausted.
    TimedOut,
}

/// Bounded busy-line wait.
///
/// Each round, the executor sends [`GET_STATUS_OPCODE`], pauses
/// [`POLL_DELAY_MS`], samples the busy line and hands the sample to
/// [`IdleWait::poll`]. The budget bounds the number of polls, so a hardware
/// fault surfaces as [`EpdError::BusyTimeout`] instead of a permanent hang.
pub struct IdleWait {
    /// Polls taken so far.
    pub polls: u32,
    /// Maximum number of polls before the wait times out.
    pub budget: u32,
}

impl IdleWait {
    /// A wait may always poll at least once and never beyond its budget.
    pub open spec fn wf(&self) -> bool {
        1 <= self.budget && self.polls <= self.budget
    }

    /// Starts a fresh wait with the given poll budget.
    pub fn new(budget: u32) -> (w: IdleWait)
        requires
            budget >= 1,
        ensures
            w.budget == budget,
            w.polls == 0,
            w.wf(),
    {
        IdleWait { polls: 0, budget }
    }

    /// Accounts one busy-line sample. An idle sample ends the wait at once;
    /// a busy sample asks for another poll until the budget is exhausted.
    pub fn poll(&mut self, busy_idle: bool) -> (r: PollOutcome)
        requires
            old(self).wf(),
            old(self).polls < old(self).budget,
        ensures
            final(self).budget == old(self).budget,
            final(self).polls == old(self).polls + 1,
            final(self).wf(),
            r == (if busy_idle {
                PollOutcome::Idle
            } else if old(self).polls + 1 == old(self).budget {
                PollOutcome::TimedOut
            } else {
                PollOutcome::Again
            }),
    {
        self.polls = self.polls + 1;
        if busy_idle {
            PollOutcome::Idle
        } else if self.polls == self.budget {
            PollOutcome::TimedOut
        } else {
            PollOutcome::Again
        }
    }
}

/// Does any of the first `k` busy-line samples read idle?
pub open spec fn idle_before(samples: Seq<bool>, k: int) -> bool {
    exists|i: int| 0 <= i < k && samples[i]
}

/// Runs a whole busy wait over a given sequence of busy-line samples, one
/// sample per poll, and returns the number of polls taken.
///
/// The wait succeeds exactly when an idle sample occurs within the budget;
/// it consumes no sample beyond the first idle one. A busy line that never
/// reads idle within the budget is a [`EpdError::BusyTimeout`].
pub fn wait_until_idle(samples: &Vec<bool>, budget: u32) -> (r: Result<u32, EpdError>)
    requires
        budget >= 1,
        samples@.len() >= budget,
    ensures
        r is Ok <==> idle_before(samples@, budget as int),
        r is Ok ==> 1 <= r->Ok_0 <= budget && samples@[r->Ok_0 - 1] && (forall|j: int|
            0 <= j < r->Ok_0 - 1 ==> !samples@[j]),
        r is Err ==> r->Err_0 == EpdError::BusyTimeout,
{
    let mut w = IdleWait::new(budget);
    let mut i: usize = 0;
    while i < budget as usize
        invariant
            budget >= 1,
            samples@.len() >= budget,
            w.budget == budget,
            w.polls == i,
            i <= budget,
            forall|j: int| 0 <= j < i ==> !samples@[j],
        decreases budget - i,
    {
        let idle: bool = samples[i];
        let outcome = w.poll(idle);
        i = i + 1;
        if idle {
            assert(outcome == PollOutcome::Idle);
            assert(idle_before(samples@, budget as int)) by {
                assert(0 <= i - 1 < budget && samples@[i - 1]);
            }
            return Ok(i as u32);
        }
    }
    assert(!idle_before(samples@, budget as int));
    Err(EpdError::BusyTimeout)
}

} // verus!
