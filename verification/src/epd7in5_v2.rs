//! Driver for the 800 x 480 monochrome panel variant.
//!
//! Every method returns the exact ordered plan of panel operations that the
//! owner of the bus must perform; the opcodes and payloads are
//! hardware-interoperability constants of this panel model.

use vstd::prelude::*;

use crate::error::EpdError;
use crate::panel::{copied, filled, is_send_op, uniform, PanelOp, PanelState};

verus! {

/// Pixel columns of the panel.
pub const EPD7IN5V2_WIDTH: usize = 800;

/// Pixel rows of the panel.
pub const EPD7IN5V2_HEIGHT: usize = 480;

/// Bytes of one full-panel monochrome buffer: one bit per pixel.
pub const EPD7IN5V2_BUFFER_LEN: usize = EPD7IN5V2_WIDTH * EPD7IN5V2_HEIGHT / 8;

/// The byte a full-panel clear fills the data transmission with.
pub open spec fn clear_fill(black: bool) -> u8 {
    if black {
        0xFFu8
    } else {
        0x00u8
    }
}

/// The two clear polarities produce buffers that differ in every byte.
pub proof fn lemma_clear_polarity(n: int)
    ensures
        forall|i: int| 0 <= i < n ==> uniform(n, clear_fill(true))[i] != uniform(
            n,
            clear_fill(false),
        )[i],
{
}

/// The display refresh tail every drawing operation ends with: refresh
/// opcode, a 100 ms pause, then the busy wait.
pub open spec fn is_refresh_tail(plan: Seq<PanelOp>, at: int) -> bool {
    &&& plan[at] == PanelOp::Command(0x12u8)
    &&& plan[at + 1] == PanelOp::DelayMs(100u64)
    &&& plan[at + 2] == PanelOp::WaitIdle
}

/// The 800 x 480 monochrome panel.
pub struct EPD7in5v2 {
    /// Protocol position of the physical panel.
    pub state: PanelState,
}

/// Plans the display refresh: refresh opcode, 100 ms pause, busy wait.
fn turn_on_display() -> (ops: Vec<PanelOp>)
    ensures
        ops@.len() == 3,
        is_refresh_tail(ops@, 0),
{
    let mut ops: Vec<PanelOp> = Vec::new();
    ops.push(PanelOp::Command(0x12));
    ops.push(PanelOp::DelayMs(100));
    ops.push(PanelOp::WaitIdle);
    ops
}

impl EPD7in5v2 {
    /// A fresh handle on a panel that has not been initialised yet.
    pub fn new() -> (d: EPD7in5v2)
        ensures
            d.state == PanelState::Unpowered,
    {
        EPD7in5v2 { state: PanelState::Unpowered }
    }

    /// Pixel columns of the panel.
    pub fn width(&self) -> (w: usize)
        ensures
            w == EPD7IN5V2_WIDTH,
    {
        EPD7IN5V2_WIDTH
    }

    /// Pixel rows of the panel.
    pub fn height(&self) -> (h: usize)
        ensures
            h == EPD7IN5V2_HEIGHT,
    {
        EPD7IN5V2_HEIGHT
    }

    /// Plans the full initialisation: the reset pulse, the model's
    /// configuration table (power, panel, resolution, VCOM and TCON
    /// settings) and the power-on busy wait. Valid from any state; the panel
    /// is ready afterwards.
    pub fn init(&mut self) -> (plan: Vec<PanelOp>)
        ensures
            final(self).state == PanelState::Ready,
            plan@.len() == 11,
            plan@[0] == PanelOp::ResetPulse,
            is_send_op(plan@[1], 0x01, seq![0x07u8, 0x07u8, 0x3fu8, 0x3fu8]),
            plan@[2] == PanelOp::Command(0x04u8),
            plan@[3] == PanelOp::DelayMs(100u64),
            plan@[4] == PanelOp::WaitIdle,
            is_send_op(plan@[5], 0x00, seq![0x1Fu8]),
            is_send_op(plan@[6], 0x61, seq![0x03u8, 0x20u8, 0x01u8, 0xE0u8]),
            is_send_op(plan@[7], 0x15, seq![0x00u8]),
            is_send_op(plan@[8], 0x50, seq![0x10u8, 0x07u8]),
            is_send_op(plan@[9], 0x60, seq![0x22u8]),
            is_send_op(plan@[10], 0x65, seq![0x00u8, 0x00u8, 0x00u8, 0x00u8]),
    {
        let mut plan: Vec<PanelOp> = Vec::new();
        plan.push(PanelOp::ResetPulse);

        // Power setting: VGH=20V, VGL=-20V, VDH=15V, VDL=-15V.
        let mut power: Vec<u8> = Vec::new();
        power.push(0x07);
        power.push(0x07);
        power.push(0x3f);
        power.push(0x3f);
        assert(power@ =~= seq![0x07u8, 0x07u8, 0x3fu8, 0x3fu8]);
        plan.push(PanelOp::Send(0x01, power));

        // Power on, then wait for the panel to come up.
        plan.push(PanelOp::Command(0x04));
        plan.push(PanelOp::DelayMs(100));
        plan.push(PanelOp::WaitIdle);

        // Panel setting.
        let mut setting: Vec<u8> = Vec::new();
        setting.push(0x1F);
        assert(setting@ =~= seq![0x1Fu8]);
        plan.push(PanelOp::Send(0x00, setting));

        // Resolution: 800 x 480.
        let mut tres: Vec<u8> = Vec::new();
        tres.push(0x03);
        tres.push(0x20);
        tres.push(0x01);
        tres.push(0xE0);
        assert(tres@ =~= seq![0x03u8, 0x20u8, 0x01u8, 0xE0u8]);
        plan.push(PanelOp::Send(0x61, tres));

        let mut dual: Vec<u8> = Vec::new();
        dual.push(0x00);
        assert(dual@ =~= seq![0x00u8]);
        plan.push(PanelOp::Send(0x15, dual));

        // VCOM and data interval settings.
        let mut vcom: Vec<u8> = Vec::new();
        vcom.push(0x10);
        vcom.push(0x07);
        assert(vcom@ =~= seq![0x10u8, 0x07u8]);
        plan.push(PanelOp::Send(0x50, vcom));

        // TCON setting.
        let mut tcon: Vec<u8> = Vec::new();
        tcon.push(0x22);
        assert(tcon@ =~= seq![0x22u8]);
        plan.push(PanelOp::Send(0x60, tcon));

        // Gate/source start position.
        let mut gsst: Vec<u8> = Vec::new();
        gsst.push(0x00);
        gsst.push(0x00);
        gsst.push(0x00);
        gsst.push(0x00);
        assert(gsst@ =~= seq![0x00u8, 0x00u8, 0x00u8, 0x00u8]);
        plan.push(PanelOp::Send(0x65, gsst));

        self.state = PanelState::Ready;
        plan
    }

    /// Plans a uniform fill of the panel followed by the refresh sequence.
    ///
    /// Clearing to black sends a full buffer of 0xFF through the data start
    /// transmission; clearing to white sends zeroes through both the old and
    /// the new data transmission.
    pub fn clear(&mut self, black: bool) -> (plan: Vec<PanelOp>)
        requires
            old(self).state == PanelState::Ready,
        ensures
            final(self).state == PanelState::Ready,
            black ==> plan@.len() == 4 && is_send_op(
                plan@[0], 0x13, uniform(EPD7IN5V2_BUFFER_LEN as int, clear_fill(true)),
            ) && is_refresh_tail(plan@, 1),
            !black ==> plan@.len() == 5 && is_send_op(
                plan@[0], 0x10, uniform(EPD7IN5V2_BUFFER_LEN as int, clear_fill(false)),
            ) && is_send_op(
                plan@[1], 0x13, uniform(EPD7IN5V2_BUFFER_LEN as int, clear_fill(false)),
            ) && is_refresh_tail(plan@, 2),
    {
        let mut plan: Vec<PanelOp> = Vec::new();
        if black {
            let ffs = filled(EPD7IN5V2_BUFFER_LEN, 0xFF);
            plan.push(PanelOp::Send(0x13, ffs));
        } else {
            let zeroes_old = filled(EPD7IN5V2_BUFFER_LEN, 0x00);
            let zeroes_new = filled(EPD7IN5V2_BUFFER_LEN, 0x00);
            plan.push(PanelOp::Send(0x10, zeroes_old));
            plan.push(PanelOp::Send(0x13, zeroes_new));
        }
        let mut tail = turn_on_display();
        let ghost head = plan@;
        let ghost tailv = tail@;
        plan.append(&mut tail);
        proof {
            assert(plan@[head.len() as int] == tailv[0]);
            assert(plan@[head.len() as int + 1] == tailv[1]);
            assert(plan@[head.len() as int + 2] == tailv[2]);
        }
        plan
    }

    /// Plans the transmission of a full-panel monochrome buffer followed by
    /// the refresh sequence. A buffer of any other size is rejected and the
    /// panel is left untouched.
    pub fn draw(&mut self, buffer: &Vec<u8>) -> (r: Result<Vec<PanelOp>, EpdError>)
        requires
            old(self).state == PanelState::Ready,
        ensures
            final(self).state == PanelState::Ready,
            r is Ok <==> buffer@.len() == EPD7IN5V2_BUFFER_LEN,
            r is Err ==> r->Err_0 == EpdError::InvalidBufferSize,
            r is Ok ==> r->Ok_0@.len() == 4 && is_send_op(r->Ok_0@[0], 0x13, buffer@)
                && is_refresh_tail(r->Ok_0@, 1),
    {
        if buffer.len() != EPD7IN5V2_BUFFER_LEN {
            return Err(EpdError::InvalidBufferSize);
        }
        let mut plan: Vec<PanelOp> = Vec::new();
        plan.push(PanelOp::Send(0x13, copied(buffer)));
        let mut tail = turn_on_display();
        let ghost head = plan@;
        let ghost tailv = tail@;
        plan.append(&mut tail);
        proof {
            assert(plan@[1] == tailv[0]);
            assert(plan@[2] == tailv[1]);
            assert(plan@[3] == tailv[2]);
        }
        Ok(plan)
    }

    /// Plans the power-off and deep-sleep sequence. The panel must be
    /// physically reset (a new `init`) before further use.
    pub fn sleep(&mut self) -> (plan: Vec<PanelOp>)
        requires
            old(self).state == PanelState::Ready,
        ensures
            final(self).state == PanelState::Sleeping,
            plan@.len() == 3,
            plan@[0] == PanelOp::Command(0x02u8),
            plan@[1] == PanelOp::WaitIdle,
            is_send_op(plan@[2], 0x07, seq![0xA5u8]),
    {
        let mut plan: Vec<PanelOp> = Vec::new();
        plan.push(PanelOp::Command(0x02));
        plan.push(PanelOp::WaitIdle);
        let mut deep: Vec<u8> = Vec::new();
        deep.push(0xA5);
        assert(deep@ =~= seq![0xA5u8]);
        plan.push(PanelOp::Send(0x07, deep));
        self.state = PanelState::Sleeping;
        plan
    }
}

} // verus!
