//! Driver for the 640 x 384 bichromatic (black + color ink) panel variant.
//!
//! Drawing combines two one-bit planes into the two-bit-per-pixel wire
//! stream of this panel; every method returns the exact ordered plan of
//! panel operations the owner of the bus must perform.

use vstd::prelude::*;

use crate::error::EpdError;
use crate::pack::{pack_bichromatic, pack_bichrome_spec, row_bytes};
use crate::panel::{filled, is_send_op, uniform, PanelOp, PanelState};

verus! {

/// Pixel columns of the panel.
pub const EPD7IN5BC_WIDTH: usize = 640;

/// Pixel rows of the panel.
pub const EPD7IN5BC_HEIGHT: usize = 384;

/// Bytes of one single-ink plane: one bit per pixel.
pub const EPD7IN5BC_PLANE_LEN: usize = EPD7IN5BC_WIDTH * EPD7IN5BC_HEIGHT / 8;

/// Bytes of one packed wire buffer: two bits per pixel, two pixels per byte.
pub const EPD7IN5BC_PACKED_LEN: usize = EPD7IN5BC_WIDTH * EPD7IN5BC_HEIGHT / 2;

/// The byte a full-panel clear fills the data transmission with: 0x33 is
/// two adjacent white pixels, 0x00 two adjacent black ones.
pub open spec fn clear_fill(black: bool) -> u8 {
    if black {
        0x00u8
    } else {
        0x33u8
    }
}

/// The two clear polarities produce buffers that differ in every byte.
pub proof fn lemma_clear_polarity(n: int)
    ensures
        forall|i: int| 0 <= i < n ==> uniform(n, clear_fill(true))[i] != uniform(
            n,
            clear_fill(false),
        )[i],
{
}

/// The display refresh tail every drawing operation ends with on this
/// model: power on, busy wait, refresh opcode, a 100 ms pause, busy wait.
pub open spec fn is_refresh_tail(plan: Seq<PanelOp>, at: int) -> bool {
    &&& plan[at] == PanelOp::Command(0x04u8)
    &&& plan[at + 1] == PanelOp::WaitIdle
    &&& plan[at + 2] == PanelOp::Command(0x12u8)
    &&& plan[at + 3] == PanelOp::DelayMs(100u64)
    &&& plan[at + 4] == PanelOp::WaitIdle
}

/// The 640 x 384 bichromatic panel.
pub struct EPD7in5bc {
    /// Protocol position of the physical panel.
    pub state: PanelState,
}

/// Plans the display refresh: power on, busy wait, refresh opcode, 100 ms
/// pause, busy wait.
fn turn_on_display() -> (ops: Vec<PanelOp>)
    ensures
        ops@.len() == 5,
        is_refresh_tail(ops@, 0),
{
    let mut ops: Vec<PanelOp> = Vec::new();
    ops.push(PanelOp::Command(0x04));
    ops.push(PanelOp::WaitIdle);
    ops.push(PanelOp::Command(0x12));
    ops.push(PanelOp::DelayMs(100));
    ops.push(PanelOp::WaitIdle);
    ops
}

impl EPD7in5bc {
    /// A fresh handle on a panel that has not been initialised yet.
    pub fn new() -> (d: EPD7in5bc)
        ensures
            d.state == PanelState::Unpowered,
    {
        EPD7in5bc { state: PanelState::Unpowered }
    }

    /// Pixel columns of the panel.
    pub fn width(&self) -> (w: usize)
        ensures
            w == EPD7IN5BC_WIDTH,
    {
        EPD7IN5BC_WIDTH
    }

    /// Pixel rows of the panel.
    pub fn height(&self) -> (h: usize)
        ensures
            h == EPD7IN5BC_HEIGHT,
    {
        EPD7IN5BC_HEIGHT
    }

    /// Plans the full initialisation: the reset pulse and the model's
    /// configuration table (power, panel, PLL, VCOM, booster, TCON, flash
    /// and resolution settings). Valid from any state; the panel is ready
    /// afterwards.
    pub fn init(&mut self) -> (plan: Vec<PanelOp>)
        ensures
            final(self).state == PanelState::Ready,
            plan@.len() == 11,
            plan@[0] == PanelOp::ResetPulse,
            is_send_op(plan@[1], 0x01, seq![0x37u8, 0x00u8]),
            is_send_op(plan@[2], 0x00, seq![0xCFu8, 0x08u8]),
            is_send_op(plan@[3], 0x30, seq![0x3Au8]),
            is_send_op(plan@[4], 0x82, seq![0x28u8]),
            is_send_op(plan@[5], 0x06, seq![0xC7u8, 0xCCu8, 0x15u8]),
            is_send_op(plan@[6], 0x50, seq![0x77u8]),
            is_send_op(plan@[7], 0x60, seq![0x22u8]),
            is_send_op(plan@[8], 0x65, seq![0x00u8]),
            is_send_op(plan@[9], 0x61, seq![0x02u8, 0x80u8, 0x01u8, 0x80u8]),
            is_send_op(plan@[10], 0xE5, seq![0x03u8]),
    {
        let mut plan: Vec<PanelOp> = Vec::new();
        plan.push(PanelOp::ResetPulse);

        // Power setting.
        let mut power: Vec<u8> = Vec::new();
        power.push(0x37);
        power.push(0x00);
        assert(power@ =~= seq![0x37u8, 0x00u8]);
        plan.push(PanelOp::Send(0x01, power));

        // Panel setting.
        let mut setting: Vec<u8> = Vec::new();
        setting.push(0xCF);
        setting.push(0x08);
        assert(setting@ =~= seq![0xCFu8, 0x08u8]);
        plan.push(PanelOp::Send(0x00, setting));

        // PLL control.
        let mut pll: Vec<u8> = Vec::new();
        pll.push(0x3A);
        assert(pll@ =~= seq![0x3Au8]);
        plan.push(PanelOp::Send(0x30, pll));

        // VCM DC setting: all temperature ranges.
        let mut vcm: Vec<u8> = Vec::new();
        vcm.push(0x28);
        assert(vcm@ =~= seq![0x28u8]);
        plan.push(PanelOp::Send(0x82, vcm));

        // Booster soft start.
        let mut booster: Vec<u8> = Vec::new();
        booster.push(0xC7);
        booster.push(0xCC);
        booster.push(0x15);
        assert(booster@ =~= seq![0xC7u8, 0xCCu8, 0x15u8]);
        plan.push(PanelOp::Send(0x06, booster));

        // VCOM and data interval setting.
        let mut vcom: Vec<u8> = Vec::new();
        vcom.push(0x77);
        assert(vcom@ =~= seq![0x77u8]);
        plan.push(PanelOp::Send(0x50, vcom));

        // TCON setting.
        let mut tcon: Vec<u8> = Vec::new();
        tcon.push(0x22);
        assert(tcon@ =~= seq![0x22u8]);
        plan.push(PanelOp::Send(0x60, tcon));

        // Flash control.
        let mut flash: Vec<u8> = Vec::new();
        flash.push(0x00);
        assert(flash@ =~= seq![0x00u8]);
        plan.push(PanelOp::Send(0x65, flash));

        // Resolution: 640 x 384, each dimension as two big-endian bytes.
        let mut tres: Vec<u8> = Vec::new();
        tres.push(0x02);
        tres.push(0x80);
        tres.push(0x01);
        tres.push(0x80);
        assert(tres@ =~= seq![0x02u8, 0x80u8, 0x01u8, 0x80u8]);
        plan.push(PanelOp::Send(0x61, tres));

        // Flash mode.
        let mut mode: Vec<u8> = Vec::new();
        mode.push(0x03);
        assert(mode@ =~= seq![0x03u8]);
        plan.push(PanelOp::Send(0xE5, mode));

        self.state = PanelState::Ready;
        plan
    }

    /// Plans a uniform fill of the panel followed by the refresh sequence.
    pub fn clear(&mut self, black: bool) -> (plan: Vec<PanelOp>)
        requires
            old(self).state == PanelState::Ready,
        ensures
            final(self).state == PanelState::Ready,
            plan@.len() == 6,
            is_send_op(plan@[0], 0x10, uniform(EPD7IN5BC_PACKED_LEN as int, clear_fill(black))),
            is_refresh_tail(plan@, 1),
    {
        let fill: u8 = if black {
            0x00
        } else {
            0x33
        };
        let pixels = filled(EPD7IN5BC_PACKED_LEN, fill);
        let mut plan: Vec<PanelOp> = Vec::new();
        plan.push(PanelOp::Send(0x10, pixels));
        let mut tail = turn_on_display();
        let ghost tailv = tail@;
        plan.append(&mut tail);
        proof {
            assert(plan@[1] == tailv[0]);
            assert(plan@[2] == tailv[1]);
            assert(plan@[3] == tailv[2]);
            assert(plan@[4] == tailv[3]);
            assert(plan@[5] == tailv[4]);
        }
        plan
    }

    /// Plans the transmission of a black plane and a color plane, combined
    /// into the two-bit wire stream, followed by the refresh sequence.
    /// Planes of any other (or mismatched) size are rejected and the panel
    /// is left untouched.
    pub fn draw_bichromatic(&mut self, black_buffer: &Vec<u8>, color_buffer: &Vec<u8>) -> (r:
        Result<Vec<PanelOp>, EpdError>)
        requires
            old(self).state == PanelState::Ready,
        ensures
            final(self).state == PanelState::Ready,
            r is Ok <==> black_buffer@.len() == EPD7IN5BC_PLANE_LEN && color_buffer@.len()
                == EPD7IN5BC_PLANE_LEN,
            r is Err ==> r->Err_0 == EpdError::InvalidBufferSize,
            r is Ok ==> r->Ok_0@.len() == 6 && is_send_op(
                r->Ok_0@[0], 0x10, pack_bichrome_spec(black_buffer@, color_buffer@),
            ) && is_refresh_tail(r->Ok_0@, 1),
    {
        assert(row_bytes(EPD7IN5BC_WIDTH as int) * EPD7IN5BC_HEIGHT == EPD7IN5BC_PLANE_LEN);
        let packed = match pack_bichromatic(
            black_buffer, color_buffer, EPD7IN5BC_WIDTH, EPD7IN5BC_HEIGHT,
        ) {
            Ok(p) => p,
            Err(e) => {
                return Err(e);
            },
        };
        let mut plan: Vec<PanelOp> = Vec::new();
        plan.push(PanelOp::Send(0x10, packed));
        let mut tail = turn_on_display();
        let ghost tailv = tail@;
        plan.append(&mut tail);
        proof {
            assert(plan@[1] == tailv[0]);
            assert(plan@[2] == tailv[1]);
            assert(plan@[3] == tailv[2]);
            assert(plan@[4] == tailv[3]);
            assert(plan@[5] == tailv[4]);
        }
        Ok(plan)
    }

    /// Plans the drawing of a single black plane: the color plane is an
    /// all-zero buffer built locally, so no color nibble is ever produced.
    pub fn draw(&mut self, buffer: &Vec<u8>) -> (r: Result<Vec<PanelOp>, EpdError>)
        requires
            old(self).state == PanelState::Ready,
        ensures
            final(self).state == PanelState::Ready,
            r is Ok <==> buffer@.len() == EPD7IN5BC_PLANE_LEN,
            r is Err ==> r->Err_0 == EpdError::InvalidBufferSize,
            r is Ok ==> r->Ok_0@.len() == 6 && is_send_op(
                r->Ok_0@[0],
                0x10,
                pack_bichrome_spec(buffer@, uniform(EPD7IN5BC_PLANE_LEN as int, 0)),
            ) && is_refresh_tail(r->Ok_0@, 1),
    {
        let zeroes = filled(EPD7IN5BC_PLANE_LEN, 0x00);
        self.draw_bichromatic(buffer, &zeroes)
    }

    /// Plans the power-off and deep-sleep sequence. The panel must be
    /// physically reset (a new `init`) before further use.
    pub fn sleep(&mut self) -> (plan: Vec<PanelOp>)
        requires
            old(self).state == PanelState::Ready,
        ensures
            final(self).state == PanelState::Sleeping,
            plan@.len() == 3,
            plan@[0] == PanelOp::Command(0x02u8),
            plan@[1] == PanelOp::WaitIdle,
            is_send_op(plan@[2], 0x07, seq![0xA5u8]),
    {
        let mut plan: Vec<PanelOp> = Vec::new();
        plan.push(PanelOp::Command(0x02));
        plan.push(PanelOp::WaitIdle);
        let mut deep: Vec<u8> = Vec::new();
        deep.push(0xA5);
        assert(deep@ =~= seq![0xA5u8]);
        plan.push(PanelOp::Send(0x07, deep));
        self.state = PanelState::Sleeping;
        plan
    }
}

} // verus!
