use sparkboard::epd7in5_v2::{EPD7in5v2, EPD7IN5V2_BUFFER_LEN, EPD7IN5V2_HEIGHT, EPD7IN5V2_WIDTH};
use sparkboard::epd7in5bc::{
    EPD7in5bc, EPD7IN5BC_HEIGHT, EPD7IN5BC_PACKED_LEN, EPD7IN5BC_PLANE_LEN, EPD7IN5BC_WIDTH,
};
use sparkboard::error::EpdError;
use sparkboard::panel::{PanelOp, PanelState};

fn send_payload(op: &PanelOp) -> (u8, Vec<u8>) {
    match op {
        PanelOp::Send(cmd, data) => (*cmd, data.clone()),
        other => panic!("expected a send, got {:?}", other),
    }
}

fn ready_v2() -> EPD7in5v2 {
    let mut d = EPD7in5v2::new();
    let _ = d.init();
    d
}

fn ready_bc() -> EPD7in5bc {
    let mut d = EPD7in5bc::new();
    let _ = d.init();
    d
}

#[test]
fn v2_dimensions() {
    let d = EPD7in5v2::new();
    assert_eq!(d.width(), 800);
    assert_eq!(d.height(), 480);
    assert_eq!(EPD7IN5V2_WIDTH * EPD7IN5V2_HEIGHT / 8, EPD7IN5V2_BUFFER_LEN);
    assert_eq!(EPD7IN5V2_BUFFER_LEN, 48000);
}

#[test]
fn v2_init_sequence() {
    let mut d = EPD7in5v2::new();
    assert_eq!(d.state, PanelState::Unpowered);
    let plan = d.init();
    assert_eq!(d.state, PanelState::Ready);
    assert_eq!(plan.len(), 11);
    assert_eq!(plan[0], PanelOp::ResetPulse);
    assert_eq!(send_payload(&plan[1]), (0x01, vec![0x07, 0x07, 0x3f, 0x3f]));
    assert_eq!(plan[2], PanelOp::Command(0x04));
    assert_eq!(plan[3], PanelOp::DelayMs(100));
    assert_eq!(plan[4], PanelOp::WaitIdle);
    assert_eq!(send_payload(&plan[5]), (0x00, vec![0x1F]));
    assert_eq!(send_payload(&plan[6]), (0x61, vec![0x03, 0x20, 0x01, 0xE0]));
    assert_eq!(send_payload(&plan[7]), (0x15, vec![0x00]));
    assert_eq!(send_payload(&plan[8]), (0x50, vec![0x10, 0x07]));
    assert_eq!(send_payload(&plan[9]), (0x60, vec![0x22]));
    assert_eq!(send_payload(&plan[10]), (0x65, vec![0x00, 0x00, 0x00, 0x00]));
}

#[test]
fn v2_clear_polarities_differ_in_every_byte() {
    let mut d = ready_v2();
    let plan_black = d.clear(true);
    let plan_white = d.clear(false);
    let (cmd_b, fill_b) = send_payload(&plan_black[0]);
    assert_eq!(cmd_b, 0x13);
    let (cmd_w0, fill_w0) = send_payload(&plan_white[0]);
    let (cmd_w, fill_w) = send_payload(&plan_white[1]);
    assert_eq!((cmd_w0, cmd_w), (0x10, 0x13));
    assert_eq!(fill_b.len(), EPD7IN5V2_BUFFER_LEN);
    assert_eq!(fill_w.len(), EPD7IN5V2_BUFFER_LEN);
    assert_eq!(fill_w0.len(), EPD7IN5V2_BUFFER_LEN);
    for i in 0..EPD7IN5V2_BUFFER_LEN {
        assert_ne!(fill_b[i], fill_w[i]);
    }
    assert!(fill_b.iter().all(|&b| b == 0xFF));
    assert!(fill_w.iter().all(|&b| b == 0x00));
}

#[test]
fn v2_clear_ends_with_refresh() {
    let mut d = ready_v2();
    let plan = d.clear(true);
    assert_eq!(
        &plan[1..],
        &[PanelOp::Command(0x12), PanelOp::DelayMs(100), PanelOp::WaitIdle]
    );
}

#[test]
fn v2_draw_sends_buffer_then_refreshes() {
    let mut d = ready_v2();
    let buffer = vec![0x5Au8; EPD7IN5V2_BUFFER_LEN];
    let plan = d.draw(&buffer).unwrap();
    assert_eq!(plan.len(), 4);
    assert_eq!(send_payload(&plan[0]), (0x13, buffer));
    assert_eq!(
        &plan[1..],
        &[PanelOp::Command(0x12), PanelOp::DelayMs(100), PanelOp::WaitIdle]
    );
    assert_eq!(d.state, PanelState::Ready);
}

#[test]
fn v2_draw_rejects_wrong_size() {
    let mut d = ready_v2();
    assert_eq!(
        d.draw(&vec![0u8; EPD7IN5V2_BUFFER_LEN - 1]),
        Err(EpdError::InvalidBufferSize)
    );
    assert_eq!(d.state, PanelState::Ready);
}

#[test]
fn v2_sleep_sequence() {
    let mut d = ready_v2();
    let plan = d.sleep();
    assert_eq!(d.state, PanelState::Sleeping);
    assert_eq!(plan.len(), 3);
    assert_eq!(plan[0], PanelOp::Command(0x02));
    assert_eq!(plan[1], PanelOp::WaitIdle);
    assert_eq!(send_payload(&plan[2]), (0x07, vec![0xA5]));
}

#[test]
fn bc_dimensions() {
    let d = EPD7in5bc::new();
    assert_eq!(d.width(), 640);
    assert_eq!(d.height(), 384);
    assert_eq!(EPD7IN5BC_WIDTH * EPD7IN5BC_HEIGHT / 8, EPD7IN5BC_PLANE_LEN);
    assert_eq!(EPD7IN5BC_WIDTH * EPD7IN5BC_HEIGHT / 2, EPD7IN5BC_PACKED_LEN);
}

#[test]
fn bc_init_sequence() {
    let mut d = EPD7in5bc::new();
    let plan = d.init();
    assert_eq!(d.state, PanelState::Ready);
    assert_eq!(plan.len(), 11);
    assert_eq!(plan[0], PanelOp::ResetPulse);
    assert_eq!(send_payload(&plan[1]), (0x01, vec![0x37, 0x00]));
    assert_eq!(send_payload(&plan[2]), (0x00, vec![0xCF, 0x08]));
    assert_eq!(send_payload(&plan[3]), (0x30, vec![0x3A]));
    assert_eq!(send_payload(&plan[4]), (0x82, vec![0x28]));
    assert_eq!(send_payload(&plan[5]), (0x06, vec![0xC7, 0xCC, 0x15]));
    assert_eq!(send_payload(&plan[6]), (0x50, vec![0x77]));
    assert_eq!(send_payload(&plan[7]), (0x60, vec![0x22]));
    assert_eq!(send_payload(&plan[8]), (0x65, vec![0x00]));
    assert_eq!(send_payload(&plan[9]), (0x61, vec![0x02, 0x80, 0x01, 0x80]));
    assert_eq!(send_payload(&plan[10]), (0xE5, vec![0x03]));
}

#[test]
fn bc_clear_polarities_differ_in_every_byte() {
    let mut d = ready_bc();
    let plan_black = d.clear(true);
    let plan_white = d.clear(false);
    let (cmd_b, fill_b) = send_payload(&plan_black[0]);
    let (cmd_w, fill_w) = send_payload(&plan_white[0]);
    assert_eq!((cmd_b, cmd_w), (0x10, 0x10));
    assert_eq!(fill_b.len(), EPD7IN5BC_PACKED_LEN);
    assert_eq!(fill_w.len(), EPD7IN5BC_PACKED_LEN);
    for i in 0..EPD7IN5BC_PACKED_LEN {
        assert_ne!(fill_b[i], fill_w[i]);
    }
    assert!(fill_b.iter().all(|&b| b == 0x00));
    assert!(fill_w.iter().all(|&b| b == 0x33));
}

#[test]
fn bc_refresh_tail() {
    let mut d = ready_bc();
    let plan = d.clear(false);
    assert_eq!(
        &plan[1..],
        &[
            PanelOp::Command(0x04),
            PanelOp::WaitIdle,
            PanelOp::Command(0x12),
            PanelOp::DelayMs(100),
            PanelOp::WaitIdle,
        ]
    );
}

#[test]
fn bc_draw_bichromatic_packs_planes() {
    let mut d = ready_bc();
    let black = vec![0xFFu8; EPD7IN5BC_PLANE_LEN];
    let color = vec![0x00u8; EPD7IN5BC_PLANE_LEN];
    let plan = d.draw_bichromatic(&black, &color).unwrap();
    assert_eq!(plan.len(), 6);
    let (cmd, packed) = send_payload(&plan[0]);
    assert_eq!(cmd, 0x10);
    assert_eq!(packed.len(), EPD7IN5BC_PACKED_LEN);
    assert!(packed.iter().all(|&b| b == 0x00));
}

#[test]
fn bc_mismatched_planes_issue_no_operation() {
    // Mismatched plane sizes are rejected before any operation is planned:
    // the caller gets the error and an empty plan, so nothing reaches the
    // bus.
    let mut d = ready_bc();
    let black = vec![0u8; EPD7IN5BC_PLANE_LEN];
    let color = vec![0u8; EPD7IN5BC_PLANE_LEN - 1];
    let r = d.draw_bichromatic(&black, &color);
    assert_eq!(r, Err(EpdError::InvalidBufferSize));
    assert_eq!(d.state, PanelState::Ready);
}

#[test]
fn bc_draw_uses_zero_color_plane() {
    let mut d = ready_bc();
    let black = vec![0xFFu8; EPD7IN5BC_PLANE_LEN];
    let plan = d.draw(&black).unwrap();
    let (cmd, packed) = send_payload(&plan[0]);
    assert_eq!(cmd, 0x10);
    // All-black plane with no color: every pixel coded 0x0.
    assert!(packed.iter().all(|&b| b == 0x00));
    // And no byte carries the color code in either nibble.
    for b in packed {
        assert_ne!(b >> 4, 0x4);
        assert_ne!(b & 0x0F, 0x4);
    }
}

#[test]
fn bc_draw_rejects_wrong_size() {
    let mut d = ready_bc();
    assert_eq!(
        d.draw(&vec![0u8; EPD7IN5BC_PLANE_LEN + 1]),
        Err(EpdError::InvalidBufferSize)
    );
}

#[test]
fn bc_sleep_sequence() {
    let mut d = ready_bc();
    let plan = d.sleep();
    assert_eq!(d.state, PanelState::Sleeping);
    assert_eq!(plan[0], PanelOp::Command(0x02));
    assert_eq!(plan[1], PanelOp::WaitIdle);
    assert_eq!(send_payload(&plan[2]), (0x07, vec![0xA5]));
}
