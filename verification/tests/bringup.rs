//! Tests of the bring-up path: byte encoding, the memory-access-control
//! byte, the reset trace, the init command sequence, and the state machine.

use esplay_display::controller::madctl_byte;
use esplay_display::controller::DisplayController;
use esplay_display::encode::u16_to_be;
use esplay_display::ColorOrder;
use esplay_display::InitState;
use esplay_display::Orientation;
use esplay_display::WireOp;

/// Asserts that `ops[at..]` starts with one command transaction for `opcode`
/// with exactly `params`, and returns the index just past it.
fn expect_command(ops: &[WireOp], at: usize, opcode: u8, params: &[u8]) -> usize {
    assert_eq!(ops[at], WireOp::CsAssert, "command must assert chip-select at {at}");
    assert_eq!(ops[at + 1], WireOp::DcLow, "command must drive DC low at {}", at + 1);
    match &ops[at + 2] {
        WireOp::SpiWrite(bytes) => {
            assert_eq!(bytes[0], opcode, "opcode at {}", at + 2);
            assert_eq!(&bytes[1..], params, "parameters of opcode {opcode:#04x}");
        }
        other => panic!("expected an SPI write at {}, found {other:?}", at + 2),
    }
    assert_eq!(ops[at + 3], WireOp::CsRelease, "command must release chip-select");
    at + 4
}

fn expect_delay(ops: &[WireOp], at: usize, ms: u32) -> usize {
    assert_eq!(ops[at], WireOp::DelayMs(ms), "expected a {ms} ms delay at {at}");
    at + 1
}

#[test]
fn big_endian_encoding() {
    assert_eq!(u16_to_be(0x001f), (0x00, 0x1f));
    assert_eq!(u16_to_be(0xf800), (0xf8, 0x00));
    assert_eq!(u16_to_be(0x07e0), (0x07, 0xe0));
    assert_eq!(u16_to_be(0x013f), (0x01, 0x3f));
    assert_eq!(u16_to_be(0x0000), (0x00, 0x00));
    assert_eq!(u16_to_be(0xffff), (0xff, 0xff));
}

#[test]
fn madctl_encodings() {
    assert_eq!(madctl_byte(Orientation::Landscape, ColorOrder::Bgr), 0x28);
    assert_eq!(madctl_byte(Orientation::Landscape, ColorOrder::Rgb), 0x20);
    assert_eq!(madctl_byte(Orientation::Portrait, ColorOrder::Bgr), 0x08);
    assert_eq!(madctl_byte(Orientation::Portrait, ColorOrder::Rgb), 0x00);
}

#[test]
fn reset_pin_trace() {
    let mut c = DisplayController::new(320, 240, Orientation::Landscape, ColorOrder::Bgr);
    c.reset();
    let ops = &c.iface.ops;
    assert_eq!(ops.len(), 4);
    assert_eq!(ops[0], WireOp::ResetLow);
    assert_eq!(ops[1], WireOp::DelayMs(20));
    assert_eq!(ops[2], WireOp::ResetHigh);
    assert_eq!(ops[3], WireOp::DelayMs(200));
}

#[test]
fn state_machine_order() {
    let mut c = DisplayController::new(320, 240, Orientation::Landscape, ColorOrder::Bgr);
    assert_eq!(c.state, InitState::Uninitialized);
    c.reset();
    assert_eq!(c.state, InitState::Resetting);
    c.configure();
    assert_eq!(c.state, InitState::ConfiguringInterface);
    c.enable();
    assert_eq!(c.state, InitState::Ready);
}

#[test]
fn init_sequence_bgr_landscape() {
    let mut c = DisplayController::new(320, 240, Orientation::Landscape, ColorOrder::Bgr);
    c.init();
    assert_eq!(c.state, InitState::Ready);
    let ops = &c.iface.ops;
    // reset pulse and settle delay come first; no write before them
    assert_eq!(ops[0], WireOp::ResetLow);
    assert_eq!(ops[1], WireOp::DelayMs(20));
    assert_eq!(ops[2], WireOp::ResetHigh);
    assert_eq!(ops[3], WireOp::DelayMs(200));
    // configuration commands, in table order
    let mut at = 4;
    at = expect_command(ops, at, 0xc0, &[0x23]);
    at = expect_command(ops, at, 0xc1, &[0x10]);
    at = expect_command(ops, at, 0x3a, &[0x55]);
    at = expect_command(ops, at, 0x36, &[0x28]);
    // sleep-out and display-on, each with its mandated delay
    at = expect_command(ops, at, 0x11, &[]);
    at = expect_delay(ops, at, 120);
    at = expect_command(ops, at, 0x29, &[]);
    at = expect_delay(ops, at, 20);
    assert_eq!(at, ops.len(), "nothing is sent after display-on");
}

/// Counts command transactions whose opcode is `opcode`: an SPI write right
/// after the data/command line goes low, starting with that opcode.
fn count_commands(ops: &[WireOp], opcode: u8) -> usize {
    let mut n = 0;
    for i in 0..ops.len() {
        if ops[i] == WireOp::DcLow {
            match &ops[i + 1] {
                WireOp::SpiWrite(bytes) => {
                    if bytes[0] == opcode {
                        n += 1;
                    }
                }
                other => panic!("DC low must be followed by a write, found {other:?}"),
            }
        }
    }
    n
}

#[test]
fn madctl_sent_exactly_once() {
    let mut c = DisplayController::new(320, 240, Orientation::Landscape, ColorOrder::Bgr);
    c.init();
    assert_eq!(count_commands(&c.iface.ops, 0x36), 1);
    let after_init = c.iface.ops.len();
    c.fill_screen(0x001f).unwrap();
    c.set_pixels(0, 0, 0, 0, &vec![0xffff]).unwrap();
    assert_eq!(count_commands(&c.iface.ops[after_init..], 0x36), 0, "a draw never resends it");
}
