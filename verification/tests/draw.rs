//! Tests of the draw path: the window-set/pixel-write trace, chunking at the
//! scratch-buffer boundary, rejection of bad calls, and idempotence.

use esplay_display::controller::window_pixel_count_of;
use esplay_display::Frame;
use esplay_display::ColorOrder;
use esplay_display::DisplayController;
use esplay_display::DrawError;
use esplay_display::Orientation;
use esplay_display::WireOp;

fn ready_controller() -> DisplayController {
    let mut c = DisplayController::new(320, 240, Orientation::Landscape, ColorOrder::Bgr);
    c.init();
    c
}

/// Asserts that `ops[at..]` starts with one command transaction for `opcode`
/// with exactly `params`, and returns the index just past it.
fn expect_command(ops: &[WireOp], at: usize, opcode: u8, params: &[u8]) -> usize {
    assert_eq!(ops[at], WireOp::CsAssert);
    assert_eq!(ops[at + 1], WireOp::DcLow);
    match &ops[at + 2] {
        WireOp::SpiWrite(bytes) => {
            assert_eq!(bytes[0], opcode);
            assert_eq!(&bytes[1..], params);
        }
        other => panic!("expected an SPI write at {}, found {other:?}", at + 2),
    }
    assert_eq!(ops[at + 3], WireOp::CsRelease);
    at + 4
}

/// Asserts that `ops[at..]` is one whole pixel-write stream: chip-select
/// asserted once, DC high once, only bounded SPI writes in between, and the
/// final chip-select release ending the trace. Returns the pixel bytes.
fn pixel_stream_bytes(ops: &[WireOp], at: usize) -> Vec<u8> {
    assert_eq!(ops[at], WireOp::CsAssert, "stream must assert chip-select once");
    assert_eq!(ops[at + 1], WireOp::DcHigh, "stream must raise DC once");
    let mut bytes = Vec::new();
    let mut i = at + 2;
    while i + 1 < ops.len() {
        match &ops[i] {
            WireOp::SpiWrite(chunk) => {
                assert!(!chunk.is_empty(), "no empty chunk");
                assert!(chunk.len() <= 512, "every chunk fits the scratch buffer");
                bytes.extend_from_slice(chunk);
            }
            other => panic!("chip-select toggled or DC changed mid-stream: {other:?}"),
        }
        i += 1;
    }
    assert_eq!(ops[i], WireOp::CsRelease, "stream must end by releasing chip-select");
    bytes
}

#[test]
fn window_pixel_counts() {
    assert_eq!(window_pixel_count_of(0, 0, 319, 239), 76800);
    assert_eq!(window_pixel_count_of(5, 7, 5, 7), 1);
    assert_eq!(window_pixel_count_of(10, 20, 11, 20), 2);
}

#[test]
fn full_screen_blue_stream() {
    let mut c = ready_controller();
    let before = c.iface.ops.len();
    c.fill_screen(0x001f).unwrap();
    let ops = &c.iface.ops[before..];
    // window-set for x in [0, 319], y in [0, 239], then the pixel write
    let mut at = expect_command(ops, 0, 0x2a, &[0x00, 0x00, 0x01, 0x3f]);
    at = expect_command(ops, at, 0x2b, &[0x00, 0x00, 0x00, 0xef]);
    at = expect_command(ops, at, 0x2c, &[]);
    let bytes = pixel_stream_bytes(ops, at);
    assert_eq!(bytes.len(), 2 * 76800, "exactly one byte pair per pixel");
    for pair in bytes.chunks(2) {
        assert_eq!(pair, &[0x00, 0x1f], "every pixel is the requested color");
    }
    // 153600 bytes chunk evenly into 300 writes of 512 bytes
    let writes = ops[at..].iter().filter(|op| matches!(op, WireOp::SpiWrite(_))).count();
    assert_eq!(writes, 300);
}

#[test]
fn one_pixel_fill() {
    let mut c = ready_controller();
    let before = c.iface.ops.len();
    c.set_pixels(5, 7, 5, 7, &vec![0xabcd]).unwrap();
    let ops = &c.iface.ops[before..];
    let mut at = expect_command(ops, 0, 0x2a, &[0x00, 0x05, 0x00, 0x05]);
    at = expect_command(ops, at, 0x2b, &[0x00, 0x07, 0x00, 0x07]);
    at = expect_command(ops, at, 0x2c, &[]);
    let bytes = pixel_stream_bytes(ops, at);
    assert_eq!(bytes, vec![0xab, 0xcd], "exactly one pixel's worth of bytes");
}

#[test]
fn chunking_at_scratch_boundary() {
    // 256 pixels are exactly one 512-byte chunk
    let mut c = ready_controller();
    let before = c.iface.ops.len();
    c.set_pixels(0, 0, 255, 0, &vec![0x1234; 256]).unwrap();
    let chunks: Vec<usize> = c.iface.ops[before..]
        .iter()
        .filter_map(|op| match op {
            WireOp::SpiWrite(b) if b[0] != 0x2a && b[0] != 0x2b && b[0] != 0x2c => Some(b.len()),
            _ => None,
        })
        .collect();
    assert_eq!(chunks, vec![512]);

    // 257 pixels spill two bytes into a second chunk
    let mut c = ready_controller();
    let before = c.iface.ops.len();
    c.set_pixels(0, 0, 256, 0, &vec![0x1234; 257]).unwrap();
    let stream_at = before + 12;
    let bytes = pixel_stream_bytes(&c.iface.ops, stream_at);
    assert_eq!(bytes.len(), 514);
    match (&c.iface.ops[stream_at + 2], &c.iface.ops[stream_at + 3]) {
        (WireOp::SpiWrite(a), WireOp::SpiWrite(b)) => {
            assert_eq!(a.len(), 512);
            assert_eq!(b.len(), 2);
        }
        other => panic!("expected two chunks, found {other:?}"),
    }
}

#[test]
fn rejects_window_out_of_bounds() {
    let mut c = ready_controller();
    let before = c.iface.ops.len();
    assert_eq!(c.set_pixels(0, 0, 320, 239, &vec![0; 4]), Err(DrawError::WindowOutOfBounds));
    assert_eq!(c.set_pixels(0, 0, 319, 240, &vec![0; 4]), Err(DrawError::WindowOutOfBounds));
    assert_eq!(c.set_pixels(10, 0, 9, 0, &vec![0; 4]), Err(DrawError::WindowOutOfBounds));
    assert_eq!(c.iface.ops.len(), before, "a rejected call sends nothing");
}

#[test]
fn rejects_pixel_count_mismatch() {
    let mut c = ready_controller();
    let before = c.iface.ops.len();
    assert_eq!(c.set_pixels(0, 0, 1, 1, &vec![0; 3]), Err(DrawError::PixelCountMismatch));
    assert_eq!(c.set_pixels(0, 0, 1, 1, &vec![0; 5]), Err(DrawError::PixelCountMismatch));
    assert_eq!(c.set_pixels(0, 0, 1, 1, &Vec::new()), Err(DrawError::PixelCountMismatch));
    assert_eq!(c.iface.ops.len(), before, "a rejected call sends nothing");
}

#[test]
fn fill_twice_is_byte_identical() {
    let mut c = ready_controller();
    let base = c.iface.ops.len();
    c.set_pixels(3, 4, 12, 34, &vec![0x5a5a; 310]).unwrap();
    let mid = c.iface.ops.len();
    c.set_pixels(3, 4, 12, 34, &vec![0x5a5a; 310]).unwrap();
    let end = c.iface.ops.len();
    let first = &c.iface.ops[base..mid];
    let second = &c.iface.ops[mid..end];
    assert_eq!(first, second, "two identical fills transmit identical streams");
}

#[test]
fn frame_construction_is_validated() {
    assert!(matches!(
        Frame::new(320, 240, 0, 0, 320, 239, vec![0; 4]),
        Err(DrawError::WindowOutOfBounds)
    ));
    assert!(matches!(
        Frame::new(320, 240, 0, 0, 1, 1, vec![0; 3]),
        Err(DrawError::PixelCountMismatch)
    ));
    let frame = Frame::new(320, 240, 0, 0, 1, 1, vec![0x00ff; 4]).unwrap();
    assert_eq!(frame.window.x1, 1);
    assert_eq!(frame.pixels.len(), 4);
}

#[test]
fn draw_frame_matches_set_pixels() {
    let frame = Frame::new(320, 240, 3, 4, 12, 34, vec![0x5a5a; 310]).unwrap();
    let mut a = ready_controller();
    let base_a = a.iface.ops.len();
    a.draw_frame(&frame);
    let mut b = ready_controller();
    let base_b = b.iface.ops.len();
    b.set_pixels(3, 4, 12, 34, &vec![0x5a5a; 310]).unwrap();
    assert_eq!(&a.iface.ops[base_a..], &b.iface.ops[base_b..]);
}

#[test]
fn window_is_recorded() {
    let mut c = ready_controller();
    c.set_pixels(3, 4, 12, 34, &vec![0x5a5a; 310]).unwrap();
    assert_eq!(c.window.x0, 3);
    assert_eq!(c.window.y0, 4);
    assert_eq!(c.window.x1, 12);
    assert_eq!(c.window.y1, 34);
}
