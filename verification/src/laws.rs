//! The protocol laws: properties of whole traces, proved once and for all
//! rectangles, pixel sequences, and configurations.

use crate::controller::bringup_ops;
use crate::controller::config_entries_spec;
use crate::controller::draw_ops;
use crate::controller::enable_entries_spec;
use crate::controller::madctl_value;
use crate::controller::reset_ops;
use crate::controller::window_ops;
use crate::controller::ColorOrder;
use crate::controller::Orientation;
use crate::controller::CMD_COLUMN_ADDRESS_SET;
use crate::controller::CMD_MEMORY_ACCESS_CONTROL;
use crate::controller::CMD_MEMORY_WRITE;
use crate::controller::CMD_PAGE_ADDRESS_SET;
use crate::controller::RESET_PULSE_MS;
use crate::controller::RESET_SETTLE_MS;
use crate::encode::lemma_pixels_bytes_len;
use crate::encode::pixels_bytes;
use crate::encode::u16_be;
use crate::interface::command_ops;
use crate::interface::pixel_stream_ops;
use crate::ops::bytes_of;
use crate::ops::chunk_writes;
use crate::ops::is_bounded_write;
use crate::ops::lemma_bytes_of_concat;
use crate::ops::lemma_bytes_of_no_writes;
use crate::ops::lemma_bytes_of_singleton;
use crate::ops::lemma_chunk_writes_props;
use crate::ops::op_bytes;
use crate::ops::OpV;
use vstd::prelude::*;

verus! {

/// Law: a reset drives the line low, holds it for the full pulse width of at
/// least 20 ms, drives it high, then waits the settle delay of at least
/// 200 ms; no byte is written anywhere in the reset trace.
pub proof fn lemma_reset_trace()
    ensures
        reset_ops().len() == 4,
        reset_ops()[0] == OpV::ResetLow,
        reset_ops()[1] == OpV::DelayMs(RESET_PULSE_MS),
        reset_ops()[2] == OpV::ResetHigh,
        reset_ops()[3] == OpV::DelayMs(RESET_SETTLE_MS),
        RESET_PULSE_MS >= 20,
        RESET_SETTLE_MS >= 200,
        bytes_of(reset_ops()) == Seq::<u8>::empty(),
{
    assert forall|i: int| 0 <= i < reset_ops().len() implies op_bytes(#[trigger] reset_ops()[i])
        == Seq::<u8>::empty() by {
        if i == 0 {
            assert(op_bytes(reset_ops()[0]) == Seq::<u8>::empty());
        } else if i == 1 {
            assert(op_bytes(reset_ops()[1]) == Seq::<u8>::empty());
        } else if i == 2 {
            assert(op_bytes(reset_ops()[2]) == Seq::<u8>::empty());
        } else {
            assert(op_bytes(reset_ops()[3]) == Seq::<u8>::empty());
        }
    }
    lemma_bytes_of_no_writes(reset_ops());
}

/// Law: in the bring-up trace the reset line goes high at index 2, the
/// settle delay follows immediately, and no byte is written before or during
/// that delay: every command of the bring-up comes after it.
pub proof fn lemma_settle_before_commands(orientation: Orientation, color_order: ColorOrder)
    ensures
        bringup_ops(orientation, color_order).len() > 4,
        bringup_ops(orientation, color_order)[2] == OpV::ResetHigh,
        bringup_ops(orientation, color_order)[3] == OpV::DelayMs(RESET_SETTLE_MS),
        forall|i: int|
            0 <= i <= 3 ==> op_bytes(#[trigger] bringup_ops(orientation, color_order)[i])
                == Seq::<u8>::empty(),
{
    let b = bringup_ops(orientation, color_order);
    lemma_reset_trace();
    assert forall|i: int| 0 <= i <= 3 implies op_bytes(#[trigger] b[i]) == Seq::<u8>::empty() by {
        assert(b[i] == reset_ops()[i]);
        assert(op_bytes(reset_ops()[i]) == Seq::<u8>::empty());
    }
}

/// Law: a pixel-write stream asserts chip-select once at the start and
/// releases it once at the end, raises the data/command line once right
/// after asserting chip-select, and everything in between is an SPI write
/// within the scratch-buffer bound; the writes carry exactly the pixel
/// bytes, two per pixel.
pub proof fn lemma_pixel_stream_shape(pixels: Seq<u16>)
    ensures
        pixel_stream_ops(pixels).len() >= 3,
        pixel_stream_ops(pixels)[0] == OpV::CsAssert,
        pixel_stream_ops(pixels)[1] == OpV::DcHigh,
        pixel_stream_ops(pixels).last() == OpV::CsRelease,
        forall|i: int|
            2 <= i < pixel_stream_ops(pixels).len() - 1 ==> is_bounded_write(
                #[trigger] pixel_stream_ops(pixels)[i],
            ),
        bytes_of(pixel_stream_ops(pixels)) == pixels_bytes(pixels),
        pixels_bytes(pixels).len() == 2 * pixels.len(),
{
    let head = seq![OpV::CsAssert, OpV::DcHigh];
    let chunks = chunk_writes(pixels_bytes(pixels));
    let tailv = seq![OpV::CsRelease];
    let p = pixel_stream_ops(pixels);
    lemma_chunk_writes_props(pixels_bytes(pixels));
    lemma_pixels_bytes_len(pixels);
    lemma_bytes_of_concat(head + chunks, tailv);
    lemma_bytes_of_concat(head, chunks);
    assert forall|i: int| 0 <= i < head.len() implies op_bytes(#[trigger] head[i])
        == Seq::<u8>::empty() by {
        if i == 0 {
            assert(op_bytes(head[0]) == Seq::<u8>::empty());
        } else {
            assert(op_bytes(head[1]) == Seq::<u8>::empty());
        }
    }
    lemma_bytes_of_no_writes(head);
    lemma_bytes_of_singleton(OpV::CsRelease);
    assert(bytes_of(p) =~= pixels_bytes(pixels));
    assert(p.len() == chunks.len() + 3);
    assert(p.last() == tailv[0]);
    assert forall|i: int| 2 <= i < p.len() - 1 implies is_bounded_write(#[trigger] p[i]) by {
        assert(p[i] == chunks[i - 2]);
        assert(is_bounded_write(chunks[i - 2]));
    }
}

/// Law: a window-set command sequence is always the immediately preceding
/// transaction to its pixel-write. The draw trace decomposes exactly into
/// the window-set operations, then the memory-write command, then the pixel
/// stream, adjacent and with nothing in between.
pub proof fn lemma_window_precedes_pixels(x0: u16, y0: u16, x1: u16, y1: u16, pixels: Seq<u16>)
    ensures
        window_ops(x0, y0, x1, y1).len() == 8,
        draw_ops(x0, y0, x1, y1, pixels).len() == 12 + pixel_stream_ops(pixels).len(),
        draw_ops(x0, y0, x1, y1, pixels).subrange(0, 8) == window_ops(x0, y0, x1, y1),
        draw_ops(x0, y0, x1, y1, pixels).subrange(8, 12) == command_ops(
            CMD_MEMORY_WRITE,
            Seq::empty(),
        ),
        draw_ops(x0, y0, x1, y1, pixels).subrange(
            12,
            draw_ops(x0, y0, x1, y1, pixels).len() as int,
        ) == pixel_stream_ops(pixels),
{
    let d = draw_ops(x0, y0, x1, y1, pixels);
    assert(d.subrange(0, 8) =~= window_ops(x0, y0, x1, y1));
    assert(d.subrange(8, 12) =~= command_ops(CMD_MEMORY_WRITE, Seq::empty()));
    assert(d.subrange(12, d.len() as int) =~= pixel_stream_ops(pixels));
}

/// Law: filling the same rectangle with the same pixels twice produces two
/// identical transmitted segments, one immediately after the other, and in
/// particular two byte-identical streams.
pub proof fn lemma_fill_idempotent(
    before: Seq<OpV>,
    x0: u16,
    y0: u16,
    x1: u16,
    y1: u16,
    pixels: Seq<u16>,
)
    ensures
        ({
            let seg = draw_ops(x0, y0, x1, y1, pixels);
            let t2 = before + seg + seg;
            &&& t2.subrange(before.len() as int, (before.len() + seg.len()) as int) == seg
            &&& t2.subrange((before.len() + seg.len()) as int, t2.len() as int) == seg
            &&& bytes_of(t2.subrange(before.len() as int, (before.len() + seg.len()) as int))
                == bytes_of(t2.subrange((before.len() + seg.len()) as int, t2.len() as int))
        }),
{
    let seg = draw_ops(x0, y0, x1, y1, pixels);
    let t2 = before + seg + seg;
    assert(t2.subrange(before.len() as int, (before.len() + seg.len()) as int) =~= seg);
    assert(t2.subrange((before.len() + seg.len()) as int, t2.len() as int) =~= seg);
}

/// Law: the memory-access-control byte. Landscape sets the row/column
/// exchange bit, BGR sets the BGR bit.
pub proof fn lemma_madctl_encoding()
    ensures
        madctl_value(Orientation::Landscape, ColorOrder::Bgr) == 0x28,
        madctl_value(Orientation::Landscape, ColorOrder::Rgb) == 0x20,
        madctl_value(Orientation::Portrait, ColorOrder::Bgr) == 0x08,
        madctl_value(Orientation::Portrait, ColorOrder::Rgb) == 0x00,
{
}

/// True when no command transaction in the trace carries the
/// memory-access-control opcode: a write right after the data/command line
/// goes low never starts with that opcode.
pub open spec fn no_madctl_command(ops: Seq<OpV>) -> bool {
    forall|i: int|
        0 <= i < ops.len() && (#[trigger] ops[i]) == OpV::DcLow ==> i + 1 < ops.len() && op_bytes(
            ops[i + 1],
        ).len() > 0 && op_bytes(ops[i + 1]).first() != CMD_MEMORY_ACCESS_CONTROL
}

/// Law: the memory-access-control command is sent exactly once, during
/// configuration — it is the last entry of the configuration table, no other
/// entry of either init table carries its opcode — and a draw never resends
/// it: every command of a draw trace is a window-set or memory-write opcode.
pub proof fn lemma_madctl_sent_once(
    orientation: Orientation,
    color_order: ColorOrder,
    x0: u16,
    y0: u16,
    x1: u16,
    y1: u16,
    pixels: Seq<u16>,
)
    ensures
        config_entries_spec(orientation, color_order).len() == 4,
        config_entries_spec(orientation, color_order)[3].opcode == CMD_MEMORY_ACCESS_CONTROL,
        config_entries_spec(orientation, color_order)[3].params == seq![
            madctl_value(orientation, color_order),
        ],
        forall|k: int|
            0 <= k < 3 ==> (#[trigger] config_entries_spec(orientation, color_order)[k]).opcode
                != CMD_MEMORY_ACCESS_CONTROL,
        forall|k: int|
            0 <= k < enable_entries_spec().len() ==> (#[trigger] enable_entries_spec()[k]).opcode
                != CMD_MEMORY_ACCESS_CONTROL,
        no_madctl_command(draw_ops(x0, y0, x1, y1, pixels)),
{
    let d = draw_ops(x0, y0, x1, y1, pixels);
    let c1 = command_ops(CMD_COLUMN_ADDRESS_SET, u16_be(x0) + u16_be(x1));
    let c2 = command_ops(CMD_PAGE_ADDRESS_SET, u16_be(y0) + u16_be(y1));
    let c3 = command_ops(CMD_MEMORY_WRITE, Seq::empty());
    let p = pixel_stream_ops(pixels);
    lemma_pixel_stream_shape(pixels);
    assert(d =~= c1 + c2 + c3 + p);
    assert forall|i: int|
        0 <= i < d.len() && (#[trigger] d[i]) == OpV::DcLow implies i + 1 < d.len() && op_bytes(
        d[i + 1],
    ).len() > 0 && op_bytes(d[i + 1]).first() != CMD_MEMORY_ACCESS_CONTROL by {
        if i < 4 {
            assert(d[i] == c1[i]);
            assert(i == 1);
            assert(d[2] == c1[2]);
            assert(op_bytes(c1[2]) == seq![CMD_COLUMN_ADDRESS_SET] + (u16_be(x0) + u16_be(x1)));
            assert(op_bytes(d[2]).first() == CMD_COLUMN_ADDRESS_SET);
        } else if i < 8 {
            assert(d[i] == c2[i - 4]);
            assert(i == 5);
            assert(d[6] == c2[2]);
            assert(op_bytes(c2[2]) == seq![CMD_PAGE_ADDRESS_SET] + (u16_be(y0) + u16_be(y1)));
            assert(op_bytes(d[6]).first() == CMD_PAGE_ADDRESS_SET);
        } else if i < 12 {
            assert(d[i] == c3[i - 8]);
            assert(i == 9);
            assert(d[10] == c3[2]);
            assert(op_bytes(c3[2]) == seq![CMD_MEMORY_WRITE] + Seq::<u8>::empty());
            assert(op_bytes(d[10]).first() == CMD_MEMORY_WRITE);
        } else {
            assert(d[i] == p[i - 12]);
            if i - 12 == 0 {
                assert(p[0] == OpV::CsAssert);
            } else if i - 12 == 1 {
                assert(p[1] == OpV::DcHigh);
            } else if i - 12 < p.len() - 1 {
                assert(is_bounded_write(p[i - 12]));
            } else {
                assert(p[i - 12] == p.last());
            }
            assert(false);
        }
    }
}

} // verus!
