//! The panel-specific display controller: the bring-up state machine
//! (reset pulse, configuration commands, sleep-out and display-on) and the
//! window-set / pixel-write operations it serves once ready.

use crate::encode::u16_be;
use crate::encode::u16_to_be;
use crate::interface::command_ops;
use crate::interface::pixel_stream_ops;
use crate::interface::DisplayInterface;
use crate::ops::OpV;
use crate::ops::SCRATCH_LEN;
use vstd::prelude::*;

verus! {

/// How long the reset line is held low, in milliseconds.
pub const RESET_PULSE_MS: u32 = 20;

/// How long the controller settles after reset before any command, in
/// milliseconds.
pub const RESET_SETTLE_MS: u32 = 200;

/// Panel-mandated delay after the sleep-out command, in milliseconds.
pub const SLEEP_OUT_DELAY_MS: u32 = 120;

/// Panel-mandated delay after the display-on command, in milliseconds.
pub const DISPLAY_ON_DELAY_MS: u32 = 20;

pub const CMD_POWER_CONTROL_1: u8 = 0xc0;

pub const CMD_POWER_CONTROL_2: u8 = 0xc1;

pub const CMD_PIXEL_FORMAT: u8 = 0x3a;

pub const CMD_MEMORY_ACCESS_CONTROL: u8 = 0x36;

pub const CMD_SLEEP_OUT: u8 = 0x11;

pub const CMD_DISPLAY_ON: u8 = 0x29;

pub const CMD_COLUMN_ADDRESS_SET: u8 = 0x2a;

pub const CMD_PAGE_ADDRESS_SET: u8 = 0x2b;

pub const CMD_MEMORY_WRITE: u8 = 0x2c;

/// GVDD level parameter of the first power-control command.
pub const POWER_CONTROL_1_LEVEL: u8 = 0x23;

/// Step-up factor parameter of the second power-control command.
pub const POWER_CONTROL_2_LEVEL: u8 = 0x10;

/// Pixel-format parameter selecting 16 bits per pixel on both interfaces.
pub const PIXEL_FORMAT_16BPP: u8 = 0x55;

/// Memory-access-control bit that swaps rows and columns (landscape).
pub const MADCTL_ROW_COLUMN_EXCHANGE: u8 = 0x20;

/// Memory-access-control bit that selects BGR channel order.
pub const MADCTL_BGR: u8 = 0x08;

#[derive(Clone, Copy, PartialEq, Eq, Structural, Debug)]
pub enum ColorOrder {
    Rgb,
    Bgr,
}

#[derive(Clone, Copy, PartialEq, Eq, Structural, Debug)]
pub enum Orientation {
    Portrait,
    Landscape,
}

/// The bring-up states, in order; `Ready` is terminal.
#[derive(Clone, Copy, PartialEq, Eq, Structural, Debug)]
pub enum InitState {
    Uninitialized,
    Resetting,
    ConfiguringInterface,
    Ready,
}

#[derive(Clone, Copy, PartialEq, Eq, Structural, Debug)]
pub enum DrawError {
    WindowOutOfBounds,
    PixelCountMismatch,
}

/// The memory-access-control parameter byte. The two bits used here are
/// disjoint, so the byte is their sum.
pub open spec fn madctl_value(orientation: Orientation, color_order: ColorOrder) -> u8 {
    ((match orientation {
        Orientation::Landscape => MADCTL_ROW_COLUMN_EXCHANGE,
        Orientation::Portrait => 0,
    }) + (match color_order {
        ColorOrder::Bgr => MADCTL_BGR,
        ColorOrder::Rgb => 0,
    })) as u8
}

pub fn madctl_byte(orientation: Orientation, color_order: ColorOrder) -> (r: u8)
    ensures
        r == madctl_value(orientation, color_order),
{
    let o: u8 = match orientation {
        Orientation::Landscape => MADCTL_ROW_COLUMN_EXCHANGE,
        Orientation::Portrait => 0,
    };
    let c: u8 = match color_order {
        ColorOrder::Bgr => MADCTL_BGR,
        ColorOrder::Rgb => 0,
    };
    o + c
}

/// One entry of the declarative initialization table: a command, its
/// parameters, and the delay the panel mandates after it.
pub struct CmdEntry {
    pub opcode: u8,
    pub params: Vec<u8>,
    pub delay_after_ms: u32,
}

/// Spec-level image of a table entry.
#[verifier::ext_equal]
pub struct CmdEntryV {
    pub opcode: u8,
    pub params: Seq<u8>,
    pub delay_after_ms: u32,
}

impl View for CmdEntry {
    type V = CmdEntryV;

    open spec fn view(&self) -> CmdEntryV {
        CmdEntryV {
            opcode: self.opcode,
            params: self.params@,
            delay_after_ms: self.delay_after_ms,
        }
    }
}

pub open spec fn entries_view(es: Seq<CmdEntry>) -> Seq<CmdEntryV> {
    es.map_values(|e: CmdEntry| e@)
}

/// The wire operations of one table entry: its command transaction, then
/// its mandated delay if there is one.
pub open spec fn entry_ops(e: CmdEntryV) -> Seq<OpV> {
    if e.delay_after_ms > 0 {
        command_ops(e.opcode, e.params) + seq![OpV::DelayMs(e.delay_after_ms)]
    } else {
        command_ops(e.opcode, e.params)
    }
}

/// The wire operations of a table replayed in order.
pub open spec fn entries_ops(es: Seq<CmdEntryV>) -> Seq<OpV>
    decreases es.len(),
{
    if es.len() == 0 {
        Seq::empty()
    } else {
        entry_ops(es.first()) + entries_ops(es.drop_first())
    }
}

pub proof fn lemma_entries_ops_take_step(es: Seq<CmdEntryV>, i: int)
    requires
        0 <= i < es.len(),
    ensures
        entries_ops(es.take(i + 1)) == entries_ops(es.take(i)) + entry_ops(es[i]),
    decreases i,
{
    if i == 0 {
        assert(es.take(0) =~= Seq::<CmdEntryV>::empty());
        let s1 = es.take(1);
        assert(s1.first() == es[0]);
        assert(s1.drop_first() =~= Seq::<CmdEntryV>::empty());
        assert(entries_ops(s1.drop_first()) == Seq::<OpV>::empty());
        assert(entries_ops(s1) =~= entries_ops(es.take(0)) + entry_ops(es[0]));
    } else {
        let tail = es.drop_first();
        lemma_entries_ops_take_step(tail, i - 1);
        assert(es.take(i + 1).first() == es.first());
        assert(es.take(i + 1).drop_first() =~= tail.take(i));
        assert(es.take(i).first() == es.first());
        assert(es.take(i).drop_first() =~= tail.take(i - 1));
        assert(tail[i - 1] == es[i]);
        assert(entries_ops(es.take(i + 1)) =~= entries_ops(es.take(i)) + entry_ops(es[i]));
    }
}

/// The configuration table: power control, pixel format, and the
/// memory-access control encoding orientation and color order.
pub open spec fn config_entries_spec(orientation: Orientation, color_order: ColorOrder) -> Seq<
    CmdEntryV,
> {
    seq![
        CmdEntryV {
            opcode: CMD_POWER_CONTROL_1,
            params: seq![POWER_CONTROL_1_LEVEL],
            delay_after_ms: 0,
        },
        CmdEntryV {
            opcode: CMD_POWER_CONTROL_2,
            params: seq![POWER_CONTROL_2_LEVEL],
            delay_after_ms: 0,
        },
        CmdEntryV { opcode: CMD_PIXEL_FORMAT, params: seq![PIXEL_FORMAT_16BPP], delay_after_ms: 0 },
        CmdEntryV {
            opcode: CMD_MEMORY_ACCESS_CONTROL,
            params: seq![madctl_value(orientation, color_order)],
            delay_after_ms: 0,
        },
    ]
}

/// The enable table: sleep-out and display-on, each with its mandated delay.
pub open spec fn enable_entries_spec() -> Seq<CmdEntryV> {
    seq![
        CmdEntryV {
            opcode: CMD_SLEEP_OUT,
            params: Seq::empty(),
            delay_after_ms: SLEEP_OUT_DELAY_MS,
        },
        CmdEntryV {
            opcode: CMD_DISPLAY_ON,
            params: Seq::empty(),
            delay_after_ms: DISPLAY_ON_DELAY_MS,
        },
    ]
}

pub fn config_entries(orientation: Orientation, color_order: ColorOrder) -> (r: Vec<CmdEntry>)
    ensures
        entries_view(r@) == config_entries_spec(orientation, color_order),
{
    let mut r: Vec<CmdEntry> = Vec::new();
    let mut p1: Vec<u8> = Vec::new();
    p1.push(POWER_CONTROL_1_LEVEL);
    proof {
        assert(p1@ =~= seq![POWER_CONTROL_1_LEVEL]);
    }
    r.push(CmdEntry { opcode: CMD_POWER_CONTROL_1, params: p1, delay_after_ms: 0 });
    let mut p2: Vec<u8> = Vec::new();
    p2.push(POWER_CONTROL_2_LEVEL);
    proof {
        assert(p2@ =~= seq![POWER_CONTROL_2_LEVEL]);
    }
    r.push(CmdEntry { opcode: CMD_POWER_CONTROL_2, params: p2, delay_after_ms: 0 });
    let mut p3: Vec<u8> = Vec::new();
    p3.push(PIXEL_FORMAT_16BPP);
    proof {
        assert(p3@ =~= seq![PIXEL_FORMAT_16BPP]);
    }
    r.push(CmdEntry { opcode: CMD_PIXEL_FORMAT, params: p3, delay_after_ms: 0 });
    let m = madctl_byte(orientation, color_order);
    let mut p4: Vec<u8> = Vec::new();
    p4.push(m);
    proof {
        assert(p4@ =~= seq![madctl_value(orientation, color_order)]);
    }
    r.push(CmdEntry { opcode: CMD_MEMORY_ACCESS_CONTROL, params: p4, delay_after_ms: 0 });
    proof {
        let spec = config_entries_spec(orientation, color_order);
        assert(r@[0]@ =~= spec[0]);
        assert(r@[1]@ =~= spec[1]);
        assert(r@[2]@ =~= spec[2]);
        assert(r@[3]@ =~= spec[3]);
        assert(entries_view(r@) =~= spec);
    }
    r
}

pub fn enable_entries() -> (r: Vec<CmdEntry>)
    ensures
        entries_view(r@) == enable_entries_spec(),
{
    let mut r: Vec<CmdEntry> = Vec::new();
    r.push(CmdEntry { opcode: CMD_SLEEP_OUT, params: Vec::new(), delay_after_ms: SLEEP_OUT_DELAY_MS });
    r.push(
        CmdEntry { opcode: CMD_DISPLAY_ON, params: Vec::new(), delay_after_ms: DISPLAY_ON_DELAY_MS },
    );
    proof {
        let spec = enable_entries_spec();
        assert(r@[0]@ =~= spec[0]);
        assert(r@[1]@ =~= spec[1]);
        assert(entries_view(r@) =~= spec);
    }
    r
}

/// Replays a command table in order through the framing layer.
pub fn run_entries(iface: &mut DisplayInterface, entries: &Vec<CmdEntry>)
    requires
        forall|i: int|
            0 <= i < entries@.len() ==> (#[trigger] entries@[i])@.params.len() < SCRATCH_LEN,
    ensures
        final(iface).trace() == old(iface).trace() + entries_ops(entries_view(entries@)),
{
    let ghost t0 = iface.trace();
    let ghost ev = entries_view(entries@);
    proof {
        assert(ev.take(0) =~= Seq::<CmdEntryV>::empty());
        assert(t0 + entries_ops(ev.take(0)) =~= t0);
    }
    let mut i: usize = 0;
    while i < entries.len()
        invariant
            i <= entries@.len(),
            ev == entries_view(entries@),
            forall|k: int|
                0 <= k < entries@.len() ==> (#[trigger] entries@[k])@.params.len() < SCRATCH_LEN,
            iface.trace() == t0 + entries_ops(ev.take(i as int)),
        decreases entries@.len() - i,
    {
        let e = &entries[i];
        proof {
            assert(entries@[i as int]@.params.len() < SCRATCH_LEN);
        }
        iface.send_command(e.opcode, &e.params);
        if e.delay_after_ms > 0 {
            iface.delay_ms(e.delay_after_ms);
        }
        proof {
            lemma_entries_ops_take_step(ev, i as int);
            assert(ev[i as int] == entries@[i as int]@);
            assert(iface.trace() =~= t0 + entries_ops(ev.take(i as int + 1)));
        }
        i += 1;
    }
    proof {
        assert(ev.take(ev.len() as int) =~= ev);
    }
}

/// The reset trace: the line low, the full pulse width, the line high, the
/// settle delay.
pub open spec fn reset_ops() -> Seq<OpV> {
    seq![
        OpV::ResetLow,
        OpV::DelayMs(RESET_PULSE_MS),
        OpV::ResetHigh,
        OpV::DelayMs(RESET_SETTLE_MS),
    ]
}

/// The window-set command sequence for a rectangle: column address set, then
/// page address set, both with inclusive big-endian bounds.
pub open spec fn window_ops(x0: u16, y0: u16, x1: u16, y1: u16) -> Seq<OpV> {
    command_ops(CMD_COLUMN_ADDRESS_SET, u16_be(x0) + u16_be(x1)) + command_ops(
        CMD_PAGE_ADDRESS_SET,
        u16_be(y0) + u16_be(y1),
    )
}

/// The full trace of one draw: window set, then the memory-write command,
/// then the pixel stream, adjacent and in that order.
pub open spec fn draw_ops(x0: u16, y0: u16, x1: u16, y1: u16, pixels: Seq<u16>) -> Seq<OpV> {
    window_ops(x0, y0, x1, y1) + command_ops(CMD_MEMORY_WRITE, Seq::empty()) + pixel_stream_ops(
        pixels,
    )
}

/// The full bring-up trace: reset, configuration, enable.
pub open spec fn bringup_ops(orientation: Orientation, color_order: ColorOrder) -> Seq<OpV> {
    reset_ops() + entries_ops(config_entries_spec(orientation, color_order)) + entries_ops(
        enable_entries_spec(),
    )
}

/// The number of pixels a window addresses (bounds are inclusive).
pub open spec fn window_pixel_count(x0: u16, y0: u16, x1: u16, y1: u16) -> int {
    (x1 - x0 + 1) * (y1 - y0 + 1)
}

/// A solid-color pixel sequence.
pub open spec fn repeat_pixel(count: nat, color: u16) -> Seq<u16> {
    Seq::new(count, |i: int| color)
}

/// The number of pixels a window addresses (bounds are inclusive).
pub fn window_pixel_count_of(x0: u16, y0: u16, x1: u16, y1: u16) -> (r: u64)
    requires
        x0 <= x1,
        y0 <= y1,
    ensures
        r == window_pixel_count(x0, y0, x1, y1),
{
    let wu: u64 = (x1 - x0) as u64 + 1;
    let hu: u64 = (y1 - y0) as u64 + 1;
    proof {
        assert(wu * hu <= 0x1_0000_0000u64) by (nonlinear_arith)
            requires
                wu <= 0x1_0000u64,
                hu <= 0x1_0000u64,
        ;
    }
    wu * hu
}

#[derive(Clone, Copy, PartialEq, Eq, Structural, Debug)]
pub struct Window {
    pub x0: u16,
    pub y0: u16,
    pub x1: u16,
    pub y1: u16,
}

/// A frame: a rectangular window and exactly the pixels to fill it. A frame
/// is only constructed valid — the window lies within the display bounds it
/// was checked against and the pixel count matches the window — so drawing
/// it cannot fail.
pub struct Frame {
    pub window: Window,
    pub pixels: Vec<u16>,
}

impl Frame {
    pub open spec fn wf(self, width: u16, height: u16) -> bool {
        &&& self.window.x0 <= self.window.x1 < width
        &&& self.window.y0 <= self.window.y1 < height
        &&& self.pixels@.len() == window_pixel_count(
            self.window.x0,
            self.window.y0,
            self.window.x1,
            self.window.y1,
        )
    }

    /// Validates the window against the display bounds and the pixel count
    /// against the window. An out-of-bounds window or a mismatched pixel
    /// sequence is a construction error; a frame that constructs is safe to
    /// draw on a display of those bounds.
    pub fn new(
        width: u16,
        height: u16,
        x0: u16,
        y0: u16,
        x1: u16,
        y1: u16,
        pixels: Vec<u16>,
    ) -> (r: Result<Frame, DrawError>)
        ensures
            r is Ok <==> (x0 <= x1 < width && y0 <= y1 < height && pixels@.len()
                == window_pixel_count(x0, y0, x1, y1)),
            r is Ok ==> r->Ok_0.window == (Window { x0, y0, x1, y1 }) && r->Ok_0.pixels@
                == pixels@ && r->Ok_0.wf(width, height),
            r is Err ==> (r->Err_0 == DrawError::WindowOutOfBounds <==> !(x0 <= x1 < width && y0
                <= y1 < height)),
    {
        if !(x0 <= x1 && x1 < width && y0 <= y1 && y1 < height) {
            return Err(DrawError::WindowOutOfBounds);
        }
        let wu: u64 = (x1 - x0) as u64 + 1;
        let hu: u64 = (y1 - y0) as u64 + 1;
        proof {
            assert(wu * hu <= 0x1_0000_0000u64) by (nonlinear_arith)
                requires
                    wu <= 0x1_0000u64,
                    hu <= 0x1_0000u64,
            ;
        }
        let count: u64 = wu * hu;
        if pixels.len() as u64 != count {
            return Err(DrawError::PixelCountMismatch);
        }
        Ok(Frame { window: Window { x0, y0, x1, y1 }, pixels })
    }
}

/// The display controller. Geometry, orientation and color order are fixed
/// at construction; only the addressing window and the bring-up state change.
pub struct DisplayController {
    pub iface: DisplayInterface,
    pub width: u16,
    pub height: u16,
    pub orientation: Orientation,
    pub color_order: ColorOrder,
    pub state: InitState,
    pub window: Window,
}

impl DisplayController {
    /// The trace of everything this controller has sent.
    pub open spec fn trace(self) -> Seq<OpV> {
        self.iface.trace()
    }

    pub open spec fn wf(self) -> bool {
        &&& 0 < self.width
        &&& 0 < self.height
        &&& self.window.x0 <= self.window.x1 < self.width
        &&& self.window.y0 <= self.window.y1 < self.height
    }

    /// The construction-time configuration, which no operation changes.
    pub open spec fn same_config(a: DisplayController, b: DisplayController) -> bool {
        &&& a.width == b.width
        &&& a.height == b.height
        &&& a.orientation == b.orientation
        &&& a.color_order == b.color_order
    }

    pub open spec fn window_valid(self, x0: u16, y0: u16, x1: u16, y1: u16) -> bool {
        &&& x0 <= x1 < self.width
        &&& y0 <= y1 < self.height
    }

    pub fn new(width: u16, height: u16, orientation: Orientation, color_order: ColorOrder) -> (r:
        DisplayController)
        requires
            0 < width,
            0 < height,
        ensures
            r.wf(),
            r.width == width,
            r.height == height,
            r.orientation == orientation,
            r.color_order == color_order,
            r.state == InitState::Uninitialized,
            r.trace() == Seq::<OpV>::empty(),
            r.window == (Window { x0: 0, y0: 0, x1: 0, y1: 0 }),
    {
        DisplayController {
            iface: DisplayInterface::new(),
            width,
            height,
            orientation,
            color_order,
            state: InitState::Uninitialized,
            window: Window { x0: 0, y0: 0, x1: 0, y1: 0 },
        }
    }

    /// Hardware reset: hold the reset line low for the pulse width, raise it,
    /// and wait out the settle delay before anything else is sent.
    pub fn reset(&mut self)
        requires
            old(self).state == InitState::Uninitialized,
            old(self).wf(),
        ensures
            final(self).state == InitState::Resetting,
            final(self).wf(),
            Self::same_config(*old(self), *final(self)),
            final(self).window == old(self).window,
            final(self).trace() == old(self).trace() + reset_ops(),
    {
        let ghost t0 = self.trace();
        self.iface.reset_low();
        self.iface.delay_ms(RESET_PULSE_MS);
        self.iface.reset_high();
        self.iface.delay_ms(RESET_SETTLE_MS);
        self.state = InitState::Resetting;
        proof {
            assert(self.trace() =~= t0 + reset_ops());
        }
    }

    /// Replays the configuration table.
    pub fn configure(&mut self)
        requires
            old(self).state == InitState::Resetting,
            old(self).wf(),
        ensures
            final(self).state == InitState::ConfiguringInterface,
            final(self).wf(),
            Self::same_config(*old(self), *final(self)),
            final(self).window == old(self).window,
            final(self).trace() == old(self).trace() + entries_ops(
                config_entries_spec(old(self).orientation, old(self).color_order),
            ),
    {
        let entries = config_entries(self.orientation, self.color_order);
        proof {
            let spec = config_entries_spec(self.orientation, self.color_order);
            assert forall|k: int| 0 <= k < entries@.len() implies (#[trigger] entries@[k])@.params.len()
                < SCRATCH_LEN by {
                assert(entries@[k]@ == entries_view(entries@)[k]);
                assert(entries_view(entries@)[k] == spec[k]);
                assert(entries@.len() == spec.len() == 4);
                if k == 0 {
                    assert(spec[0].params.len() == 1);
                } else if k == 1 {
                    assert(spec[1].params.len() == 1);
                } else if k == 2 {
                    assert(spec[2].params.len() == 1);
                } else {
                    assert(spec[3].params.len() == 1);
                }
            }
        }
        run_entries(&mut self.iface, &entries);
        self.state = InitState::ConfiguringInterface;
    }

    /// Sends sleep-out and display-on; the controller then serves draw calls.
    pub fn enable(&mut self)
        requires
            old(self).state == InitState::ConfiguringInterface,
            old(self).wf(),
        ensures
            final(self).state == InitState::Ready,
            final(self).wf(),
            Self::same_config(*old(self), *final(self)),
            final(self).window == old(self).window,
            final(self).trace() == old(self).trace() + entries_ops(enable_entries_spec()),
    {
        let entries = enable_entries();
        proof {
            let spec = enable_entries_spec();
            assert forall|k: int| 0 <= k < entries@.len() implies (#[trigger] entries@[k])@.params.len()
                < SCRATCH_LEN by {
                assert(entries@[k]@ == entries_view(entries@)[k]);
                assert(entries_view(entries@)[k] == spec[k]);
                assert(entries@.len() == spec.len() == 2);
                if k == 0 {
                    assert(spec[0].params.len() == 0);
                } else {
                    assert(spec[1].params.len() == 0);
                }
            }
        }
        run_entries(&mut self.iface, &entries);
        self.state = InitState::Ready;
    }

    /// The whole bring-up: reset, configure, enable, ending in `Ready`.
    pub fn init(&mut self)
        requires
            old(self).state == InitState::Uninitialized,
            old(self).wf(),
        ensures
            final(self).state == InitState::Ready,
            final(self).wf(),
            Self::same_config(*old(self), *final(self)),
            final(self).window == old(self).window,
            final(self).trace() == old(self).trace() + bringup_ops(
                old(self).orientation,
                old(self).color_order,
            ),
    {
        let ghost t0 = self.trace();
        self.reset();
        self.configure();
        self.enable();
        proof {
            assert(self.trace() =~= t0 + bringup_ops(self.orientation, self.color_order));
        }
    }

    /// Sets the addressing window to the given inclusive rectangle and
    /// streams exactly its pixels, as one window-set followed immediately by
    /// one pixel-write. Rejects a window outside the display bounds, and a
    /// pixel sequence whose length is not the window's pixel count.
    pub fn set_pixels(&mut self, x0: u16, y0: u16, x1: u16, y1: u16, pixels: &Vec<u16>) -> (r:
        Result<(), DrawError>)
        requires
            old(self).state == InitState::Ready,
            old(self).wf(),
        ensures
            final(self).state == InitState::Ready,
            final(self).wf(),
            Self::same_config(*old(self), *final(self)),
            r == Ok::<(), DrawError>(()) <==> (old(self).window_valid(x0, y0, x1, y1)
                && pixels@.len() == window_pixel_count(x0, y0, x1, y1)),
            r == Ok::<(), DrawError>(()) ==> final(self).trace() == old(self).trace() + draw_ops(
                x0,
                y0,
                x1,
                y1,
                pixels@,
            ) && final(self).window == (Window { x0, y0, x1, y1 }),
            r == Err::<(), DrawError>(DrawError::WindowOutOfBounds) <==> !old(self).window_valid(
                x0,
                y0,
                x1,
                y1,
            ),
            r == Err::<(), DrawError>(DrawError::PixelCountMismatch) <==> (old(
                self,
            ).window_valid(x0, y0, x1, y1) && pixels@.len() != window_pixel_count(x0, y0, x1, y1)),
            r != Ok::<(), DrawError>(()) ==> *final(self) == *old(self),
    {
        if !(x0 <= x1 && x1 < self.width && y0 <= y1 && y1 < self.height) {
            return Err(DrawError::WindowOutOfBounds);
        }
        let wu: u64 = (x1 - x0) as u64 + 1;
        let hu: u64 = (y1 - y0) as u64 + 1;
        proof {
            assert(wu * hu <= 0x1_0000_0000u64) by (nonlinear_arith)
                requires
                    wu <= 0x1_0000u64,
                    hu <= 0x1_0000u64,
            ;
        }
        let count: u64 = wu * hu;
        if pixels.len() as u64 != count {
            return Err(DrawError::PixelCountMismatch);
        }
        let ghost t0 = self.trace();
        let (x0h, x0l) = u16_to_be(x0);
        let (x1h, x1l) = u16_to_be(x1);
        let mut pc: Vec<u8> = Vec::new();
        pc.push(x0h);
        pc.push(x0l);
        pc.push(x1h);
        pc.push(x1l);
        proof {
            assert(pc@ =~= u16_be(x0) + u16_be(x1));
        }
        self.iface.send_command(CMD_COLUMN_ADDRESS_SET, &pc);
        let (y0h, y0l) = u16_to_be(y0);
        let (y1h, y1l) = u16_to_be(y1);
        let mut pp: Vec<u8> = Vec::new();
        pp.push(y0h);
        pp.push(y0l);
        pp.push(y1h);
        pp.push(y1l);
        proof {
            assert(pp@ =~= u16_be(y0) + u16_be(y1));
        }
        self.iface.send_command(CMD_PAGE_ADDRESS_SET, &pp);
        let pe: Vec<u8> = Vec::new();
        proof {
            assert(pe@ =~= Seq::<u8>::empty());
        }
        self.iface.send_command(CMD_MEMORY_WRITE, &pe);
        self.iface.send_pixels(pixels);
        self.window = Window { x0, y0, x1, y1 };
        proof {
            assert(self.trace() =~= t0 + draw_ops(x0, y0, x1, y1, pixels@));
        }
        Ok(())
    }

    /// Draws a frame. Frames are only constructed valid, so drawing always
    /// succeeds: one window-set for the frame's window, immediately followed
    /// by its pixel write.
    pub fn draw_frame(&mut self, frame: &Frame)
        requires
            old(self).state == InitState::Ready,
            old(self).wf(),
            frame.wf(old(self).width, old(self).height),
        ensures
            final(self).state == InitState::Ready,
            final(self).wf(),
            Self::same_config(*old(self), *final(self)),
            final(self).trace() == old(self).trace() + draw_ops(
                frame.window.x0,
                frame.window.y0,
                frame.window.x1,
                frame.window.y1,
                frame.pixels@,
            ),
            final(self).window == frame.window,
    {
        let r = self.set_pixels(
            frame.window.x0,
            frame.window.y0,
            frame.window.x1,
            frame.window.y1,
            &frame.pixels,
        );
        proof {
            assert(r == Ok::<(), DrawError>(()));
        }
    }

    /// Fills the whole screen with one color. The window is the full
    /// display and the pixel count matches it by construction, so this
    /// always succeeds.
    pub fn fill_screen(&mut self, color: u16) -> (r: Result<(), DrawError>)
        requires
            old(self).state == InitState::Ready,
            old(self).wf(),
            old(self).width * old(self).height <= usize::MAX,
        ensures
            r == Ok::<(), DrawError>(()),
            final(self).state == InitState::Ready,
            final(self).wf(),
            Self::same_config(*old(self), *final(self)),
            final(self).trace() == old(self).trace() + draw_ops(
                0,
                0,
                (old(self).width - 1) as u16,
                (old(self).height - 1) as u16,
                repeat_pixel((old(self).width * old(self).height) as nat, color),
            ),
            final(self).window == (Window {
                x0: 0,
                y0: 0,
                x1: (old(self).width - 1) as u16,
                y1: (old(self).height - 1) as u16,
            }),
    {
        let count: usize = (self.width as usize) * (self.height as usize);
        let pixels = solid_pixels(count, color);
        let x1 = self.width - 1;
        let y1 = self.height - 1;
        let r = self.set_pixels(0, 0, x1, y1, &pixels);
        proof {
            assert(r == Ok::<(), DrawError>(()));
        }
        r
    }
}

/// A solid-color pixel sequence of the given length.
pub fn solid_pixels(count: usize, color: u16) -> (r: Vec<u16>)
    ensures
        r@ == repeat_pixel(count as nat, color),
{
    let mut r: Vec<u16> = Vec::new();
    proof {
        assert(r@ =~= repeat_pixel(0, color));
    }
    let mut i: usize = 0;
    while i < count
        invariant
            i <= count,
            r@ == repeat_pixel(i as nat, color),
        decreases count - i,
    {
        r.push(color);
        proof {
            assert(r@ =~= repeat_pixel((i + 1) as nat, color));
        }
        i += 1;
    }
    r
}

} // verus!
