//! The framing layer: turns "send command" / "send data" requests into
//! DC-pin-qualified, chip-select-bracketed SPI writes, chunking payloads
//! larger than the scratch buffer without releasing chip-select.

use crate::encode::lemma_pixels_bytes_push;
use crate::encode::pixels_bytes;
use crate::encode::u16_to_be;
use crate::ops::chunk_writes;
use crate::ops::lemma_chunk_writes_split;
use crate::ops::trace_of;
use crate::ops::OpV;
use crate::ops::WireOp;
use crate::ops::SCRATCH_LEN;
use vstd::prelude::*;

verus! {

/// The operations of one command transaction: chip-select asserted, the
/// data/command line driven low, the opcode and its parameters written as
/// one frame, chip-select released.
pub open spec fn command_ops(opcode: u8, params: Seq<u8>) -> Seq<OpV> {
    seq![
        OpV::CsAssert,
        OpV::DcLow,
        OpV::SpiWrite(seq![opcode] + params),
        OpV::CsRelease,
    ]
}

/// The operations of one pixel-write transaction: chip-select asserted, the
/// data/command line driven high once, the pixel bytes written in
/// scratch-buffer-sized chunks, chip-select released only at the end.
pub open spec fn pixel_stream_ops(pixels: Seq<u16>) -> Seq<OpV> {
    seq![OpV::CsAssert, OpV::DcHigh] + chunk_writes(pixels_bytes(pixels)) + seq![OpV::CsRelease]
}

/// The framing layer. It records every wire operation it performs in `ops`,
/// in order; the hardware layer replays that record verbatim.
pub struct DisplayInterface {
    pub ops: Vec<WireOp>,
}

impl DisplayInterface {
    /// The trace of everything sent so far.
    pub open spec fn trace(self) -> Seq<OpV> {
        trace_of(self.ops@)
    }

    pub fn new() -> (r: DisplayInterface)
        ensures
            r.trace() == Seq::<OpV>::empty(),
    {
        let r = DisplayInterface { ops: Vec::new() };
        proof {
            assert(r.trace() =~= Seq::<OpV>::empty());
        }
        r
    }

    fn push_op(&mut self, op: WireOp)
        ensures
            final(self).trace() == old(self).trace().push(op@),
    {
        let ghost t0 = self.ops@;
        let ghost opv = op@;
        self.ops.push(op);
        proof {
            assert(self.ops@ == t0.push(op));
            assert(trace_of(t0.push(op)) =~= trace_of(t0).push(opv));
        }
    }

    /// Records a blocking delay of `ms` milliseconds.
    pub fn delay_ms(&mut self, ms: u32)
        ensures
            final(self).trace() == old(self).trace().push(OpV::DelayMs(ms)),
    {
        self.push_op(WireOp::DelayMs(ms));
    }

    /// Drives the reset line low.
    pub fn reset_low(&mut self)
        ensures
            final(self).trace() == old(self).trace().push(OpV::ResetLow),
    {
        self.push_op(WireOp::ResetLow);
    }

    /// Drives the reset line high.
    pub fn reset_high(&mut self)
        ensures
            final(self).trace() == old(self).trace().push(OpV::ResetHigh),
    {
        self.push_op(WireOp::ResetHigh);
    }

    /// Sends one command: opcode and parameters as a single transaction.
    /// The frame must fit the scratch buffer.
    pub fn send_command(&mut self, opcode: u8, params: &Vec<u8>)
        requires
            params@.len() < SCRATCH_LEN,
        ensures
            final(self).trace() == old(self).trace() + command_ops(opcode, params@),
    {
        let ghost t0 = self.trace();
        self.push_op(WireOp::CsAssert);
        self.push_op(WireOp::DcLow);
        let mut frame: Vec<u8> = Vec::new();
        frame.push(opcode);
        proof {
            assert(frame@ =~= seq![opcode] + params@.take(0));
        }
        let mut i: usize = 0;
        while i < params.len()
            invariant
                i <= params@.len(),
                frame@ == seq![opcode] + params@.take(i as int),
                self.trace() == t0.push(OpV::CsAssert).push(OpV::DcLow),
            decreases params@.len() - i,
        {
            frame.push(params[i]);
            proof {
                assert(seq![opcode] + params@.take(i as int + 1) =~= (seq![opcode] + params@.take(
                    i as int,
                )).push(params@[i as int]));
            }
            i += 1;
        }
        proof {
            assert(params@.take(params@.len() as int) =~= params@);
        }
        self.push_op(WireOp::SpiWrite(frame));
        self.push_op(WireOp::CsRelease);
        proof {
            assert(self.trace() =~= t0 + command_ops(opcode, params@));
        }
    }

    /// Streams a pixel sequence as data: the data/command line is set high
    /// once, the bytes go out in scratch-buffer-sized chunks, and chip-select
    /// stays asserted for the entire stream.
    pub fn send_pixels(&mut self, pixels: &Vec<u16>)
        ensures
            final(self).trace() == old(self).trace() + pixel_stream_ops(pixels@),
    {
        let ghost t0 = self.trace();
        self.push_op(WireOp::CsAssert);
        self.push_op(WireOp::DcHigh);
        let ghost t1 = t0.push(OpV::CsAssert).push(OpV::DcHigh);

        let mut bytes: Vec<u8> = Vec::new();
        let mut i: usize = 0;
        while i < pixels.len()
            invariant
                i <= pixels@.len(),
                bytes@ == pixels_bytes(pixels@.take(i as int)),
                self.trace() == t1,
            decreases pixels@.len() - i,
        {
            let p = pixels[i];
            let (h, l) = u16_to_be(p);
            bytes.push(h);
            bytes.push(l);
            proof {
                lemma_pixels_bytes_push(pixels@.take(i as int), p);
                assert(pixels@.take(i as int + 1) =~= pixels@.take(i as int).push(p));
                assert(bytes@ =~= pixels_bytes(pixels@.take(i as int + 1)));
            }
            i += 1;
        }
        proof {
            assert(pixels@.take(pixels@.len() as int) =~= pixels@);
        }

        let mut idx: usize = 0;
        proof {
            assert(t1 + chunk_writes(bytes@.take(0)) =~= t1);
        }
        while idx < bytes.len()
            invariant
                idx <= bytes@.len(),
                idx % SCRATCH_LEN == 0 || idx == bytes@.len(),
                bytes@ == pixels_bytes(pixels@),
                self.trace() == t1 + chunk_writes(bytes@.take(idx as int)),
            decreases bytes@.len() - idx,
        {
            let remaining = bytes.len() - idx;
            let clen = if remaining > SCRATCH_LEN {
                SCRATCH_LEN
            } else {
                remaining
            };
            let end: usize = idx + clen;
            let mut chunk: Vec<u8> = Vec::new();
            let mut j: usize = idx;
            while j < end
                invariant
                    idx <= j <= end,
                    end == idx + clen,
                    0 < clen <= SCRATCH_LEN,
                    end <= bytes@.len(),
                    chunk@ == bytes@.subrange(idx as int, j as int),
                    bytes@ == pixels_bytes(pixels@),
                    self.trace() == t1 + chunk_writes(bytes@.take(idx as int)),
                decreases end - j,
            {
                chunk.push(bytes[j]);
                proof {
                    assert(bytes@.subrange(idx as int, j as int + 1) =~= bytes@.subrange(
                        idx as int,
                        j as int,
                    ).push(bytes@[j as int]));
                }
                j += 1;
            }
            self.push_op(WireOp::SpiWrite(chunk));
            proof {
                let b = bytes@;
                let k = idx as int;
                let c = clen as int;
                lemma_chunk_writes_split(b.take(k + c), k);
                assert(b.take(k + c).take(k) =~= b.take(k));
                assert(b.take(k + c).skip(k) =~= b.subrange(k, k + c));
                assert(chunk_writes(b.subrange(k, k + c)) == seq![
                    OpV::SpiWrite(b.subrange(k, k + c)),
                ]);
                assert(self.trace() =~= t1 + chunk_writes(b.take(k + c)));
            }
            idx += clen;
        }
        proof {
            assert(bytes@.take(bytes@.len() as int) =~= bytes@);
        }
        self.push_op(WireOp::CsRelease);
        proof {
            assert(self.trace() =~= t0 + pixel_stream_ops(pixels@));
        }
    }
}

} // verus!
