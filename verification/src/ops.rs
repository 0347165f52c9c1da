//! The wire-operation alphabet and spec-level reasoning about operation traces.
//!
//! A trace is the complete, ordered record of what the driver does to the
//! display: reset-line changes, blocking delays, data/command-line changes,
//! chip-select changes, and SPI byte writes.

use vstd::prelude::*;

verus! {

/// The scratch buffer reused for every outgoing frame; payloads larger than
/// this are chunked into sequential SPI writes without releasing chip-select.
pub const SCRATCH_LEN: usize = 512;

/// One executable operation on the wire.
///
/// `SpiWrite` carries the bytes of a single bus write; chip-select and the
/// data/command line are driven by their own operations, so a logical
/// transaction is a `CsAssert` .. `CsRelease` bracket around writes.
#[derive(Debug, Clone, PartialEq, Eq)]
pub enum WireOp {
    CsAssert,
    CsRelease,
    DcLow,
    DcHigh,
    SpiWrite(Vec<u8>),
    ResetLow,
    ResetHigh,
    DelayMs(u32),
}

/// Spec-level image of a wire operation, with the write payload as a `Seq`.
#[verifier::ext_equal]
pub enum OpV {
    CsAssert,
    CsRelease,
    DcLow,
    DcHigh,
    SpiWrite(Seq<u8>),
    ResetLow,
    ResetHigh,
    DelayMs(u32),
}

impl View for WireOp {
    type V = OpV;

    open spec fn view(&self) -> OpV {
        match self {
            WireOp::CsAssert => OpV::CsAssert,
            WireOp::CsRelease => OpV::CsRelease,
            WireOp::DcLow => OpV::DcLow,
            WireOp::DcHigh => OpV::DcHigh,
            WireOp::SpiWrite(bytes) => OpV::SpiWrite(bytes@),
            WireOp::ResetLow => OpV::ResetLow,
            WireOp::ResetHigh => OpV::ResetHigh,
            WireOp::DelayMs(ms) => OpV::DelayMs(*ms),
        }
    }
}

/// The trace recorded by a vector of wire operations.
pub open spec fn trace_of(ops: Seq<WireOp>) -> Seq<OpV> {
    ops.map_values(|op: WireOp| op@)
}

/// The payload an operation puts on the SPI data line (empty for non-writes).
pub open spec fn op_bytes(op: OpV) -> Seq<u8> {
    match op {
        OpV::SpiWrite(bytes) => bytes,
        _ => Seq::empty(),
    }
}

/// All bytes a trace puts on the SPI data line, in transmission order.
pub open spec fn bytes_of(ops: Seq<OpV>) -> Seq<u8>
    decreases ops.len(),
{
    if ops.len() == 0 {
        Seq::empty()
    } else {
        op_bytes(ops.first()) + bytes_of(ops.drop_first())
    }
}

/// True for an SPI write that fits the scratch buffer and is not empty.
pub open spec fn is_bounded_write(op: OpV) -> bool {
    match op {
        OpV::SpiWrite(bytes) => 0 < bytes.len() <= SCRATCH_LEN,
        _ => false,
    }
}

pub proof fn lemma_bytes_of_singleton(op: OpV)
    ensures
        bytes_of(seq![op]) == op_bytes(op),
{
    let s = seq![op];
    assert(s.first() == op);
    assert(s.drop_first() =~= Seq::<OpV>::empty());
    assert(bytes_of(s.drop_first()) == Seq::<u8>::empty());
    assert(bytes_of(s) =~= op_bytes(op));
}

pub proof fn lemma_bytes_of_concat(a: Seq<OpV>, b: Seq<OpV>)
    ensures
        bytes_of(a + b) == bytes_of(a) + bytes_of(b),
    decreases a.len(),
{
    if a.len() == 0 {
        assert(a + b =~= b);
        assert(bytes_of(a) + bytes_of(b) =~= bytes_of(b));
    } else {
        assert((a + b).first() == a.first());
        assert((a + b).drop_first() =~= a.drop_first() + b);
        lemma_bytes_of_concat(a.drop_first(), b);
        assert(bytes_of(a + b) =~= bytes_of(a) + bytes_of(b));
    }
}

/// A trace of operations that carry no payload puts no byte on the wire.
pub proof fn lemma_bytes_of_no_writes(ops: Seq<OpV>)
    requires
        forall|i: int| 0 <= i < ops.len() ==> op_bytes(#[trigger] ops[i]) == Seq::<u8>::empty(),
    ensures
        bytes_of(ops) == Seq::<u8>::empty(),
    decreases ops.len(),
{
    if ops.len() > 0 {
        assert(ops.first() == ops[0]);
        assert forall|i: int| 0 <= i < ops.drop_first().len() implies op_bytes(
            #[trigger] ops.drop_first()[i],
        ) == Seq::<u8>::empty() by {
            assert(ops.drop_first()[i] == ops[i + 1]);
        }
        lemma_bytes_of_no_writes(ops.drop_first());
        assert(bytes_of(ops) =~= Seq::<u8>::empty());
    }
}

/// The scratch-buffer chunking of a payload: writes of `SCRATCH_LEN` bytes
/// until fewer remain, then one final write with the remainder.
pub open spec fn chunk_writes(bytes: Seq<u8>) -> Seq<OpV>
    decreases bytes.len(),
{
    if bytes.len() <= 0 {
        Seq::empty()
    } else if bytes.len() <= SCRATCH_LEN as int {
        seq![OpV::SpiWrite(bytes)]
    } else {
        seq![OpV::SpiWrite(bytes.take(SCRATCH_LEN as int))]
            + chunk_writes(bytes.skip(SCRATCH_LEN as int))
    }
}

/// Chunking loses and reorders nothing, and every chunk fits the scratch
/// buffer.
pub proof fn lemma_chunk_writes_props(bytes: Seq<u8>)
    ensures
        bytes_of(chunk_writes(bytes)) == bytes,
        forall|i: int|
            0 <= i < chunk_writes(bytes).len() ==> is_bounded_write(
                #[trigger] chunk_writes(bytes)[i],
            ),
    decreases bytes.len(),
{
    if bytes.len() <= 0 {
        assert(bytes_of(chunk_writes(bytes)) =~= bytes);
    } else if bytes.len() <= SCRATCH_LEN as int {
        let single = seq![OpV::SpiWrite(bytes)];
        lemma_bytes_of_singleton(OpV::SpiWrite(bytes));
        assert(bytes_of(single) =~= bytes);
    } else {
        let head = seq![OpV::SpiWrite(bytes.take(SCRATCH_LEN as int))];
        let tail = chunk_writes(bytes.skip(SCRATCH_LEN as int));
        lemma_chunk_writes_props(bytes.skip(SCRATCH_LEN as int));
        lemma_bytes_of_concat(head, tail);
        lemma_bytes_of_singleton(OpV::SpiWrite(bytes.take(SCRATCH_LEN as int)));
        assert(bytes_of(head) =~= bytes.take(SCRATCH_LEN as int));
        assert(bytes.take(SCRATCH_LEN as int) + bytes.skip(SCRATCH_LEN as int) =~= bytes);
        assert(forall|i: int|
            0 <= i < chunk_writes(bytes).len() ==> is_bounded_write(
                #[trigger] chunk_writes(bytes)[i],
            ));
    }
}

/// Chunking a payload is the same as chunking a whole-chunk prefix and the
/// rest separately.
pub proof fn lemma_chunk_writes_split(bytes: Seq<u8>, k: int)
    requires
        0 <= k <= bytes.len(),
        k % (SCRATCH_LEN as int) == 0,
    ensures
        chunk_writes(bytes) == chunk_writes(bytes.take(k)) + chunk_writes(bytes.skip(k)),
    decreases bytes.len(),
{
    let s = SCRATCH_LEN as int;
    if k == 0 {
        assert(bytes.take(0) =~= Seq::<u8>::empty());
        assert(bytes.skip(0) =~= bytes);
        assert(chunk_writes(bytes.take(0)) + chunk_writes(bytes.skip(0)) =~= chunk_writes(bytes));
    } else {
        assert(k >= s) by {
            assert(k > 0 && k % s == 0);
        }
        if bytes.len() <= s {
            assert(k == bytes.len());
            assert(bytes.take(k) =~= bytes);
            assert(bytes.skip(k) =~= Seq::<u8>::empty());
            assert(chunk_writes(bytes.take(k)) + chunk_writes(bytes.skip(k)) =~= chunk_writes(
                bytes,
            ));
        } else {
            let rest = bytes.skip(s);
            lemma_chunk_writes_split(rest, k - s);
            assert(rest.take(k - s) =~= bytes.take(k).skip(s));
            assert(rest.skip(k - s) =~= bytes.skip(k));
            if k == s {
                assert(bytes.take(k).len() == s);
                assert(chunk_writes(bytes.take(k)) == seq![OpV::SpiWrite(bytes.take(k))]);
                assert(bytes.take(k).skip(s) =~= Seq::<u8>::empty());
                assert(chunk_writes(bytes) =~= chunk_writes(bytes.take(k)) + chunk_writes(
                    bytes.skip(k),
                ));
            } else {
                assert(bytes.take(k).len() == k > s);
                assert(bytes.take(k).take(s) =~= bytes.take(s));
                assert(chunk_writes(bytes.take(k)) == seq![OpV::SpiWrite(bytes.take(s))]
                    + chunk_writes(bytes.take(k).skip(s)));
                assert(chunk_writes(bytes) =~= chunk_writes(bytes.take(k)) + chunk_writes(
                    bytes.skip(k),
                ));
            }
        }
    }
}

} // verus!
