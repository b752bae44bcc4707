//! What a protocol asks of the host: the operations on one slot's SPI
//! channel, interrupt line and reset line, and the scripts made of them.
//!
//! The protocols of this crate never touch a device. Each hands out a script,
//! the host carries it out in order, and reports how the last transfer of
//! the script went.

use vstd::prelude::*;
use crate::frame::{erase, erase_frame};

verus! {

/// How long the reset line is held, and how long the module is given after
/// its release, in milliseconds.
pub const RESET_HOLD_MS: u64 = 200;

/// How long the end of an erase is waited for, in milliseconds. Erasing
/// flash pages takes hundreds of milliseconds.
pub const ERASE_TIMEOUT_MS: u64 = 3500;

/// How long the interrupt that follows a firmware line is waited for, in
/// milliseconds.
pub const LINE_TIMEOUT_MS: u64 = 1;

/// How long the interrupt that follows a status probe is waited for, in
/// milliseconds.
pub const PROBE_TIMEOUT_MS: u64 = 5;

/// How long the module is left alone after the terminal record before it is
/// probed, in milliseconds. Found by experiment on the modules: sooner, the
/// bootloader has not yet decided whether to branch to the new image.
pub const TERMINAL_SETTLE_MS: u64 = 5;

/// How long the queue of edges is polled for one more edge while it is
/// drained, in milliseconds.
pub const DRAIN_POLL_MS: u64 = 1;

/// One operation on a slot's transport.
#[derive(Debug, PartialEq, Eq)]
pub enum Op {
    /// Push the bytes out and ignore what is read back.
    Write(Vec<u8>),
    /// Push the bytes out and read as many back.
    Exchange(Vec<u8>),
    /// Drive the reset line: `true` holds the module in reset.
    Reset(bool),
    /// Do nothing for so many milliseconds.
    Sleep(u64),
    /// Consume the falling edges that are queued, until none comes within
    /// `DRAIN_POLL_MS`. The kernel queues edges: left in the queue, an edge
    /// of the reset pulse would be taken for the end of the erase.
    Drain,
    /// Start waiting for the next falling edge.
    Arm,
    /// Wait for the edge armed last, at most so many milliseconds.
    Await(u64),
}

/// An operation with its bytes as a sequence.
pub enum OpView {
    Write(Seq<u8>),
    Exchange(Seq<u8>),
    Reset(bool),
    Sleep(u64),
    Drain,
    Arm,
    Await(u64),
}

impl View for Op {
    type V = OpView;

    open spec fn view(&self) -> OpView {
        match *self {
            Op::Write(bytes) => OpView::Write(bytes@),
            Op::Exchange(bytes) => OpView::Exchange(bytes@),
            Op::Reset(held) => OpView::Reset(held),
            Op::Sleep(ms) => OpView::Sleep(ms),
            Op::Drain => OpView::Drain,
            Op::Arm => OpView::Arm,
            Op::Await(ms) => OpView::Await(ms),
        }
    }
}

impl DeepView for Op {
    type V = OpView;

    open spec fn deep_view(&self) -> OpView {
        self@
    }
}

/// What a protocol hands back at each step: the operations to carry out, in
/// order, and its verdict once it has ended. While the verdict is `None`,
/// the protocol waits to be told how the last transfer of `ops` went.
pub struct Step<T> {
    pub ops: Vec<Op>,
    pub verdict: Option<T>,
}

/// What a transfer read back, as a sequence; `None` for a transfer that
/// failed.
pub open spec fn read_back(outcome: Option<Vec<u8>>) -> Option<Seq<u8>> {
    match outcome {
        Some(reply) => Some(reply@),
        None => None,
    }
}

/// A step with its script as a sequence.
pub struct StepView<T> {
    pub ops: Seq<OpView>,
    pub verdict: Option<T>,
}

impl<T> View for Step<T> {
    type V = StepView<T>;

    open spec fn view(&self) -> StepView<T> {
        StepView { ops: self.ops.deep_view(), verdict: self.verdict }
    }
}

/// The five zero bytes written first, to clear what the peer holds of an
/// earlier frame.
pub open spec fn dummy_frame() -> Seq<u8> {
    seq![0u8, 0u8, 0u8, 0u8, 0u8]
}

/// The reset pulse that forces a module into its bootloader.
pub open spec fn reset_pulse() -> Seq<OpView> {
    seq![
        OpView::Reset(true),
        OpView::Sleep(RESET_HOLD_MS),
        OpView::Reset(false),
        OpView::Sleep(RESET_HOLD_MS),
    ]
}

/// The erase, once the dummy frame is written: the reset pulse, the queue of
/// edges drained, the wait armed, then the erase frame.
pub open spec fn erase_script(sw0: u8, sw1: u8, sw2: u8) -> Seq<OpView> {
    reset_pulse() + seq![OpView::Drain, OpView::Arm, OpView::Write(erase_frame(sw0, sw1, sw2))]
}

/// Whether `op` moves bytes over the SPI channel.
pub open spec fn is_transfer(op: OpView) -> bool {
    op is Write || op is Exchange
}

/// Whether `ops` holds one transfer, as its last operation. The host reports
/// how that transfer went.
pub open spec fn ends_in_its_transfer(ops: Seq<OpView>) -> bool {
    &&& ops.len() > 0
    &&& is_transfer(ops.last())
    &&& forall|i: int| 0 <= i < ops.len() - 1 ==> !is_transfer(#[trigger] ops[i])
}

/// Appends `op` to `ops`.
pub fn push_op(ops: &mut Vec<Op>, op: Op)
    ensures
        final(ops).deep_view() == old(ops).deep_view().push(op@),
{
    ops.push(op);
    assert(ops.deep_view() =~= old(ops).deep_view().push(op@));
}

/// An empty script.
pub fn no_ops() -> (ops: Vec<Op>)
    ensures
        ops.deep_view() == Seq::<OpView>::empty(),
{
    let ops: Vec<Op> = Vec::new();
    assert(ops.deep_view() =~= Seq::<OpView>::empty());
    ops
}

/// Builds the dummy frame.
pub fn dummy() -> (frame: Vec<u8>)
    ensures
        frame@ == dummy_frame(),
{
    let frame: Vec<u8> = vec![0u8; 5];
    assert(frame@ =~= dummy_frame());
    frame
}

/// Appends the reset pulse to `ops`.
pub fn push_reset_pulse(ops: &mut Vec<Op>)
    ensures
        final(ops).deep_view() == old(ops).deep_view() + reset_pulse(),
{
    push_op(ops, Op::Reset(true));
    push_op(ops, Op::Sleep(RESET_HOLD_MS));
    push_op(ops, Op::Reset(false));
    push_op(ops, Op::Sleep(RESET_HOLD_MS));
    assert(ops.deep_view() =~= old(ops).deep_view() + reset_pulse());
}

/// Builds the script of an erase that commits the software version
/// `(sw0, sw1, sw2)`.
pub fn erase_ops(sw0: u8, sw1: u8, sw2: u8) -> (ops: Vec<Op>)
    ensures
        ops.deep_view() == erase_script(sw0, sw1, sw2),
{
    let mut ops = no_ops();
    push_reset_pulse(&mut ops);
    push_op(&mut ops, Op::Drain);
    push_op(&mut ops, Op::Arm);
    push_op(&mut ops, Op::Write(erase(sw0, sw1, sw2)));
    assert(ops.deep_view() =~= erase_script(sw0, sw1, sw2));
    ops
}

} // verus!
