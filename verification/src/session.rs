//! A module in its slot: what it says of itself, how it is asked, and how it
//! is wiped.

use vstd::prelude::*;
use vstd::string::*;
use vstd::slice::slice_subrange;
use crate::frame::{
    be_u32, clone_into_array, identify, identify_frame, read_be_u32, spec_validate, validate,
    CMD_IDENTIFY,
};
use crate::text::{decimal, push_decimal};
use crate::transport::{
    dummy, dummy_frame, erase_ops, erase_script, no_ops, push_op, push_reset_pulse, read_back,
    reset_pulse, Op, OpView, Step, StepView, ERASE_TIMEOUT_MS,
};
use crate::version::{FirmwareVersion, BLANK};

verus! {

/// A module found in a slot, with what it said of itself.
#[derive(Debug, Clone, Copy, PartialEq, Eq)]
pub struct Module {
    /// The slot, counted from 1.
    pub slot: u8,
    /// The firmware the module runs.
    pub firmware: FirmwareVersion,
    /// The manufacturer's number.
    pub manufacturer: u32,
    /// The code on the front of the module.
    pub qr_front: u32,
    /// The code on the back of the module.
    pub qr_back: u32,
}

/// Whether `reply` answers the identify command: its checksum holds, and
/// bytes 0 and 2 both repeat the command.
pub open spec fn answers(reply: Seq<u8>) -> bool {
    &&& spec_validate(reply)
    &&& reply[0] == CMD_IDENTIFY
    &&& reply[2] == CMD_IDENTIFY
}

/// Whether `module` is what `reply` tells of the module in `slot`: the
/// firmware version in bytes 6 to 12, then the manufacturer and the two
/// codes, four bytes each, high byte first.
pub open spec fn tells(reply: Seq<u8>, slot: u8, module: Module) -> bool {
    &&& module.slot == slot
    &&& module.firmware.firmware@ == reply.subrange(6, 13)
    &&& module.manufacturer == be_u32(reply, 13)
    &&& module.qr_front == be_u32(reply, 17)
    &&& module.qr_back == be_u32(reply, 21)
}

/// Reads the reply to the identify command. A reply that does not answer the
/// command means that no module is present.
pub fn read_identity(slot: u8, reply: &[u8]) -> (module: Option<Module>)
    ensures
        module is Some <==> answers(reply@),
        module matches Some(m) ==> tells(reply@, slot, m),
{
    if !validate(reply) || reply[0] != CMD_IDENTIFY || reply[2] != CMD_IDENTIFY {
        return None;
    }
    let firmware: [u8; 7] = clone_into_array(slice_subrange(reply, 6, 13));
    Some(
        Module {
            slot,
            firmware: FirmwareVersion { firmware },
            manufacturer: read_be_u32(reply, 13),
            qr_front: read_be_u32(reply, 17),
            qr_back: read_be_u32(reply, 21),
        },
    )
}

/// Where an info query stands.
#[derive(Debug, Clone, Copy, PartialEq, Eq)]
pub enum QueryPhase {
    /// The dummy frame is out.
    Dummy,
    /// The identify frame is out.
    Identify,
    /// The query has ended.
    Done,
}

/// An info query in progress: the module is reset into its bootloader and
/// asked to identify itself. Nothing is tried twice.
#[derive(Debug, Clone, Copy, PartialEq, Eq)]
pub struct InfoQuery {
    pub slot: u8,
    pub phase: QueryPhase,
    pub found: Option<Module>,
}

/// The script that follows the dummy frame of an info query: the reset
/// pulse, then the identify frame.
pub open spec fn identify_script() -> Seq<OpView> {
    reset_pulse() + seq![OpView::Exchange(identify_frame())]
}

/// An info query that has ended with `found`, and asks for nothing more.
pub open spec fn query_ended(slot: u8, found: Option<Module>) -> (InfoQuery, StepView<
    Option<Module>,
>) {
    (
        InfoQuery { slot, phase: QueryPhase::Done, found },
        StepView { ops: Seq::empty(), verdict: Some(found) },
    )
}

/// An info query of `slot` at its start: the dummy frame goes out first.
pub open spec fn query_opening(slot: u8) -> (InfoQuery, StepView<Option<Module>>) {
    (
        InfoQuery { slot, phase: QueryPhase::Dummy, found: None },
        StepView { ops: seq![OpView::Write(dummy_frame())], verdict: None },
    )
}

/// Whether `next` is the step that the query `q` takes on `outcome`.
///
/// A transfer that fails, or a reply that does not answer the identify
/// command, ends the query at once: no module is present, and nothing more
/// is sent to the slot. A reply that answers ends it with the module that
/// the reply tells of.
pub open spec fn query_step(
    q: InfoQuery,
    outcome: Option<Seq<u8>>,
    next: (InfoQuery, StepView<Option<Module>>),
) -> bool {
    match q.phase {
        QueryPhase::Dummy => if outcome is Some {
            next == (
                InfoQuery { phase: QueryPhase::Identify, ..q },
                StepView::<Option<Module>> { ops: identify_script(), verdict: None },
            )
        } else {
            next == query_ended(q.slot, None)
        },
        QueryPhase::Identify => match outcome {
            Some(reply) if answers(reply) => {
                &&& next.0.found matches Some(m) && tells(reply, q.slot, m)
                &&& next == query_ended(q.slot, next.0.found)
            },
            _ => next == query_ended(q.slot, None),
        },
        QueryPhase::Done => next == query_ended(q.slot, q.found),
    }
}

impl InfoQuery {
    /// Starts an info query of `slot`.
    pub fn begin(slot: u8) -> (next: (InfoQuery, Step<Option<Module>>))
        ensures
            (next.0, next.1@) == query_opening(slot),
    {
        let mut ops = no_ops();
        push_op(&mut ops, Op::Write(dummy()));
        let step = Step { ops, verdict: None };
        assert(step@.ops =~= seq![OpView::Write(dummy_frame())]);
        (InfoQuery { slot, phase: QueryPhase::Dummy, found: None }, step)
    }

    /// Takes the query one step on. `outcome` is what the last transfer read
    /// back, or `None` if it failed.
    pub fn advance(self, outcome: Option<Vec<u8>>) -> (next: (InfoQuery, Step<Option<Module>>))
        ensures
            query_step(self, read_back(outcome), (next.0, next.1@)),
    {
        match self.phase {
            QueryPhase::Dummy => {
                if outcome.is_some() {
                    let mut ops = no_ops();
                    push_reset_pulse(&mut ops);
                    push_op(&mut ops, Op::Exchange(identify()));
                    let step = Step { ops, verdict: None };
                    assert(step@.ops =~= identify_script());
                    (
                        InfoQuery {
                            slot: self.slot,
                            phase: QueryPhase::Identify,
                            found: self.found,
                        },
                        step,
                    )
                } else {
                    (
                        InfoQuery { slot: self.slot, phase: QueryPhase::Done, found: None },
                        Step { ops: no_ops(), verdict: Some(None) },
                    )
                }
            },
            QueryPhase::Identify => {
                let found = match &outcome {
                    Some(reply) => read_identity(self.slot, reply.as_slice()),
                    None => None,
                };
                (
                    InfoQuery { slot: self.slot, phase: QueryPhase::Done, found },
                    Step { ops: no_ops(), verdict: Some(found) },
                )
            },
            QueryPhase::Done => (
                InfoQuery { slot: self.slot, phase: QueryPhase::Done, found: self.found },
                Step { ops: no_ops(), verdict: Some(self.found) },
            ),
        }
    }
}

/// Where a wipe stands.
#[derive(Debug, Clone, Copy, PartialEq, Eq)]
pub enum WipePhase {
    /// The dummy frame is out.
    Dummy,
    /// The erase frame is out.
    Erase,
    /// The wipe has ended.
    Done,
}

/// A bare wipe in progress: an erase that commits the blank software
/// version, to leave a module whose upload failed in a defined state.
#[derive(Debug, Clone, Copy, PartialEq, Eq)]
pub struct Wipe {
    pub phase: WipePhase,
}

/// A wipe that has ended, with the last thing `ops` it asks for.
pub open spec fn wiped(ops: Seq<OpView>) -> (Wipe, StepView<()>) {
    (Wipe { phase: WipePhase::Done }, StepView { ops, verdict: Some(()) })
}

/// A wipe at its start: the dummy frame goes out first.
pub open spec fn wipe_opening() -> (Wipe, StepView<()>) {
    (
        Wipe { phase: WipePhase::Dummy },
        StepView { ops: seq![OpView::Write(dummy_frame())], verdict: None },
    )
}

/// One step of a wipe. A transfer that fails ends it; once the erase frame
/// is written its end is waited for, and a wait that times out is not an
/// error.
pub open spec fn wipe_step(w: Wipe, written: bool) -> (Wipe, StepView<()>) {
    match w.phase {
        WipePhase::Dummy => if written {
            (
                Wipe { phase: WipePhase::Erase },
                StepView { ops: erase_script(BLANK, BLANK, BLANK), verdict: None },
            )
        } else {
            wiped(Seq::empty())
        },
        WipePhase::Erase => if written {
            wiped(seq![OpView::Await(ERASE_TIMEOUT_MS)])
        } else {
            wiped(Seq::empty())
        },
        WipePhase::Done => wiped(Seq::empty()),
    }
}

impl Wipe {
    /// Starts a wipe: the dummy frame goes out first.
    pub fn begin() -> (next: (Wipe, Step<()>))
        ensures
            (next.0, next.1@) == wipe_opening(),
    {
        let mut ops = no_ops();
        push_op(&mut ops, Op::Write(dummy()));
        let step = Step { ops, verdict: None };
        assert(step@.ops =~= seq![OpView::Write(dummy_frame())]);
        (Wipe { phase: WipePhase::Dummy }, step)
    }

    /// Takes the wipe one step on. `written` tells whether the last transfer
    /// succeeded.
    pub fn advance(self, written: bool) -> (next: (Wipe, Step<()>))
        ensures
            (next.0, next.1@) == wipe_step(self, written),
    {
        match self.phase {
            WipePhase::Dummy => {
                if written {
                    (
                        Wipe { phase: WipePhase::Erase },
                        Step { ops: erase_ops(BLANK, BLANK, BLANK), verdict: None },
                    )
                } else {
                    (Wipe { phase: WipePhase::Done }, Step { ops: no_ops(), verdict: Some(()) })
                }
            },
            WipePhase::Erase => {
                let mut ops = no_ops();
                if written {
                    push_op(&mut ops, Op::Await(ERASE_TIMEOUT_MS));
                    assert(ops.deep_view() =~= seq![OpView::Await(ERASE_TIMEOUT_MS)]);
                }
                (Wipe { phase: WipePhase::Done }, Step { ops, verdict: Some(()) })
            },
            WipePhase::Done => (
                Wipe { phase: WipePhase::Done },
                Step { ops: no_ops(), verdict: Some(()) },
            ),
        }
    }
}

/// The name of a kind of module, by the family and variant bytes of its
/// hardware descriptor; `None` for a kind that is not known.
pub open spec fn kind_name(family: u8, variant: u8) -> Option<Seq<char>> {
    match (family, variant) {
        (10, 1) => Some("6 Channel Input"@),
        (10, 2) => Some("10 Channel Input"@),
        (10, 3) => Some("4-20mA Input"@),
        (20, 1) => Some("2 Channel Output"@),
        (20, 2) => Some("6 Channel Output"@),
        (20, 3) => Some("10 Channel Output"@),
        (30, 3) => Some("ANLEG IR"@),
        (40, 1) => Some("ANLEG RTC Control"@),
        _ => None,
    }
}

/// One line that tells an operator what sits in a slot: for a known kind its
/// name, hardware revision and software version, for any other the firmware
/// version as it is.
pub open spec fn description(module: Module) -> Seq<char> {
    let fw = module.firmware.firmware@;
    match kind_name(fw[1], fw[2]) {
        Some(name) => "slot "@ + decimal(module.slot as nat) + ": "@ + name
            + " module version "@ + decimal(fw[3] as nat) + " sw: "@ + decimal(fw[4] as nat)
            + "."@ + decimal(fw[5] as nat) + "."@ + decimal(fw[6] as nat),
        None => "slot "@ + decimal(module.slot as nat) + ": unknown: "@ + module.firmware.text(),
    }
}

/// Names a kind of module.
pub fn module_kind(family: u8, variant: u8) -> (name: Option<&'static str>)
    ensures
        name is Some <==> kind_name(family, variant) is Some,
        name matches Some(n) ==> kind_name(family, variant) == Some(n@),
{
    match (family, variant) {
        (10, 1) => Some("6 Channel Input"),
        (10, 2) => Some("10 Channel Input"),
        (10, 3) => Some("4-20mA Input"),
        (20, 1) => Some("2 Channel Output"),
        (20, 2) => Some("6 Channel Output"),
        (20, 3) => Some("10 Channel Output"),
        (30, 3) => Some("ANLEG IR"),
        (40, 1) => Some("ANLEG RTC Control"),
        _ => None,
    }
}

impl Module {
    /// Describes the module in one line.
    pub fn describe(&self) -> (line: String)
        ensures
            line@ == description(*self),
    {
        let fw = &self.firmware.firmware;
        let mut line = String::new();
        line.append("slot ");
        push_decimal(&mut line, self.slot as u32);
        match module_kind(fw[1], fw[2]) {
            Some(name) => {
                line.append(": ");
                line.append(name);
                line.append(" module version ");
                push_decimal(&mut line, fw[3] as u32);
                line.append(" sw: ");
                push_decimal(&mut line, fw[4] as u32);
                line.append(".");
                push_decimal(&mut line, fw[5] as u32);
                line.append(".");
                push_decimal(&mut line, fw[6] as u32);
            },
            None => {
                line.append(": unknown: ");
                let version = self.firmware.as_string();
                line.append(version.as_str());
            },
        }
        assert(line@ =~= description(*self));
        line
    }
}

} // verus!
