//! The upload engine: a pipelined line streamer, written as a state machine
//! that never touches a device.
//!
//! The link is full duplex, so the reply that comes back with a frame speaks
//! of the frame before it. The engine therefore follows two lines at once:
//! the one it sends now and the one whose acknowledgement it is owed.

use vstd::prelude::*;
use crate::frame::{
    acknowledges, bootloader_present, cancel, cancel_frame, firmware_line, line_frame, probe,
    probe_frame, spec_acknowledges, spec_bootloader_present, terminal_probe,
    terminal_probe_frame, PAYLOAD_CAPACITY,
};
use crate::srec::{
    is_record, lines_of, parse_record, record_data, record_kind, split_lines, TERMINAL_RECORD,
};
use crate::transport::{
    dummy, dummy_frame, ends_in_its_transfer, erase_ops, erase_script, no_ops, push_op,
    read_back, Op, OpView, Step, StepView, ERASE_TIMEOUT_MS, LINE_TIMEOUT_MS, PROBE_TIMEOUT_MS,
    TERMINAL_SETTLE_MS,
};
use crate::version::FirmwareVersion;

verus! {

/// The number of errors in a row that an upload survives.
pub const ERROR_CAP: u8 = 10;

/// Why an upload ended without success, and in what state it left the module
/// of the slot it names.
#[derive(Debug, Clone, Copy, PartialEq, Eq)]
pub enum UploadError {
    /// The failure came after the erase was issued: the flash is undefined.
    FirmwareCorrupted(u8),
    /// The failure came before the erase was issued: the module is as it was.
    FirmwareUntouched(u8),
}

impl UploadError {
    /// Whether the module has to be wiped before anything else is done with
    /// it.
    pub fn needs_wipe(&self) -> (wipe: bool)
        ensures
            wipe == (*self is FirmwareCorrupted),
    {
        match self {
            UploadError::FirmwareCorrupted(_) => true,
            UploadError::FirmwareUntouched(_) => false,
        }
    }
}

/// How an upload ends.
pub type Verdict = Result<(), UploadError>;

/// The two lines an upload follows, and its count of errors.
#[derive(Debug, Clone, Copy, PartialEq, Eq)]
pub struct Cursor {
    /// The line that is sent next.
    pub line_number: usize,
    /// The line whose acknowledgement the next reply is to carry;
    /// `usize::MAX` until the first frame is out.
    pub line_check: usize,
    /// Errors in a row.
    pub err_count: u8,
    /// The record type of the line that is sent; 0 after an error.
    pub message_type: u8,
}

impl Cursor {
    /// Before the first frame: line 0 is next, and no acknowledgement is owed.
    pub open spec fn spec_start() -> Cursor {
        Cursor { line_number: 0, line_check: usize::MAX, err_count: 0, message_type: 0 }
    }

    /// After the first frame, whose reply can speak of nothing: the next line
    /// is sent, and line 0 is owed.
    pub open spec fn spec_first(self) -> Cursor {
        Cursor { line_number: (self.line_number + 1) as usize, line_check: 0, ..self }
    }

    /// After an error: the two lines change places, so that the line owed is
    /// sent again and the line just sent is owed.
    pub open spec fn spec_reject(self) -> Cursor {
        Cursor {
            line_number: self.line_check,
            line_check: self.line_number,
            err_count: (self.err_count + 1) as u8,
            message_type: 0,
        }
    }

    /// After an acknowledgement. With an odd count of errors the two lines
    /// change places back; with an even count the line just sent becomes the
    /// line owed. Then, unless the terminal record was sent, the line after
    /// is next and the count of errors starts again.
    pub open spec fn spec_accept(self) -> Cursor {
        let swapped = self.err_count % 2 == 1;
        let sent = if swapped {
            self.line_check
        } else {
            self.line_number
        };
        let owed = self.line_number;
        if self.message_type == TERMINAL_RECORD {
            Cursor { line_number: sent, line_check: owed, ..self }
        } else {
            Cursor {
                line_number: (sent + 1) as usize,
                line_check: owed,
                err_count: 0,
                message_type: self.message_type,
            }
        }
    }

    /// The cursor of an upload that has sent nothing.
    pub fn start() -> (cursor: Cursor)
        ensures
            cursor == Cursor::spec_start(),
    {
        Cursor { line_number: 0, line_check: usize::MAX, err_count: 0, message_type: 0 }
    }

    /// The cursor after the first frame.
    pub fn first(self) -> (cursor: Cursor)
        requires
            self.line_number < usize::MAX,
        ensures
            cursor == self.spec_first(),
    {
        Cursor {
            line_number: self.line_number + 1,
            line_check: 0,
            err_count: self.err_count,
            message_type: self.message_type,
        }
    }

    /// The cursor after an error.
    pub fn reject(self) -> (cursor: Cursor)
        requires
            self.err_count < u8::MAX,
        ensures
            cursor == self.spec_reject(),
    {
        Cursor {
            line_number: self.line_check,
            line_check: self.line_number,
            err_count: self.err_count + 1,
            message_type: 0,
        }
    }

    /// The cursor after an acknowledgement.
    pub fn accept(self) -> (cursor: Cursor)
        requires
            self.line_number < usize::MAX,
            self.line_check < usize::MAX,
        ensures
            cursor == self.spec_accept(),
    {
        let swapped = self.err_count % 2 == 1;
        let sent = if swapped {
            self.line_check
        } else {
            self.line_number
        };
        let owed = self.line_number;
        if self.message_type == TERMINAL_RECORD {
            Cursor {
                line_number: sent,
                line_check: owed,
                err_count: self.err_count,
                message_type: self.message_type,
            }
        } else {
            Cursor {
                line_number: sent + 1,
                line_check: owed,
                err_count: 0,
                message_type: self.message_type,
            }
        }
    }
}

/// Where an upload stands: which transfer it has handed out and waits to
/// hear of, or how it ended.
#[derive(Debug, Clone, Copy, PartialEq, Eq)]
pub enum Phase {
    /// The dummy frame is out.
    Dummy,
    /// The erase frame is out.
    Erase,
    /// A firmware line is out.
    Line,
    /// A status probe is out, in place of the terminal record.
    Probe,
    /// The probe that follows the terminal record is out.
    Terminal,
    /// The upload succeeded.
    Done,
    /// The upload failed.
    Failed(UploadError),
}

/// An upload as the contracts see it.
pub struct UploadView {
    pub slot: u8,
    pub software: Seq<u8>,
    pub lines: Seq<Seq<u8>>,
    pub cursor: Cursor,
    pub phase: Phase,
}

/// Whether `text` holds a record that one frame can carry: the line index,
/// the record type and the record's bytes fit the payload.
pub open spec fn sendable(text: Seq<u8>) -> bool {
    is_record(text) && 3 + record_data(text).len() <= PAYLOAD_CAPACITY
}

/// The record type of a line that holds a record.
pub open spec fn kind_of(text: Seq<u8>) -> u8 {
    record_kind(text).unwrap()
}

/// Whether the transfer gave a reply that acknowledges `line`. A transfer
/// that failed acknowledges nothing.
pub open spec fn acked(outcome: Option<Seq<u8>>, line: usize) -> bool {
    outcome matches Some(reply) && spec_acknowledges(reply, line)
}

/// Whether the transfer gave a reply that only the bootloader gives.
pub open spec fn confirmed(outcome: Option<Seq<u8>>) -> bool {
    outcome matches Some(reply) && spec_bootloader_present(reply)
}

/// The upload of `lines` to `slot` before anything is sent.
pub open spec fn initial(slot: u8, software: Seq<u8>, lines: Seq<Seq<u8>>) -> UploadView {
    UploadView { slot, software, lines, cursor: Cursor::spec_start(), phase: Phase::Dummy }
}

/// The first script of an upload: the dummy frame.
pub open spec fn opening() -> StepView<Verdict> {
    StepView { ops: seq![OpView::Write(dummy_frame())], verdict: None }
}

/// The upload ends in failure; nothing more is sent.
pub open spec fn halt(u: UploadView, c: Cursor, err: UploadError) -> (UploadView, StepView<
    Verdict,
>) {
    (
        UploadView { cursor: c, phase: Phase::Failed(err), ..u },
        StepView { ops: Seq::empty(), verdict: Some(Err(err)) },
    )
}

/// After `wait`, the line at `c.line_number` is sent. Where the image has no
/// such line, or the line holds no record that a frame can carry, the upload
/// cannot go on and the flash is left undefined.
pub open spec fn send_line(u: UploadView, c: Cursor, wait: Seq<OpView>) -> (UploadView, StepView<
    Verdict,
>) {
    if c.line_number < u.lines.len() && sendable(u.lines[c.line_number as int]) {
        let text = u.lines[c.line_number as int];
        (
            UploadView { cursor: Cursor { message_type: kind_of(text), ..c }, phase: Phase::Line, ..u },
            StepView {
                ops: wait + seq![
                    OpView::Arm,
                    OpView::Exchange(line_frame(c.line_number, kind_of(text), record_data(text))),
                ],
                verdict: None,
            },
        )
    } else {
        halt(u, c, UploadError::FirmwareCorrupted(u.slot))
    }
}

/// After `wait`, the upload goes on from `c`. The terminal record is not sent
/// while another line is owed: its acknowledgement would come when the
/// module has left the bootloader, too late to send anything again. A status
/// probe goes out in its place.
pub open spec fn emit(u: UploadView, c: Cursor, wait: Seq<OpView>) -> (UploadView, StepView<
    Verdict,
>) {
    if c.line_number < u.lines.len() && sendable(u.lines[c.line_number as int]) && kind_of(
        u.lines[c.line_number as int],
    ) == TERMINAL_RECORD && c.line_check != c.line_number {
        (
            UploadView {
                cursor: Cursor { message_type: TERMINAL_RECORD, ..c },
                phase: Phase::Probe,
                ..u
            },
            StepView {
                ops: wait + seq![OpView::Arm, OpView::Exchange(probe_frame())],
                verdict: None,
            },
        )
    } else {
        send_line(u, c, wait)
    }
}

/// An error is counted. Past the cap the upload fails; below it the upload
/// goes on with the two lines exchanged.
pub open spec fn retry(u: UploadView, wait: Seq<OpView>) -> (UploadView, StepView<Verdict>) {
    let c = u.cursor.spec_reject();
    if c.err_count > ERROR_CAP {
        halt(u, c, UploadError::FirmwareCorrupted(u.slot))
    } else {
        emit(u, c, wait)
    }
}

/// The dummy frame was written, or not. Nothing has been erased yet.
pub open spec fn after_dummy(u: UploadView, outcome: Option<Seq<u8>>) -> (UploadView, StepView<
    Verdict,
>) {
    if outcome is Some {
        (
            UploadView { phase: Phase::Erase, ..u },
            StepView { ops: erase_script(u.software[0], u.software[1], u.software[2]), verdict: None },
        )
    } else {
        halt(u, u.cursor, UploadError::FirmwareUntouched(u.slot))
    }
}

/// The erase frame was written, or not. If it was not, nothing has been
/// erased; if it was, the end of the erase is waited for and line 0 follows.
pub open spec fn after_erase(u: UploadView, outcome: Option<Seq<u8>>) -> (UploadView, StepView<
    Verdict,
>) {
    if outcome is Some {
        emit(u, u.cursor, seq![OpView::Await(ERASE_TIMEOUT_MS)])
    } else {
        halt(u, u.cursor, UploadError::FirmwareUntouched(u.slot))
    }
}

/// A firmware line was exchanged. The reply to the first frame is discarded
/// whatever it holds. Any other reply must acknowledge the line owed. After
/// the terminal record is acknowledged the module is left to settle and then
/// probed at 61 bytes.
pub open spec fn after_line(u: UploadView, outcome: Option<Seq<u8>>) -> (UploadView, StepView<
    Verdict,
>) {
    let c = u.cursor;
    let wait = seq![OpView::Await(LINE_TIMEOUT_MS)];
    if c.line_check == usize::MAX {
        emit(u, c.spec_first(), wait)
    } else if acked(outcome, c.line_check) {
        if c.message_type == TERMINAL_RECORD {
            (
                UploadView { cursor: c.spec_accept(), phase: Phase::Terminal, ..u },
                StepView {
                    ops: seq![
                        OpView::Sleep(TERMINAL_SETTLE_MS),
                        OpView::Exchange(terminal_probe_frame()),
                    ],
                    verdict: None,
                },
            )
        } else {
            emit(u, c.spec_accept(), wait)
        }
    } else {
        retry(u, wait)
    }
}

/// The status probe sent in place of the terminal record was exchanged. If
/// its reply acknowledges the line owed, the terminal record follows.
pub open spec fn after_probe(u: UploadView, outcome: Option<Seq<u8>>) -> (UploadView, StepView<
    Verdict,
>) {
    let wait = seq![OpView::Await(PROBE_TIMEOUT_MS)];
    if acked(outcome, u.cursor.line_check) {
        send_line(u, u.cursor, wait)
    } else {
        retry(u, wait)
    }
}

/// The probe after the terminal record was exchanged. If the bootloader
/// answered, the upload is complete and the module is told to leave the
/// bootloader. An answer from anything else, or a transfer that failed,
/// counts as an error like any other, and the terminal record is sent again.
pub open spec fn after_terminal(u: UploadView, outcome: Option<Seq<u8>>) -> (UploadView, StepView<
    Verdict,
>) {
    if confirmed(outcome) {
        (
            UploadView { phase: Phase::Done, ..u },
            StepView {
                ops: seq![OpView::Await(LINE_TIMEOUT_MS), OpView::Write(cancel_frame())],
                verdict: Some(Ok(())),
            },
        )
    } else {
        retry(u, seq![OpView::Await(LINE_TIMEOUT_MS)])
    }
}

/// One step of an upload: where it stands after `outcome`, and what it asks
/// of the host next. `outcome` is what the last transfer read back, or `None`
/// if the transfer failed.
pub open spec fn spec_advance(u: UploadView, outcome: Option<Seq<u8>>) -> (UploadView, StepView<
    Verdict,
>) {
    match u.phase {
        Phase::Dummy => after_dummy(u, outcome),
        Phase::Erase => after_erase(u, outcome),
        Phase::Line => after_line(u, outcome),
        Phase::Probe => after_probe(u, outcome),
        Phase::Terminal => after_terminal(u, outcome),
        Phase::Done => (u, StepView { ops: Seq::empty(), verdict: Some(Ok(())) }),
        Phase::Failed(err) => (u, StepView { ops: Seq::empty(), verdict: Some(Err(err)) }),
    }
}

/// An upload in progress: the image, the slot and software version it is
/// for, and how far it has come.
pub struct Upload {
    slot: u8,
    sw0: u8,
    sw1: u8,
    sw2: u8,
    lines: Vec<Vec<u8>>,
    cursor: Cursor,
    phase: Phase,
}

impl View for Upload {
    type V = UploadView;

    closed spec fn view(&self) -> UploadView {
        UploadView {
            slot: self.slot,
            software: seq![self.sw0, self.sw1, self.sw2],
            lines: self.lines.deep_view(),
            cursor: self.cursor,
            phase: self.phase,
        }
    }
}

impl Upload {
    /// The image has more than one line. Until the erase is written the
    /// cursor is at its start. While a frame of the image or a probe is out,
    /// both lines that the cursor follows lie in the image and the count of
    /// errors is within the cap.
    #[verifier::type_invariant]
    spec fn inv(self) -> bool {
        &&& self.lines@.len() > 1
        &&& (self.phase is Dummy || self.phase is Erase) ==> self.cursor == Cursor::spec_start()
        &&& (self.phase is Line || self.phase is Probe || self.phase is Terminal) ==> {
            &&& self.cursor.line_number < self.lines@.len()
            &&& (self.cursor.line_check == usize::MAX || self.cursor.line_check
                < self.lines@.len())
            &&& self.cursor.err_count <= ERROR_CAP
        }
    }

    /// Starts an upload of `image` to the module in `slot`, to commit the
    /// software version of `new_firmware`. `image` is the content of the
    /// firmware file, or `None` where the file could not be read.
    ///
    /// An image that could not be read, or that has one line or none, is
    /// refused before anything is sent: no erase is ever issued for it. A
    /// line feed at the end of the image ends its last line and counts for
    /// no line of its own.
    pub fn begin(slot: u8, new_firmware: &FirmwareVersion, image: Option<Vec<u8>>) -> (started:
        Result<(Upload, Step<Verdict>), UploadError>)
        ensures
            match read_back(image) {
                Some(text) if lines_of(text).len() > 1 => started matches Ok((upload, step))
                    && upload@ == initial(slot, new_firmware.software(), lines_of(text)) && step@
                    == opening(),
                _ => started == Err::<(Upload, Step<Verdict>), UploadError>(
                    UploadError::FirmwareUntouched(slot),
                ),
            },
    {
        let text = match image {
            Some(text) => text,
            None => {
                return Err(UploadError::FirmwareUntouched(slot));
            },
        };
        let lines = split_lines(text.as_slice());
        if lines.len() <= 1 {
            return Err(UploadError::FirmwareUntouched(slot));
        }
        let software = new_firmware.get_software();
        let upload = Upload {
            slot,
            sw0: software[0],
            sw1: software[1],
            sw2: software[2],
            lines,
            cursor: Cursor::start(),
            phase: Phase::Dummy,
        };
        let mut ops = no_ops();
        push_op(&mut ops, Op::Write(dummy()));
        let step = Step { ops, verdict: None };
        proof {
            assert(upload@.software =~= new_firmware.software());
            assert(step@.ops =~= opening().ops);
        }
        Ok((upload, step))
    }

    /// The slot of the module that the upload is for.
    pub fn slot(&self) -> (slot: u8)
        ensures
            slot == self@.slot,
    {
        self.slot
    }

    /// The two lines the upload follows, and its count of errors.
    pub fn cursor(&self) -> (cursor: Cursor)
        ensures
            cursor == self@.cursor,
    {
        self.cursor
    }

    /// The number of lines of the image; a line feed at its end opens none.
    /// No upload exists for an image of one line or none, so nothing is ever
    /// erased for such an image.
    pub fn line_count(&self) -> (count: usize)
        ensures
            count == self@.lines.len(),
            count > 1,
    {
        proof {
            use_type_invariant(self);
        }
        self.lines.len()
    }

    /// Where the upload stands.
    pub fn phase(&self) -> (phase: Phase)
        ensures
            phase == self@.phase,
    {
        self.phase
    }

    fn halt(self, c: Cursor, err: UploadError) -> (next: (Upload, Step<Verdict>))
        ensures
            (next.0@, next.1@) == halt(self@, c, err),
    {
        proof {
            use_type_invariant(&self);
        }
        let Upload { slot, sw0, sw1, sw2, lines, cursor: _, phase: _ } = self;
        let upload = Upload { slot, sw0, sw1, sw2, lines, cursor: c, phase: Phase::Failed(err) };
        (upload, Step { ops: no_ops(), verdict: Some(Err(err)) })
    }

    fn send_line(self, c: Cursor, wait: Vec<Op>) -> (next: (Upload, Step<Verdict>))
        requires
            c.line_check == usize::MAX || c.line_check < self@.lines.len(),
            c.err_count <= ERROR_CAP,
        ensures
            (next.0@, next.1@) == send_line(self@, c, wait.deep_view()),
    {
        proof {
            use_type_invariant(&self);
        }
        if c.line_number < self.lines.len() {
            let ghost text = self@.lines[c.line_number as int];
            assert(self.lines@[c.line_number as int]@ =~= text);
            match parse_record(self.lines[c.line_number].as_slice()) {
                Some(record) => {
                    if 3 + record.data.len() <= PAYLOAD_CAPACITY {
                        let frame = firmware_line(
                            c.line_number,
                            record.kind,
                            record.data.as_slice(),
                        );
                        let mut ops = wait;
                        push_op(&mut ops, Op::Arm);
                        push_op(&mut ops, Op::Exchange(frame));
                        let Upload { slot, sw0, sw1, sw2, lines, cursor: _, phase: _ } = self;
                        let upload = Upload {
                            slot,
                            sw0,
                            sw1,
                            sw2,
                            lines,
                            cursor: Cursor {
                                line_number: c.line_number,
                                line_check: c.line_check,
                                err_count: c.err_count,
                                message_type: record.kind,
                            },
                            phase: Phase::Line,
                        };
                        let step = Step { ops, verdict: None };
                        proof {
                            assert(step@.ops =~= send_line(self@, c, wait.deep_view()).1.ops);
                        }
                        return (upload, step);
                    }
                },
                None => {},
            }
        }
        let slot = self.slot;
        self.halt(c, UploadError::FirmwareCorrupted(slot))
    }

    fn emit(self, c: Cursor, wait: Vec<Op>) -> (next: (Upload, Step<Verdict>))
        requires
            c.line_check == usize::MAX || c.line_check < self@.lines.len(),
            c.err_count <= ERROR_CAP,
        ensures
            (next.0@, next.1@) == emit(self@, c, wait.deep_view()),
    {
        proof {
            use_type_invariant(&self);
        }
        if c.line_number < self.lines.len() && c.line_check != c.line_number {
            let ghost text = self@.lines[c.line_number as int];
            assert(self.lines@[c.line_number as int]@ =~= text);
            match parse_record(self.lines[c.line_number].as_slice()) {
                Some(record) => {
                    if 3 + record.data.len() <= PAYLOAD_CAPACITY && record.kind
                        == TERMINAL_RECORD {
                        let mut ops = wait;
                        push_op(&mut ops, Op::Arm);
                        push_op(&mut ops, Op::Exchange(probe()));
                        let Upload { slot, sw0, sw1, sw2, lines, cursor: _, phase: _ } = self;
                        let upload = Upload {
                            slot,
                            sw0,
                            sw1,
                            sw2,
                            lines,
                            cursor: Cursor {
                                line_number: c.line_number,
                                line_check: c.line_check,
                                err_count: c.err_count,
                                message_type: TERMINAL_RECORD,
                            },
                            phase: Phase::Probe,
                        };
                        let step = Step { ops, verdict: None };
                        proof {
                            assert(step@.ops =~= emit(self@, c, wait.deep_view()).1.ops);
                        }
                        return (upload, step);
                    }
                },
                None => {},
            }
        }
        self.send_line(c, wait)
    }

    fn retry(self, wait: Vec<Op>) -> (next: (Upload, Step<Verdict>))
        requires
            self@.phase is Line || self@.phase is Probe || self@.phase is Terminal,
        ensures
            (next.0@, next.1@) == retry(self@, wait.deep_view()),
    {
        proof {
            use_type_invariant(&self);
        }
        let c = self.cursor.reject();
        if c.err_count > ERROR_CAP {
            let slot = self.slot;
            self.halt(c, UploadError::FirmwareCorrupted(slot))
        } else {
            self.emit(c, wait)
        }
    }

    fn after_dummy(self, written: bool) -> (next: (Upload, Step<Verdict>))
        requires
            self@.phase is Dummy,
        ensures
            (next.0@, next.1@) == after_dummy(
                self@,
                if written {
                    Some(Seq::empty())
                } else {
                    None
                },
            ),
    {
        proof {
            use_type_invariant(&self);
        }
        if written {
            let ops = erase_ops(self.sw0, self.sw1, self.sw2);
            let Upload { slot, sw0, sw1, sw2, lines, cursor, phase: _ } = self;
            let upload = Upload { slot, sw0, sw1, sw2, lines, cursor, phase: Phase::Erase };
            (upload, Step { ops, verdict: None })
        } else {
            let slot = self.slot;
            let c = self.cursor;
            self.halt(c, UploadError::FirmwareUntouched(slot))
        }
    }

    fn after_erase(self, written: bool) -> (next: (Upload, Step<Verdict>))
        requires
            self@.phase is Erase,
        ensures
            (next.0@, next.1@) == after_erase(
                self@,
                if written {
                    Some(Seq::empty())
                } else {
                    None
                },
            ),
    {
        proof {
            use_type_invariant(&self);
        }
        let c = self.cursor;
        if written {
            let mut wait = no_ops();
            push_op(&mut wait, Op::Await(ERASE_TIMEOUT_MS));
            assert(wait.deep_view() =~= seq![OpView::Await(ERASE_TIMEOUT_MS)]);
            self.emit(c, wait)
        } else {
            let slot = self.slot;
            self.halt(c, UploadError::FirmwareUntouched(slot))
        }
    }

    fn after_line(self, outcome: Option<Vec<u8>>) -> (next: (Upload, Step<Verdict>))
        requires
            self@.phase is Line,
        ensures
            (next.0@, next.1@) == after_line(self@, read_back(outcome)),
    {
        proof {
            use_type_invariant(&self);
        }
        let c = self.cursor;
        let count: usize = self.lines.len();
        assert(c.line_number < count);
        let mut wait = no_ops();
        push_op(&mut wait, Op::Await(LINE_TIMEOUT_MS));
        assert(wait.deep_view() =~= seq![OpView::Await(LINE_TIMEOUT_MS)]);
        if c.line_check == usize::MAX {
            return self.emit(c.first(), wait);
        }
        let acknowledged = match &outcome {
            Some(reply) => acknowledges(reply.as_slice(), c.line_check),
            None => false,
        };
        if !acknowledged {
            return self.retry(wait);
        }
        if c.message_type == TERMINAL_RECORD {
            let mut ops = no_ops();
            push_op(&mut ops, Op::Sleep(TERMINAL_SETTLE_MS));
            push_op(&mut ops, Op::Exchange(terminal_probe()));
            let Upload { slot, sw0, sw1, sw2, lines, cursor: _, phase: _ } = self;
            let upload = Upload {
                slot,
                sw0,
                sw1,
                sw2,
                lines,
                cursor: c.accept(),
                phase: Phase::Terminal,
            };
            let step = Step { ops, verdict: None };
            proof {
                assert(step@.ops =~= after_line(self@, read_back(outcome)).1.ops);
            }
            (upload, step)
        } else {
            self.emit(c.accept(), wait)
        }
    }

    fn after_probe(self, outcome: Option<Vec<u8>>) -> (next: (Upload, Step<Verdict>))
        requires
            self@.phase is Probe,
        ensures
            (next.0@, next.1@) == after_probe(self@, read_back(outcome)),
    {
        proof {
            use_type_invariant(&self);
        }
        let c = self.cursor;
        let mut wait = no_ops();
        push_op(&mut wait, Op::Await(PROBE_TIMEOUT_MS));
        assert(wait.deep_view() =~= seq![OpView::Await(PROBE_TIMEOUT_MS)]);
        let acknowledged = match &outcome {
            Some(reply) => acknowledges(reply.as_slice(), c.line_check),
            None => false,
        };
        if acknowledged {
            self.send_line(c, wait)
        } else {
            self.retry(wait)
        }
    }

    fn after_terminal(self, outcome: Option<Vec<u8>>) -> (next: (Upload, Step<Verdict>))
        requires
            self@.phase is Terminal,
        ensures
            (next.0@, next.1@) == after_terminal(self@, read_back(outcome)),
    {
        proof {
            use_type_invariant(&self);
        }
        let mut ops = no_ops();
        push_op(&mut ops, Op::Await(LINE_TIMEOUT_MS));
        let answered = match &outcome {
            Some(reply) => bootloader_present(reply.as_slice()),
            None => false,
        };
        if answered {
            push_op(&mut ops, Op::Write(cancel()));
            let Upload { slot, sw0, sw1, sw2, lines, cursor, phase: _ } = self;
            let upload = Upload { slot, sw0, sw1, sw2, lines, cursor, phase: Phase::Done };
            let step = Step { ops, verdict: Some(Ok(())) };
            proof {
                assert(step@.ops =~= after_terminal(self@, read_back(outcome)).1.ops);
            }
            (upload, step)
        } else {
            assert(ops.deep_view() =~= seq![OpView::Await(LINE_TIMEOUT_MS)]);
            self.retry(ops)
        }
    }

    /// Takes the upload one step on. `outcome` is what the last transfer of
    /// the script handed out before read back, or `None` if that transfer
    /// failed; for a transfer that reads nothing back, any bytes.
    ///
    /// The upload that comes back has taken the step, and the step tells the
    /// host what to do next. Once a verdict is given the upload has ended,
    /// and every later step repeats the verdict and asks for nothing.
    pub fn advance(self, outcome: Option<Vec<u8>>) -> (next: (Upload, Step<Verdict>))
        ensures
            (next.0@, next.1@) == spec_advance(self@, read_back(outcome)),
    {
        match self.phase {
            Phase::Dummy => self.after_dummy(outcome.is_some()),
            Phase::Erase => self.after_erase(outcome.is_some()),
            Phase::Line => self.after_line(outcome),
            Phase::Probe => self.after_probe(outcome),
            Phase::Terminal => self.after_terminal(outcome),
            Phase::Done => (self, Step { ops: no_ops(), verdict: Some(Ok(())) }),
            Phase::Failed(err) => (self, Step { ops: no_ops(), verdict: Some(Err(err)) }),
        }
    }
}

/// The upload after each of `outcomes` in turn.
pub open spec fn run(u: UploadView, outcomes: Seq<Option<Seq<u8>>>) -> UploadView
    decreases outcomes.len(),
{
    if outcomes.len() == 0 {
        u
    } else {
        spec_advance(run(u, outcomes.drop_last()), outcomes.last()).0
    }
}

/// Whether, at `u`, `outcome` is taken as the acknowledgement of the line
/// owed.
pub open spec fn takes_acknowledgement(u: UploadView, outcome: Option<Seq<u8>>) -> bool {
    &&& u.phase is Line || u.phase is Probe
    &&& u.cursor.line_check != usize::MAX
    &&& acked(outcome, u.cursor.line_check)
}

/// The lines that were acknowledged while the upload took `outcomes` in
/// turn: each was the line owed when a reply with a valid checksum named it
/// and reported success.
pub open spec fn acknowledged(u: UploadView, outcomes: Seq<Option<Seq<u8>>>) -> Set<int>
    decreases outcomes.len(),
{
    if outcomes.len() == 0 {
        Set::empty()
    } else {
        let before = run(u, outcomes.drop_last());
        let earlier = acknowledged(u, outcomes.drop_last());
        if takes_acknowledgement(before, outcomes.last()) {
            earlier.insert(before.cursor.line_check as int)
        } else {
            earlier
        }
    }
}

/// The first line that the upload has not reached yet.
pub open spec fn frontier(c: Cursor) -> int {
    if c.line_check == usize::MAX || c.line_number >= c.line_check {
        c.line_number as int
    } else {
        c.line_check as int
    }
}

/// Every line below the frontier is acknowledged, but for the two that the
/// cursor follows.
pub open spec fn nothing_skipped(c: Cursor, seen: Set<int>) -> bool {
    forall|i: int|
        0 <= i < frontier(c) && i != c.line_number && i != c.line_check ==> seen.contains(i)
}

/// What holds of an upload at every step, `seen` being the lines
/// acknowledged so far.
pub open spec fn on_track(u: UploadView, seen: Set<int>) -> bool {
    let c = u.cursor;
    match u.phase {
        Phase::Failed(_) => true,
        Phase::Dummy | Phase::Erase => c == Cursor::spec_start(),
        Phase::Line | Phase::Probe => {
            &&& c.line_number < u.lines.len()
            &&& sendable(u.lines[c.line_number as int])
            &&& c.message_type == kind_of(u.lines[c.line_number as int])
            &&& c.line_check == usize::MAX ==> c.line_number == 0
            &&& c.line_check == usize::MAX || c.line_check < u.lines.len()
            &&& c.err_count <= ERROR_CAP
            &&& nothing_skipped(c, seen)
        },
        Phase::Terminal | Phase::Done => {
            &&& c.line_number < u.lines.len()
            &&& c.line_check < u.lines.len()
            &&& c.err_count <= ERROR_CAP
            &&& nothing_skipped(c, seen)
            &&& sendable(u.lines[c.line_check as int])
            &&& kind_of(u.lines[c.line_check as int]) == TERMINAL_RECORD
            &&& forall|i: int| 0 <= i < c.line_check ==> seen.contains(i)
        },
    }
}

proof fn lemma_step_stays_on_track(u: UploadView, seen: Set<int>, outcome: Option<Seq<u8>>)
    requires
        u.lines.len() <= usize::MAX,
        on_track(u, seen),
    ensures
        on_track(
            spec_advance(u, outcome).0,
            if takes_acknowledgement(u, outcome) {
                seen.insert(u.cursor.line_check as int)
            } else {
                seen
            },
        ),
        spec_advance(u, outcome).0.lines == u.lines,
{
}

/// Whatever the transfers give back, an upload never passes a line that was
/// not acknowledged. As long as it has not failed, its errors in a row are
/// within the cap, and every line below the frontier other than the two it
/// follows has been acknowledged. When it is done, the line it last held as
/// owed is the terminal record, and every line below that one has been
/// acknowledged.
pub proof fn law_no_line_is_passed_unacknowledged(
    slot: u8,
    software: Seq<u8>,
    lines: Seq<Seq<u8>>,
    outcomes: Seq<Option<Seq<u8>>>,
)
    requires
        lines.len() <= usize::MAX,
    ensures
        ({
            let start = initial(slot, software, lines);
            let end = run(start, outcomes);
            let seen = acknowledged(start, outcomes);
            &&& end.lines == lines
            &&& !(end.phase is Failed) ==> end.cursor.err_count <= ERROR_CAP && nothing_skipped(
                end.cursor,
                seen,
            )
            &&& end.phase is Done ==> {
                &&& end.cursor.line_check < lines.len()
                &&& kind_of(lines[end.cursor.line_check as int]) == TERMINAL_RECORD
                &&& forall|i: int| 0 <= i < end.cursor.line_check ==> seen.contains(i)
            }
        }),
    decreases outcomes.len(),
{
    let start = initial(slot, software, lines);
    lemma_run_stays_on_track(start, outcomes);
}

proof fn lemma_run_stays_on_track(start: UploadView, outcomes: Seq<Option<Seq<u8>>>)
    requires
        start.lines.len() <= usize::MAX,
        on_track(start, Set::empty()),
    ensures
        on_track(run(start, outcomes), acknowledged(start, outcomes)),
        run(start, outcomes).lines == start.lines,
    decreases outcomes.len(),
{
    if outcomes.len() > 0 {
        lemma_run_stays_on_track(start, outcomes.drop_last());
        lemma_step_stays_on_track(
            run(start, outcomes.drop_last()),
            acknowledged(start, outcomes.drop_last()),
            outcomes.last(),
        );
    }
}

/// Whether the erase frame is written by the time the upload `u` has taken
/// `outcome`.
pub open spec fn erase_written(u: UploadView, outcome: Option<Seq<u8>>) -> bool {
    ||| u.phase is Erase && outcome is Some
    ||| u.phase is Line
    ||| u.phase is Probe
    ||| u.phase is Terminal
}

/// An upload that fails tells the state of the flash: untouched, if the
/// erase frame was never written, and corrupted from then on. A failure
/// after the erase is never reported as harmless.
pub proof fn law_failure_tells_the_state_of_the_flash(u: UploadView, outcome: Option<Seq<u8>>)
    requires
        !(u.phase is Done),
        !(u.phase is Failed),
    ensures
        spec_advance(u, outcome).0.phase matches Phase::Failed(err) ==> err == if erase_written(
            u,
            outcome,
        ) {
            UploadError::FirmwareCorrupted(u.slot)
        } else {
            UploadError::FirmwareUntouched(u.slot)
        },
{
}

/// As long as an upload has not ended, each of its scripts holds one
/// transfer and ends with it: the host always has an outcome to report.
pub proof fn law_scripts_end_in_their_transfer(u: UploadView, outcome: Option<Seq<u8>>)
    ensures
        ends_in_its_transfer(opening().ops),
        spec_advance(u, outcome).1.verdict is None ==> ends_in_its_transfer(
            spec_advance(u, outcome).1.ops,
        ),
{
}

/// Everything that the upload asked of the host while it took `outcomes` in
/// turn, in order.
pub open spec fn asked(u: UploadView, outcomes: Seq<Option<Seq<u8>>>) -> Seq<OpView>
    decreases outcomes.len(),
{
    if outcomes.len() == 0 {
        Seq::empty()
    } else {
        asked(u, outcomes.drop_last()) + spec_advance(
            run(u, outcomes.drop_last()),
            outcomes.last(),
        ).1.ops
    }
}

/// Of the turns of two sessions that run side by side, the outcomes that
/// belong to one of them. A turn names the session that moves, `true` for
/// the first, and gives the outcome of its transfer.
pub open spec fn turns_of(turns: Seq<(bool, Option<Seq<u8>>)>, first: bool) -> Seq<
    Option<Seq<u8>>,
>
    decreases turns.len(),
{
    if turns.len() == 0 {
        Seq::empty()
    } else if turns.last().0 == first {
        turns_of(turns.drop_last(), first).push(turns.last().1)
    } else {
        turns_of(turns.drop_last(), first)
    }
}

/// Two uploads after they took `turns` in whatever order the turns came,
/// each with all that it asked of its host.
pub open spec fn run_both(a: UploadView, b: UploadView, turns: Seq<(bool, Option<Seq<u8>>)>) -> (
    (UploadView, Seq<OpView>),
    (UploadView, Seq<OpView>),
)
    decreases turns.len(),
{
    if turns.len() == 0 {
        ((a, Seq::empty()), (b, Seq::empty()))
    } else {
        let (x, y) = run_both(a, b, turns.drop_last());
        let outcome = turns.last().1;
        if turns.last().0 {
            ((spec_advance(x.0, outcome).0, x.1 + spec_advance(x.0, outcome).1.ops), y)
        } else {
            (x, (spec_advance(y.0, outcome).0, y.1 + spec_advance(y.0, outcome).1.ops))
        }
    }
}

/// Two sessions that run side by side do not disturb each other: however
/// their turns are mixed, each arrives where it would arrive alone and asks
/// of its host what it would ask alone.
pub proof fn law_sessions_do_not_disturb_each_other(
    a: UploadView,
    b: UploadView,
    turns: Seq<(bool, Option<Seq<u8>>)>,
)
    ensures
        run_both(a, b, turns).0 == (run(a, turns_of(turns, true)), asked(a, turns_of(turns, true))),
        run_both(a, b, turns).1 == (
            run(b, turns_of(turns, false)),
            asked(b, turns_of(turns, false)),
        ),
    decreases turns.len(),
{
    if turns.len() > 0 {
        law_sessions_do_not_disturb_each_other(a, b, turns.drop_last());
        let first = turns.last().0;
        let mine = turns_of(turns, first);
        assert(mine.drop_last() =~= turns_of(turns.drop_last(), first));
        assert(mine.last() == turns.last().1);
    }
}

/// Whether an image is well formed: it has at least two lines, each holds a
/// record that a frame can carry, and its last line, and no other, holds the
/// terminal record.
pub open spec fn well_formed(lines: Seq<Seq<u8>>) -> bool {
    &&& 2 <= lines.len() <= usize::MAX
    &&& forall|i: int| 0 <= i < lines.len() ==> sendable(#[trigger] lines[i])
    &&& forall|i: int|
        0 <= i < lines.len() ==> (kind_of(#[trigger] lines[i]) == TERMINAL_RECORD <==> i
            == lines.len() - 1)
}

/// Whether the upload has ended.
pub open spec fn ended(u: UploadView) -> bool {
    u.phase is Done || u.phase is Failed
}

/// Whether `outcome` is counted as an error at `u`: a line or a probe is out,
/// and the outcome is not what the engine waits for. The reply to the first
/// frame is never an error.
pub open spec fn is_error(u: UploadView, outcome: Option<Seq<u8>>) -> bool {
    match u.phase {
        Phase::Line => u.cursor.line_check != usize::MAX && !acked(outcome, u.cursor.line_check),
        Phase::Probe => !acked(outcome, u.cursor.line_check),
        Phase::Terminal => !confirmed(outcome),
        _ => false,
    }
}

/// The number of errors among `outcomes`, as the upload takes them in turn.
pub open spec fn errors(u: UploadView, outcomes: Seq<Option<Seq<u8>>>) -> nat
    decreases outcomes.len(),
{
    if outcomes.len() == 0 {
        0
    } else if is_error(run(u, outcomes.drop_last()), outcomes.last()) {
        errors(u, outcomes.drop_last()) + 1
    } else {
        errors(u, outcomes.drop_last())
    }
}

/// Whether `outcome` acknowledges the terminal record while an earlier line
/// is out again. A module that took the terminal record has left the
/// bootloader and acknowledges nothing; one that did not take it has nothing
/// to acknowledge.
pub open spec fn late_acknowledgement(u: UploadView, outcome: Option<Seq<u8>>) -> bool {
    &&& u.phase is Line
    &&& u.cursor.message_type != TERMINAL_RECORD
    &&& u.cursor.line_check == u.lines.len() - 1
    &&& acked(outcome, u.cursor.line_check)
}

/// Whether none of `outcomes` is a late acknowledgement, as the upload takes
/// them in turn.
pub open spec fn no_late_acknowledgement(u: UploadView, outcomes: Seq<Option<Seq<u8>>>) -> bool
    decreases outcomes.len(),
{
    if outcomes.len() == 0 {
        true
    } else {
        &&& no_late_acknowledgement(u, outcomes.drop_last())
        &&& !late_acknowledgement(run(u, outcomes.drop_last()), outcomes.last())
    }
}

/// What holds of an upload of a well-formed image at every step, as long as
/// no acknowledgement comes late: both lines lie in the image, they are in
/// the order that the count of errors tells, and only the cap ends it in
/// corruption.
spec fn steady(u: UploadView) -> bool {
    let c = u.cursor;
    match u.phase {
        Phase::Dummy | Phase::Erase => c == Cursor::spec_start(),
        Phase::Done => c.err_count <= ERROR_CAP,
        Phase::Failed(err) => if err is FirmwareCorrupted {
            c.err_count > ERROR_CAP
        } else {
            c.err_count <= ERROR_CAP
        },
        _ => {
            &&& c.line_number < u.lines.len()
            &&& c.err_count <= ERROR_CAP
            &&& c.line_check == usize::MAX ==> u.phase is Line && c.line_number == 0 && c.err_count == 0
            &&& c.line_check != usize::MAX ==> c.line_check < u.lines.len()
            &&& c.err_count % 2 == 0 && c.line_check != usize::MAX ==> c.line_check <= c.line_number
            &&& c.err_count % 2 == 1 ==> c.line_check >= c.line_number
            &&& u.phase is Line ==> c.message_type == kind_of(u.lines[c.line_number as int])
            &&& u.phase is Probe ==> kind_of(u.lines[c.line_number as int]) == TERMINAL_RECORD
            &&& u.phase is Terminal ==> c.line_number == c.line_check
        },
    }
}

/// A bound on the steps that an upload may still take without an error.
spec fn rank(u: UploadView) -> int {
    let c = u.cursor;
    let last = u.lines.len() - 1;
    let reached = if c.line_check == usize::MAX {
        -1
    } else {
        c.line_number + c.line_check
    };
    match u.phase {
        Phase::Dummy => 6 * last + 10,
        Phase::Erase => 6 * last + 9,
        Phase::Probe => 3 * (2 * last + 1 - reached) + 2,
        Phase::Line => 3 * (2 * last + 1 - reached) + 1,
        Phase::Terminal => 3 * (2 * last + 1 - reached),
        _ => 0,
    }
}

proof fn lemma_step_stays_steady(u: UploadView, outcome: Option<Seq<u8>>)
    requires
        well_formed(u.lines),
        steady(u),
        !late_acknowledgement(u, outcome),
    ensures
        spec_advance(u, outcome).0.lines == u.lines,
        steady(spec_advance(u, outcome).0),
        ended(u) ==> ended(spec_advance(u, outcome).0),
        !ended(u) ==> rank(u) >= 1,
        !ended(spec_advance(u, outcome).0) ==> rank(spec_advance(u, outcome).0) <= if is_error(
            u,
            outcome,
        ) {
            rank(u) + 2
        } else {
            rank(u) - 1
        },
{
    let v = spec_advance(u, outcome).0;
    let c = u.cursor;
    let last = u.lines.len() - 1;
    if u.phase is Line || u.phase is Probe || u.phase is Terminal {
        assert(sendable(u.lines[c.line_number as int]));
        if c.line_check != usize::MAX {
            assert(sendable(u.lines[c.line_check as int]));
        }
        if u.phase is Line && c.line_check != usize::MAX && acked(outcome, c.line_check)
            && c.message_type != TERMINAL_RECORD {
            let next = c.spec_accept();
            assert(c.line_number != last);
            assert(next.line_number <= last);
            assert(sendable(u.lines[next.line_number as int]));
        }
        if u.phase is Line && c.line_check == usize::MAX {
            assert(sendable(u.lines[1]));
        }
    } else if u.phase is Erase {
        assert(sendable(u.lines[0]));
        assert(kind_of(u.lines[0]) != TERMINAL_RECORD);
    }
}

proof fn lemma_run_stays_steady(start: UploadView, outcomes: Seq<Option<Seq<u8>>>)
    requires
        well_formed(start.lines),
        steady(start),
        no_late_acknowledgement(start, outcomes),
    ensures
        run(start, outcomes).lines == start.lines,
        steady(run(start, outcomes)),
        !ended(run(start, outcomes)) ==> 1 <= rank(run(start, outcomes)) && rank(
            run(start, outcomes),
        ) + outcomes.len() <= rank(start) + 3 * errors(start, outcomes),
    decreases outcomes.len(),
{
    if outcomes.len() > 0 {
        let before = run(start, outcomes.drop_last());
        lemma_run_stays_steady(start, outcomes.drop_last());
        lemma_step_stays_steady(before, outcomes.last());
        let after = run(start, outcomes);
        if !ended(after) {
            lemma_step_stays_steady(after, None);
        }
    } else if !ended(start) {
        lemma_step_stays_steady(start, None);
    }
}

/// On a well-formed image, and as long as no acknowledgement comes late, the
/// cap is the only thing that ends an upload in corruption: it reports
/// corrupted firmware if and only if its errors in a row have passed the
/// cap, and it never leaves the lines of the image.
pub proof fn law_only_the_cap_corrupts(
    slot: u8,
    software: Seq<u8>,
    lines: Seq<Seq<u8>>,
    outcomes: Seq<Option<Seq<u8>>>,
)
    requires
        well_formed(lines),
        no_late_acknowledgement(initial(slot, software, lines), outcomes),
    ensures
        ({
            let end = run(initial(slot, software, lines), outcomes);
            &&& end.phase == Phase::Failed(UploadError::FirmwareCorrupted(slot))
                <==> end.cursor.err_count > ERROR_CAP
            &&& end.phase matches Phase::Failed(err) ==> err == UploadError::FirmwareCorrupted(slot)
                || err == UploadError::FirmwareUntouched(slot)
        }),
{
    let start = initial(slot, software, lines);
    lemma_run_stays_steady(start, outcomes);
    lemma_run_keeps_slot(start, outcomes);
}

proof fn lemma_run_keeps_slot(start: UploadView, outcomes: Seq<Option<Seq<u8>>>)
    requires
        !(start.phase is Failed),
    ensures
        run(start, outcomes).slot == start.slot,
        run(start, outcomes).phase matches Phase::Failed(err) ==> err
            == UploadError::FirmwareCorrupted(start.slot) || err == UploadError::FirmwareUntouched(
            start.slot,
        ),
    decreases outcomes.len(),
{
    if outcomes.len() > 0 {
        lemma_run_keeps_slot(start, outcomes.drop_last());
    }
}

/// The host's loop ends. On a well-formed image, and as long as no
/// acknowledgement comes late, an upload has ended once it has taken more
/// steps than six for each line, four more, and three for each error: so it
/// ends whenever only finitely many outcomes are errors.
pub proof fn law_upload_ends(
    slot: u8,
    software: Seq<u8>,
    lines: Seq<Seq<u8>>,
    outcomes: Seq<Option<Seq<u8>>>,
)
    requires
        well_formed(lines),
        no_late_acknowledgement(initial(slot, software, lines), outcomes),
        outcomes.len() > 6 * lines.len() + 4 + 3 * errors(initial(slot, software, lines), outcomes),
    ensures
        ended(run(initial(slot, software, lines), outcomes)),
{
    lemma_run_stays_steady(initial(slot, software, lines), outcomes);
}

} // verus!
