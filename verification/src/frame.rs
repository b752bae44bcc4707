//! The boot frame codec: fixed 46-byte frames closed by an 8-bit checksum,
//! the frames of each command, and the reading of replies.

use vstd::prelude::*;

verus! {

/// Length of a boot frame on the wire.
pub const BOOTMESSAGE_LENGTH: usize = 46;

/// Length at which the reply to the probe that follows the terminal record is
/// examined: by then the application may answer, with a longer frame.
pub const BOOTMESSAGE_LENGTH_CHECK: usize = 61;

/// Index of the first payload byte of a boot frame.
pub const PAYLOAD_OFFSET: usize = 6;

/// Number of payload bytes a boot frame carries (bytes 6 to 44).
pub const PAYLOAD_CAPACITY: usize = 39;

/// Command: identify the module.
pub const CMD_IDENTIFY: u8 = 9;

/// Command: cancel the upload and return to the application.
pub const CMD_CANCEL: u8 = 19;

/// Command: erase the flash and set the software version to come.
pub const CMD_ERASE: u8 = 29;

/// Command: one line of firmware.
pub const CMD_LINE: u8 = 39;

/// Command: status probe.
pub const CMD_PROBE: u8 = 49;

/// Byte 6 of a probe reply that only the bootloader gives.
pub const BOOTLOADER_PRESENT: u8 = 20;

/// Sum of the bytes of `s`, without wrapping.
pub open spec fn byte_sum(s: Seq<u8>) -> nat
    decreases s.len(),
{
    if s.len() == 0 {
        0
    } else {
        byte_sum(s.drop_last()) + s.last() as nat
    }
}

/// The 8-bit checksum of `s`: the sum of its bytes modulo 256.
pub open spec fn checksum(s: Seq<u8>) -> u8 {
    (byte_sum(s) % 256) as u8
}

/// The part of `buffer` that a frame carries: its first 39 bytes.
pub open spec fn payload_of(buffer: Seq<u8>) -> Seq<u8> {
    if buffer.len() <= PAYLOAD_CAPACITY {
        buffer
    } else {
        buffer.take(PAYLOAD_CAPACITY as int)
    }
}

/// Bytes 0 to 44 of the frame for `cmd`: the command at 0 and 2, the length
/// minus one at 1, zeros at 3 to 5, then `payload` and zeros after it.
pub open spec fn frame_body(cmd: u8, payload: Seq<u8>) -> Seq<u8> {
    Seq::new(
        45,
        |i: int|
            if i == 0 || i == 2 {
                cmd
            } else if i == 1 {
                45u8
            } else if PAYLOAD_OFFSET <= i < PAYLOAD_OFFSET + payload.len() {
                payload[i - PAYLOAD_OFFSET]
            } else {
                0u8
            },
    )
}

/// The boot frame for `cmd` with the payload taken from `buffer`.
pub open spec fn spec_build(cmd: u8, buffer: Seq<u8>) -> Seq<u8> {
    let body = frame_body(cmd, payload_of(buffer));
    body.push(checksum(body))
}

/// Whether `frame` holds at least 46 bytes and byte 45 is the checksum of
/// the 45 before it.
pub open spec fn spec_validate(frame: Seq<u8>) -> bool {
    frame.len() >= BOOTMESSAGE_LENGTH && frame[45] == checksum(frame.take(45))
}

/// The index of a line as the wire carries it: two bytes, high byte first,
/// of the index modulo 65536.
pub open spec fn wire_index(line: usize) -> Seq<u8> {
    seq![((line / 256) % 256) as u8, (line % 256) as u8]
}

/// The number that two bytes hold, high byte first.
pub open spec fn be_u16(hi: u8, lo: u8) -> int {
    hi * 256 + lo
}

/// The number that the four bytes of `s` from `at` on hold, high byte first.
pub open spec fn be_u32(s: Seq<u8>, at: int) -> int {
    s[at] * 16777216 + s[at + 1] * 65536 + s[at + 2] * 256 + s[at + 3]
}

/// The frame that asks a module to identify itself.
pub open spec fn identify_frame() -> Seq<u8> {
    spec_build(CMD_IDENTIFY, Seq::empty())
}

/// The frame that ends an upload and returns the module to its application.
pub open spec fn cancel_frame() -> Seq<u8> {
    spec_build(CMD_CANCEL, Seq::empty())
}

/// The frame that erases the flash and commits the software version
/// `(sw0, sw1, sw2)`; `(255, 255, 255)` erases only.
pub open spec fn erase_frame(sw0: u8, sw1: u8, sw2: u8) -> Seq<u8> {
    spec_build(CMD_ERASE, seq![sw0, sw1, sw2])
}

/// The frame that asks for the status of the line sent last.
pub open spec fn probe_frame() -> Seq<u8> {
    spec_build(CMD_PROBE, Seq::empty())
}

/// The probe sent after the terminal record: a status probe followed by
/// zeros up to 61 bytes.
pub open spec fn terminal_probe_frame() -> Seq<u8> {
    probe_frame() + Seq::new((BOOTMESSAGE_LENGTH_CHECK - BOOTMESSAGE_LENGTH) as nat, |i: int| 0u8)
}

/// The frame that carries line `line` of an image: its index, the record
/// type and the decoded bytes of the record.
pub open spec fn line_frame(line: usize, kind: u8, data: Seq<u8>) -> Seq<u8> {
    spec_build(CMD_LINE, wire_index(line) + seq![kind] + data)
}

/// Whether `reply` acknowledges line `line`: its checksum holds, bytes 6 and
/// 7 name the line, and byte 8 reports success.
pub open spec fn spec_acknowledges(reply: Seq<u8>, line: usize) -> bool {
    &&& spec_validate(reply)
    &&& be_u16(reply[6], reply[7]) == line
    &&& reply[8] == 1
}

/// Whether `reply`, read at 61 bytes, comes from the bootloader: byte 1 names
/// a checksum position inside the reply, the checksum holds, and byte 6 is 20.
pub open spec fn spec_bootloader_present(reply: Seq<u8>) -> bool {
    &&& reply.len() >= BOOTMESSAGE_LENGTH_CHECK
    &&& reply[1] < BOOTMESSAGE_LENGTH_CHECK
    &&& reply[reply[1] as int] == checksum(reply.take(reply[1] as int))
    &&& reply[6] == BOOTLOADER_PRESENT
}

/// Computes the checksum over the first `length` bytes of `message`.
pub fn calculate_checksum(message: &[u8], length: usize) -> (sum: u8)
    requires
        length <= message@.len(),
    ensures
        sum == checksum(message@.take(length as int)),
{
    let mut sum: u8 = 0;
    let mut i: usize = 0;
    while i < length
        invariant
            i <= length <= message@.len(),
            sum == checksum(message@.take(i as int)),
        decreases length - i,
    {
        proof {
            let next = message@.take(i + 1);
            assert(next.drop_last() =~= message@.take(i as int));
            assert(next.last() == message@[i as int]);
        }
        sum = sum.wrapping_add(message[i]);
        i += 1;
    }
    sum
}

/// Copies `slice` into an array of its length.
pub fn clone_into_array<const N: usize>(slice: &[u8]) -> (array: [u8; N])
    requires
        slice@.len() == N,
    ensures
        array@ == slice@,
{
    let mut array: [u8; N] = [0u8; N];
    let mut i: usize = 0;
    while i < N
        invariant
            i <= N,
            slice@.len() == N,
            forall|j: int| 0 <= j < i ==> array@[j] == slice@[j],
        decreases N - i,
    {
        array[i] = slice[i];
        i += 1;
    }
    assert(array@ =~= slice@);
    array
}

/// Builds the boot frame for `cmd`. The payload is copied to bytes 6 and up;
/// what lies beyond 39 bytes of it is left out.
pub fn build(cmd: u8, payload: &[u8]) -> (frame: Vec<u8>)
    ensures
        frame@ == spec_build(cmd, payload@),
{
    let mut frame: Vec<u8> = vec![0u8; BOOTMESSAGE_LENGTH];
    frame[0] = cmd;
    frame[1] = 45;
    frame[2] = cmd;
    let count: usize = if payload.len() <= PAYLOAD_CAPACITY {
        payload.len()
    } else {
        PAYLOAD_CAPACITY
    };
    let mut i: usize = 0;
    while i < count
        invariant
            i <= count <= PAYLOAD_CAPACITY,
            count <= payload@.len(),
            frame@.len() == BOOTMESSAGE_LENGTH,
            frame@[0] == cmd,
            frame@[1] == 45,
            frame@[2] == cmd,
            forall|j: int| 3 <= j < PAYLOAD_OFFSET ==> frame@[j] == 0,
            forall|j: int| 0 <= j < i ==> frame@[PAYLOAD_OFFSET + j] == payload@[j],
            forall|j: int| PAYLOAD_OFFSET + i <= j < BOOTMESSAGE_LENGTH ==> frame@[j] == 0,
        decreases count - i,
    {
        frame[PAYLOAD_OFFSET + i] = payload[i];
        i += 1;
    }
    let sum = calculate_checksum(frame.as_slice(), BOOTMESSAGE_LENGTH - 1);
    proof {
        assert(frame@.take(45) =~= frame_body(cmd, payload_of(payload@)));
    }
    frame[BOOTMESSAGE_LENGTH - 1] = sum;
    assert(frame@ =~= spec_build(cmd, payload@));
    frame
}

/// Recomputes the checksum of `frame` and compares it with byte 45.
pub fn validate(frame: &[u8]) -> (ok: bool)
    ensures
        ok == spec_validate(frame@),
{
    if frame.len() < BOOTMESSAGE_LENGTH {
        return false;
    }
    frame[BOOTMESSAGE_LENGTH - 1] == calculate_checksum(frame, BOOTMESSAGE_LENGTH - 1)
}

/// Builds the identify frame.
pub fn identify() -> (frame: Vec<u8>)
    ensures
        frame@ == identify_frame(),
{
    let empty: Vec<u8> = Vec::new();
    build(CMD_IDENTIFY, empty.as_slice())
}

/// Builds the cancel frame.
pub fn cancel() -> (frame: Vec<u8>)
    ensures
        frame@ == cancel_frame(),
{
    let empty: Vec<u8> = Vec::new();
    build(CMD_CANCEL, empty.as_slice())
}

/// Builds the erase frame for the software version `(sw0, sw1, sw2)`.
pub fn erase(sw0: u8, sw1: u8, sw2: u8) -> (frame: Vec<u8>)
    ensures
        frame@ == erase_frame(sw0, sw1, sw2),
{
    let mut payload: Vec<u8> = Vec::new();
    payload.push(sw0);
    payload.push(sw1);
    payload.push(sw2);
    assert(payload@ =~= seq![sw0, sw1, sw2]);
    build(CMD_ERASE, payload.as_slice())
}

/// Builds the status probe.
pub fn probe() -> (frame: Vec<u8>)
    ensures
        frame@ == probe_frame(),
{
    let empty: Vec<u8> = Vec::new();
    build(CMD_PROBE, empty.as_slice())
}

/// Builds the 61-byte probe that follows the terminal record.
pub fn terminal_probe() -> (frame: Vec<u8>)
    ensures
        frame@ == terminal_probe_frame(),
{
    let mut frame = probe();
    let ghost head = frame@;
    proof {
        law_built_frames_validate(CMD_PROBE, Seq::empty());
    }
    let mut i: usize = BOOTMESSAGE_LENGTH;
    while i < BOOTMESSAGE_LENGTH_CHECK
        invariant
            BOOTMESSAGE_LENGTH <= i <= BOOTMESSAGE_LENGTH_CHECK,
            head.len() == BOOTMESSAGE_LENGTH,
            frame@.len() == i,
            frame@.take(BOOTMESSAGE_LENGTH as int) == head,
            forall|j: int| BOOTMESSAGE_LENGTH <= j < i ==> frame@[j] == 0,
        decreases BOOTMESSAGE_LENGTH_CHECK - i,
    {
        frame.push(0);
        i += 1;
        assert(frame@.take(BOOTMESSAGE_LENGTH as int) =~= head);
    }
    assert(frame@ =~= terminal_probe_frame());
    frame
}

/// Builds the frame for line `index` of an image, of record type `kind` and
/// with the decoded bytes `data`.
pub fn firmware_line(index: usize, kind: u8, data: &[u8]) -> (frame: Vec<u8>)
    ensures
        frame@ == line_frame(index, kind, data@),
{
    let mut payload: Vec<u8> = Vec::new();
    payload.push(((index / 256) % 256) as u8);
    payload.push((index % 256) as u8);
    payload.push(kind);
    payload.extend_from_slice(data);
    assert(payload@ =~= wire_index(index) + seq![kind] + data@);
    build(CMD_LINE, payload.as_slice())
}

/// Tells whether `reply` acknowledges line `line`.
pub fn acknowledges(reply: &[u8], line: usize) -> (ok: bool)
    ensures
        ok == spec_acknowledges(reply@, line),
{
    if !validate(reply) {
        return false;
    }
    let hi: usize = reply[6] as usize;
    let lo: usize = reply[7] as usize;
    hi * 256 + lo == line && reply[8] == 1
}

/// Tells whether `reply` to the probe after the terminal record comes from
/// the bootloader.
pub fn bootloader_present(reply: &[u8]) -> (ok: bool)
    ensures
        ok == spec_bootloader_present(reply@),
{
    if reply.len() < BOOTMESSAGE_LENGTH_CHECK {
        return false;
    }
    let declared: usize = reply[1] as usize;
    if declared >= BOOTMESSAGE_LENGTH_CHECK {
        return false;
    }
    reply[declared] == calculate_checksum(reply, declared) && reply[6] == BOOTLOADER_PRESENT
}

/// Reads the four bytes of `bytes` from `at` on as a number, high byte first.
pub fn read_be_u32(bytes: &[u8], at: usize) -> (value: u32)
    requires
        at + 4 <= bytes@.len(),
    ensures
        value == be_u32(bytes@, at as int),
{
    let len: usize = bytes.len();
    assert(at + 4 <= len);
    let array: [u8; 4] = clone_into_array(vstd::slice::slice_subrange(bytes, at, at + 4));
    let b0: u32 = array[0] as u32;
    let b1: u32 = array[1] as u32;
    let b2: u32 = array[2] as u32;
    let b3: u32 = array[3] as u32;
    b0 * 16777216 + b1 * 65536 + b2 * 256 + b3
}

/// Every frame that `build` makes passes `validate`, whatever the command and
/// whatever buffer the payload is taken from.
pub proof fn law_built_frames_validate(cmd: u8, buffer: Seq<u8>)
    ensures
        spec_build(cmd, buffer).len() == BOOTMESSAGE_LENGTH,
        spec_validate(spec_build(cmd, buffer)),
{
    let body = frame_body(cmd, payload_of(buffer));
    assert(spec_build(cmd, buffer).take(45) =~= body);
}

} // verus!
