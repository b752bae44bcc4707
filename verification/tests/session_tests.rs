use go_modules::frame::{build, erase, identify};
use go_modules::session::{read_identity, InfoQuery, Module, QueryPhase, Wipe, WipePhase};
use go_modules::transport::Op;
use go_modules::version::FirmwareVersion;

fn identity_reply() -> Vec<u8> {
    let mut payload = vec![20, 10, 1, 5, 0, 0, 9];
    payload.extend_from_slice(&[0x00, 0x00, 0x01, 0x02]);
    payload.extend_from_slice(&[0x12, 0x34, 0x56, 0x78]);
    payload.extend_from_slice(&[0xFF, 0xFF, 0xFF, 0xFE]);
    build(9, &payload)
}

fn module() -> Module {
    Module {
        slot: 3,
        firmware: FirmwareVersion { firmware: [20, 10, 1, 5, 0, 0, 9] },
        manufacturer: 258,
        qr_front: 0x12345678,
        qr_back: 0xFFFFFFFE,
    }
}

#[test]
fn identity_is_read_from_the_reply() {
    assert_eq!(read_identity(3, &identity_reply()), Some(module()));
    let mut longer = identity_reply();
    longer.push(0);
    assert_eq!(read_identity(3, &longer), Some(module()));
}

#[test]
fn reply_with_a_wrong_checksum_is_no_module() {
    let mut reply = identity_reply();
    reply[45] ^= 0x01;
    assert_eq!(read_identity(3, &reply), None);
}

#[test]
fn reply_must_repeat_the_command_twice() {
    let mut first = identity_reply();
    first[0] = 10;
    first[45] = first[45].wrapping_add(1);
    assert_eq!(read_identity(3, &first), None);
    let mut second = identity_reply();
    second[2] = 8;
    second[45] = second[45].wrapping_sub(1);
    assert_eq!(read_identity(3, &second), None);
    assert_eq!(read_identity(3, &[0u8; 46]), None);
    assert_eq!(read_identity(3, &identity_reply()[..45]), None);
}

#[test]
fn info_query_finds_a_module() {
    let (query, step) = InfoQuery::begin(3);
    assert_eq!(query, InfoQuery { slot: 3, phase: QueryPhase::Dummy, found: None });
    assert_eq!(step.ops, vec![Op::Write(vec![0; 5])]);
    assert_eq!(step.verdict, None);
    let (query, step) = query.advance(Some(Vec::new()));
    assert_eq!(query.phase, QueryPhase::Identify);
    assert_eq!(
        step.ops,
        vec![
            Op::Reset(true),
            Op::Sleep(200),
            Op::Reset(false),
            Op::Sleep(200),
            Op::Exchange(identify()),
        ]
    );
    assert_eq!(step.verdict, None);
    let (query, step) = query.advance(Some(identity_reply()));
    assert!(step.ops.is_empty());
    assert_eq!(step.verdict, Some(Some(module())));
    assert_eq!(query, InfoQuery { slot: 3, phase: QueryPhase::Done, found: Some(module()) });
    let (query, step) = query.advance(None);
    assert!(step.ops.is_empty());
    assert_eq!(step.verdict, Some(Some(module())));
    assert_eq!(query.phase, QueryPhase::Done);
}

#[test]
fn info_query_checksum_mismatch_is_no_module_and_no_reset() {
    let (query, _) = InfoQuery::begin(5);
    let (query, _) = query.advance(Some(Vec::new()));
    let mut reply = identity_reply();
    reply[45] = reply[45].wrapping_add(0x40);
    let (query, step) = query.advance(Some(reply));
    assert_eq!(step.verdict, Some(None));
    assert!(step.ops.is_empty());
    assert_eq!(query, InfoQuery { slot: 5, phase: QueryPhase::Done, found: None });
    let (_, step) = query.advance(Some(identity_reply()));
    assert_eq!(step.verdict, Some(None));
    assert!(step.ops.is_empty());
}

#[test]
fn info_query_ends_when_a_transfer_fails() {
    let (query, _) = InfoQuery::begin(1);
    let (query, step) = query.advance(None);
    assert_eq!(step.verdict, Some(None));
    assert!(step.ops.is_empty());
    assert_eq!(query.phase, QueryPhase::Done);
    let (query, _) = InfoQuery::begin(1);
    let (query, _) = query.advance(Some(Vec::new()));
    let (_, step) = query.advance(None);
    assert_eq!(step.verdict, Some(None));
    assert!(step.ops.is_empty());
}

#[test]
fn wipe_erases_with_the_blank_version() {
    let (wipe, step) = Wipe::begin();
    assert_eq!(wipe.phase, WipePhase::Dummy);
    assert_eq!(step.ops, vec![Op::Write(vec![0; 5])]);
    assert_eq!(step.verdict, None);
    let (wipe, step) = wipe.advance(true);
    assert_eq!(wipe.phase, WipePhase::Erase);
    assert_eq!(
        step.ops,
        vec![
            Op::Reset(true),
            Op::Sleep(200),
            Op::Reset(false),
            Op::Sleep(200),
            Op::Drain,
            Op::Arm,
            Op::Write(erase(255, 255, 255)),
        ]
    );
    assert_eq!(step.verdict, None);
    let (wipe, step) = wipe.advance(true);
    assert_eq!(step.ops, vec![Op::Await(3500)]);
    assert_eq!(step.verdict, Some(()));
    assert_eq!(wipe.phase, WipePhase::Done);
    let (_, step) = wipe.advance(true);
    assert!(step.ops.is_empty());
    assert_eq!(step.verdict, Some(()));
}

#[test]
fn wipe_ends_when_a_transfer_fails() {
    let (wipe, _) = Wipe::begin();
    let (wipe, step) = wipe.advance(false);
    assert!(step.ops.is_empty());
    assert_eq!(step.verdict, Some(()));
    assert_eq!(wipe.phase, WipePhase::Done);
    let (wipe, _) = Wipe::begin();
    let (wipe, _) = wipe.advance(true);
    let (_, step) = wipe.advance(false);
    assert!(step.ops.is_empty());
    assert_eq!(step.verdict, Some(()));
}

#[test]
fn known_modules_are_described_by_name() {
    let mut m = module();
    m.firmware = FirmwareVersion { firmware: [20, 10, 1, 5, 0, 0, 9] };
    assert_eq!(m.describe(), "slot 3: 6 Channel Input module version 5 sw: 0.0.9");
    let names = [
        (10, 2, "10 Channel Input"),
        (10, 3, "4-20mA Input"),
        (20, 1, "2 Channel Output"),
        (20, 2, "6 Channel Output"),
        (20, 3, "10 Channel Output"),
        (30, 3, "ANLEG IR"),
        (40, 1, "ANLEG RTC Control"),
    ];
    for (family, variant, name) in names {
        m.slot = 8;
        m.firmware = FirmwareVersion { firmware: [20, family, variant, 12, 1, 20, 255] };
        assert_eq!(m.describe(), format!("slot 8: {} module version 12 sw: 1.20.255", name));
    }
}

#[test]
fn unknown_modules_are_described_by_their_version() {
    let mut m = module();
    for (family, variant) in [(10, 4), (20, 0), (30, 1), (40, 2), (50, 1), (0, 0)] {
        m.firmware = FirmwareVersion { firmware: [20, family, variant, 5, 0, 0, 9] };
        assert_eq!(
            m.describe(),
            format!("slot 3: unknown: 20-{}-{}-5-0-0-9", family, variant)
        );
    }
}
