use go_modules::command::{service_is_active, CommandArg, Ending, UpdateTarget};
use go_modules::upload::UploadError::{FirmwareCorrupted, FirmwareUntouched};

#[test]
fn commands_are_read_from_their_names() {
    assert_eq!(CommandArg::parse("scan"), Some(CommandArg::Scan));
    assert_eq!(CommandArg::parse("update"), Some(CommandArg::Update));
    assert_eq!(CommandArg::parse("overwrite"), Some(CommandArg::Overwrite));
    for word in ["", "Scan", "scan ", "updat", "overwrites", "all"] {
        assert_eq!(CommandArg::parse(word), None, "{}", word);
    }
}

#[test]
fn commands_are_named_in_lower_case() {
    assert_eq!(CommandArg::Scan.name(), "scan");
    assert_eq!(CommandArg::Update.name(), "update");
    assert_eq!(CommandArg::Overwrite.name(), "overwrite");
    for command in [CommandArg::Scan, CommandArg::Update, CommandArg::Overwrite] {
        assert_eq!(CommandArg::parse(command.name()), Some(command));
    }
}

#[test]
fn update_targets() {
    assert_eq!(UpdateTarget::parse("all"), Some(UpdateTarget::All));
    assert_eq!(UpdateTarget::parse("1"), Some(UpdateTarget::Slot(1)));
    assert_eq!(UpdateTarget::parse("08"), Some(UpdateTarget::Slot(8)));
    assert_eq!(UpdateTarget::parse("255"), Some(UpdateTarget::Slot(255)));
    for word in ["", "All", "256", "one", "-1", "1 "] {
        assert_eq!(UpdateTarget::parse(word), None, "{}", word);
    }
}

#[test]
fn service_state_is_read_from_the_report() {
    assert!(service_is_active("active\n"));
    assert!(!service_is_active("inactive\n"));
    assert!(!service_is_active("activating\n"));
    assert!(!service_is_active("failing"));
    assert!(service_is_active("failed\n"));
    assert!(service_is_active(""));
}

#[test]
fn ending_follows_from_the_failures() {
    assert_eq!(Ending::of(&[]), Ending::Done);
    assert_eq!(Ending::of(&[FirmwareUntouched(1)]), Ending::Failed);
    assert_eq!(Ending::of(&[FirmwareUntouched(1), FirmwareUntouched(2)]), Ending::Failed);
    assert_eq!(Ending::of(&[FirmwareCorrupted(3)]), Ending::Corrupted);
    assert_eq!(Ending::of(&[FirmwareUntouched(1), FirmwareCorrupted(3)]), Ending::Corrupted);
    assert_eq!(Ending::of(&[FirmwareCorrupted(3), FirmwareUntouched(1)]), Ending::Corrupted);
}

#[test]
fn only_a_run_without_failure_leaves_with_zero() {
    assert_eq!(Ending::Done.exit_code(), 0);
    assert_eq!(Ending::Failed.exit_code(), -1);
    assert_eq!(Ending::Corrupted.exit_code(), -1);
    assert!(Ending::Done.restarts_services());
    assert!(Ending::Failed.restarts_services());
    assert!(!Ending::Corrupted.restarts_services());
}
