use go_modules::version::{catalogue, is_listed, FirmwareVersion};

fn v(bytes: [u8; 7]) -> FirmwareVersion {
    FirmwareVersion { firmware: bytes }
}

#[test]
fn version_from_a_file_name() {
    assert_eq!(
        FirmwareVersion::from_filename("20-10-1-5-0-0-9.srec".to_string()),
        Some(v([20, 10, 1, 5, 0, 0, 9]))
    );
    assert_eq!(
        FirmwareVersion::from_filename("255-255-255-255-255-255-255.srec".to_string()),
        Some(v([255; 7]))
    );
}

#[test]
fn version_from_a_name_without_ending() {
    assert_eq!(
        FirmwareVersion::from_filename("20-10-1-5-0-0-9".to_string()),
        Some(v([20, 10, 1, 5, 0, 0, 9]))
    );
}

#[test]
fn only_what_stands_before_the_first_dot_is_read() {
    assert_eq!(
        FirmwareVersion::from_filename("1-2-3-4-5-6-7.8-9.srec".to_string()),
        Some(v([1, 2, 3, 4, 5, 6, 7]))
    );
    assert_eq!(
        FirmwareVersion::from_filename("1-2-3-4-5-6-7.späť".to_string()),
        Some(v([1, 2, 3, 4, 5, 6, 7]))
    );
}

#[test]
fn missing_fields_count_as_zero() {
    assert_eq!(
        FirmwareVersion::from_filename("20-10.srec".to_string()),
        Some(v([20, 10, 0, 0, 0, 0, 0]))
    );
    assert_eq!(FirmwareVersion::from_filename("7".to_string()), Some(v([7, 0, 0, 0, 0, 0, 0])));
}

#[test]
fn names_that_spell_no_version() {
    for name in [
        "",
        ".srec",
        "1-2-3-4-5-6-7-8.srec",
        "1-2-3-4-5-6-256.srec",
        "1-2-3-4-5-6-.srec",
        "-1-2-3-4-5-6.srec",
        "1--2.srec",
        "a-b-c.srec",
        "1-2-3-4-5-6-7 .srec",
        "1-2-3-4-5-6-٣.srec",
        "1-2-3-4-5-6-+.srec",
        "firmware.srec",
    ] {
        assert_eq!(FirmwareVersion::from_filename(name.to_string()), None, "{}", name);
    }
}

#[test]
fn fields_are_read_as_the_standard_library_reads_bytes() {
    assert_eq!(
        FirmwareVersion::from_filename("+1-007-0000000000000255-0-0-0-0.srec".to_string()),
        Some(v([1, 7, 255, 0, 0, 0, 0]))
    );
    for field in ["0", "00", "+0", "255", "256", "+255", "++1", "1+", "-1", "", "+", "999999999999", "12a"] {
        let name = format!("{}-1", field);
        let expected = field.parse::<u8>().ok().map(|b| v([b, 1, 0, 0, 0, 0, 0]));
        if field.contains('-') {
            continue;
        }
        assert_eq!(FirmwareVersion::from_filename(name), expected, "{}", field);
    }
}

#[test]
fn version_as_text() {
    assert_eq!(v([20, 10, 1, 5, 0, 0, 9]).as_string(), "20-10-1-5-0-0-9");
    assert_eq!(v([0; 7]).as_string(), "0-0-0-0-0-0-0");
    assert_eq!(v([255, 100, 99, 10, 9, 1, 0]).as_string(), "255-100-99-10-9-1-0");
}

#[test]
fn version_as_file_name() {
    assert_eq!(v([20, 10, 1, 5, 0, 0, 9]).as_filename(), "20-10-1-5-0-0-9.srec");
}

#[test]
fn firmware_path_lies_in_the_firmware_directory() {
    assert_eq!(
        v([20, 10, 1, 5, 0, 0, 9]).firmware_path(),
        "/lib/firmware/gocontroll/20-10-1-5-0-0-9.srec"
    );
}

#[test]
fn file_name_reads_back_as_the_version() {
    let mut seed: u32 = 12345;
    for _ in 0..2000 {
        let mut bytes = [0u8; 7];
        for b in bytes.iter_mut() {
            seed = seed.wrapping_mul(1664525).wrapping_add(1013904223);
            *b = (seed >> 24) as u8;
        }
        let version = v(bytes);
        assert_eq!(FirmwareVersion::from_filename(version.as_filename()), Some(version));
        assert_eq!(FirmwareVersion::from_filename(version.as_string()), Some(version));
    }
    for b in 0..=255u8 {
        let version = v([b, 0, b, 255, b, 9, b]);
        assert_eq!(FirmwareVersion::from_filename(version.as_filename()), Some(version));
    }
}

#[test]
fn software_and_hardware_parts() {
    let version = v([20, 10, 1, 5, 7, 8, 9]);
    assert_eq!(version.get_hardware(), &[20, 10, 1, 5]);
    assert_eq!(version.get_software(), &[7, 8, 9]);
}

#[test]
fn same_as_compares_all_bytes() {
    assert!(v([1, 2, 3, 4, 5, 6, 7]).same_as(&v([1, 2, 3, 4, 5, 6, 7])));
    assert!(!v([1, 2, 3, 4, 5, 6, 7]).same_as(&v([1, 2, 3, 4, 5, 6, 8])));
    assert!(!v([0, 2, 3, 4, 5, 6, 7]).same_as(&v([1, 2, 3, 4, 5, 6, 7])));
}

#[test]
fn catalogue_keeps_the_firmware_images() {
    let names: Vec<String> = [
        "20-10-1-5-0-0-9.srec",
        "readme.txt",
        "20-10-1-5-0-1-0.srec",
        "20-10-1-5-0-1-1",
        "broken-name.srec",
        "20-20-2.srec",
        "1-2-3-4-5-6-7.srec.bak",
    ]
    .iter()
    .map(|n| n.to_string())
    .collect();
    assert_eq!(
        catalogue(&names),
        vec![v([20, 10, 1, 5, 0, 0, 9]), v([20, 10, 1, 5, 0, 1, 0]), v([20, 20, 2, 0, 0, 0, 0])]
    );
    assert_eq!(catalogue(&Vec::new()), Vec::new());
}

#[test]
fn listed_versions() {
    let list = [v([1, 2, 3, 4, 5, 6, 7]), v([1, 2, 3, 4, 5, 6, 8])];
    assert!(is_listed(&v([1, 2, 3, 4, 5, 6, 8]), &list));
    assert!(!is_listed(&v([1, 2, 3, 4, 5, 6, 9]), &list));
    assert!(!is_listed(&v([1, 2, 3, 4, 5, 6, 7]), &[]));
}
