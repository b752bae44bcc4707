use go_modules::frame::{
    acknowledges, bootloader_present, build, calculate_checksum, cancel, clone_into_array, erase,
    firmware_line, identify, probe, read_be_u32, terminal_probe, validate, BOOTMESSAGE_LENGTH,
    BOOTMESSAGE_LENGTH_CHECK,
};

fn sum(bytes: &[u8]) -> u8 {
    let mut total: u8 = 0;
    for b in bytes {
        total = total.wrapping_add(*b);
    }
    total
}

#[test]
fn checksum_wraps_at_256() {
    let bytes = [200u8, 100, 7];
    assert_eq!(calculate_checksum(&bytes, 3), 51);
    assert_eq!(calculate_checksum(&bytes, 2), 44);
    assert_eq!(calculate_checksum(&bytes, 0), 0);
}

#[test]
fn checksum_of_all_ones() {
    let bytes = [255u8; 46];
    assert_eq!(calculate_checksum(&bytes, 45), (45u32 * 255 % 256) as u8);
}

#[test]
fn built_frame_has_layout_and_validates() {
    let frame = build(29, &[1, 2, 3]);
    assert_eq!(frame.len(), BOOTMESSAGE_LENGTH);
    assert_eq!(frame[0], 29);
    assert_eq!(frame[1], 45);
    assert_eq!(frame[2], 29);
    assert_eq!(&frame[3..6], &[0, 0, 0]);
    assert_eq!(&frame[6..9], &[1, 2, 3]);
    assert!(frame[9..45].iter().all(|b| *b == 0));
    assert_eq!(frame[45], 29u8.wrapping_add(45).wrapping_add(29).wrapping_add(6));
    assert!(validate(&frame));
}

#[test]
fn every_buffer_builds_a_valid_frame() {
    for len in 0..100usize {
        for cmd in [0u8, 9, 19, 29, 39, 49, 255] {
            let buffer: Vec<u8> = (0..len).map(|i| (i * 37 + len * 11) as u8).collect();
            let frame = build(cmd, &buffer);
            assert_eq!(frame.len(), 46);
            assert!(validate(&frame));
            let kept = len.min(39);
            assert_eq!(&frame[6..6 + kept], &buffer[..kept]);
            assert_eq!(frame[45], sum(&frame[..45]));
        }
    }
}

#[test]
fn payload_beyond_capacity_is_left_out() {
    let buffer = [7u8; 60];
    let frame = build(39, &buffer);
    assert_eq!(frame.len(), 46);
    assert_eq!(&frame[6..45], &[7u8; 39]);
    assert_eq!(frame, build(39, &[7u8; 39]));
}

#[test]
fn validate_rejects_a_flipped_bit() {
    let mut frame = build(9, &[]);
    assert!(validate(&frame));
    frame[45] ^= 1;
    assert!(!validate(&frame));
    frame[45] ^= 1;
    frame[10] ^= 0x80;
    assert!(!validate(&frame));
}

#[test]
fn validate_rejects_short_frames() {
    assert!(!validate(&[]));
    assert!(!validate(&[0u8; 45]));
    assert!(validate(&[0u8; 46]));
    assert!(validate(&[0u8; 47]));
}

#[test]
fn validate_reads_only_the_first_46_bytes() {
    let mut long = build(49, &[]);
    long.push(99);
    assert!(validate(&long));
}

#[test]
fn command_frames() {
    assert_eq!(identify(), build(9, &[]));
    assert_eq!(cancel(), build(19, &[]));
    assert_eq!(probe(), build(49, &[]));
    assert_eq!(erase(1, 2, 3), build(29, &[1, 2, 3]));
    assert_eq!(erase(255, 255, 255)[6..9], [255, 255, 255]);
    assert_eq!(identify()[45], 63);
    assert_eq!(cancel()[45], 83);
    assert_eq!(probe()[45], 143);
}

#[test]
fn terminal_probe_is_61_bytes() {
    let frame = terminal_probe();
    assert_eq!(frame.len(), BOOTMESSAGE_LENGTH_CHECK);
    assert_eq!(&frame[..46], &probe()[..]);
    assert!(frame[46..].iter().all(|b| *b == 0));
}

#[test]
fn line_frame_carries_index_type_and_data() {
    let frame = firmware_line(0x0102, 3, &[5, 0xAA, 0xBB]);
    assert_eq!(frame[0], 39);
    assert_eq!(frame[2], 39);
    assert_eq!(&frame[6..12], &[1, 2, 3, 5, 0xAA, 0xBB]);
    assert!(validate(&frame));
}

#[test]
fn line_index_wraps_at_65536() {
    let frame = firmware_line(65536 + 7, 1, &[]);
    assert_eq!(&frame[6..9], &[0, 7, 1]);
}

#[test]
fn acknowledgement_needs_checksum_index_and_success() {
    let good = build(39, &[0, 5, 1]);
    assert!(acknowledges(&good, 5));
    assert!(!acknowledges(&good, 4));
    assert!(!acknowledges(&good, 5 + 65536));
    let refused = build(39, &[0, 5, 0]);
    assert!(!acknowledges(&refused, 5));
    let mut broken = good.clone();
    broken[45] = broken[45].wrapping_add(1);
    assert!(!acknowledges(&broken, 5));
    assert!(!acknowledges(&good[..45], 5));
    let high = build(39, &[2, 1, 1]);
    assert!(acknowledges(&high, 513));
}

#[test]
fn bootloader_answer_is_told_from_the_application() {
    let mut reply = build(49, &[20]);
    reply.resize(61, 0);
    assert!(bootloader_present(&reply));
    let mut other = build(49, &[21]);
    other.resize(61, 0);
    assert!(!bootloader_present(&other));
    let mut broken = reply.clone();
    broken[45] ^= 0x10;
    assert!(!bootloader_present(&broken));
    assert!(!bootloader_present(&reply[..46]));
}

#[test]
fn bootloader_answer_checksum_sits_where_byte_1_says() {
    let mut reply = vec![0u8; 61];
    reply[0] = 49;
    reply[1] = 60;
    reply[6] = 20;
    reply[60] = sum(&reply[..60]);
    assert!(bootloader_present(&reply));
    reply[1] = 61;
    assert!(!bootloader_present(&reply));
    reply[1] = 255;
    assert!(!bootloader_present(&reply));
}

#[test]
fn all_zero_reply_is_no_bootloader() {
    assert!(!bootloader_present(&[0u8; 61]));
}

#[test]
fn clone_into_array_copies() {
    let bytes = [1u8, 2, 3, 4, 5];
    let four: [u8; 4] = clone_into_array(&bytes[1..5]);
    assert_eq!(four, [2, 3, 4, 5]);
    let none: [u8; 0] = clone_into_array(&bytes[0..0]);
    assert_eq!(none, []);
}

#[test]
fn big_endian_numbers() {
    let bytes = [0u8, 0x12, 0x34, 0x56, 0x78, 0xFF, 0xFF, 0xFF, 0xFF];
    assert_eq!(read_be_u32(&bytes, 1), 0x12345678);
    assert_eq!(read_be_u32(&bytes, 5), u32::MAX);
    assert_eq!(read_be_u32(&bytes, 0), 0x00123456);
}
