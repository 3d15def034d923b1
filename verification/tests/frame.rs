use blackfast::frame::{get_retcode, termination_status, FRAME_LEN, NEWLINE};

#[test]
fn test_get_retcode() {
    assert_eq!(get_retcode(255, 255, 255, 255), -1);
    assert_eq!(get_retcode(254, 255, 255, 255), -2);
    assert_eq!(get_retcode(10, 0, 0, 0), 10);
}

#[test]
fn retcode_is_little_endian() {
    assert_eq!(get_retcode(0, 0, 0, 0), 0);
    assert_eq!(get_retcode(1, 0, 0, 0), 1);
    assert_eq!(get_retcode(0, 1, 0, 0), 256);
    assert_eq!(get_retcode(0, 0, 1, 0), 65536);
    assert_eq!(get_retcode(0, 0, 0, 1), 16777216);
    assert_eq!(get_retcode(0x78, 0x56, 0x34, 0x12), 0x12345678);
}

#[test]
fn retcode_covers_the_signed_range() {
    assert_eq!(get_retcode(255, 255, 255, 127), i32::MAX);
    assert_eq!(get_retcode(0, 0, 0, 128), i32::MIN);
    assert_eq!(get_retcode(0, 0, 0, 255), -16777216);
}

#[test]
fn retcode_agrees_with_the_standard_decoding() {
    let samples: [[u8; 4]; 6] = [
        [0, 0, 0, 0],
        [255, 255, 255, 255],
        [1, 2, 3, 4],
        [200, 100, 50, 25],
        [0, 0, 0, 128],
        [255, 0, 255, 0],
    ];
    for bytes in samples {
        assert_eq!(
            get_retcode(bytes[0], bytes[1], bytes[2], bytes[3]),
            i32::from_le_bytes(bytes)
        );
    }
}

#[test]
fn frame_constants() {
    assert_eq!(FRAME_LEN, 6);
    assert_eq!(NEWLINE, b'\n');
}

#[test]
fn termination_frame_is_recognized() {
    assert_eq!(termination_status(&[0, 0, 0, 0, 0, b'\n']), Some(0));
    assert_eq!(termination_status(&[0, 255, 255, 255, 255, b'\n']), Some(-1));
    assert_eq!(termination_status(&[0, 254, 255, 255, 255, b'\n']), Some(-2));
    assert_eq!(termination_status(&[0, 10, 0, 0, 0, b'\n']), Some(10));
    assert_eq!(termination_status(&[0, 123, 0, 0, 0, b'\n']), Some(123));
}

#[test]
fn payload_may_hold_zero_and_newline_bytes() {
    assert_eq!(termination_status(&[0, 10, 10, 10, 10, b'\n']), Some(0x0A0A0A0A));
    assert_eq!(termination_status(&[0, 0, 10, 0, 0, b'\n']), Some(2560));
}

#[test]
fn six_bytes_with_another_first_byte_are_output() {
    assert_eq!(termination_status(&[1, 0, 0, 0, 0, b'\n']), None);
    assert_eq!(termination_status(b"hello\n"), None);
    assert_eq!(termination_status(&[255, 255, 255, 255, 255, b'\n']), None);
}

#[test]
fn shorter_and_longer_lines_are_output() {
    assert_eq!(termination_status(&[]), None);
    assert_eq!(termination_status(&[0]), None);
    assert_eq!(termination_status(&[b'\n']), None);
    assert_eq!(termination_status(&[0, b'\n']), None);
    assert_eq!(termination_status(&[0, 1, 2, 3, b'\n']), None);
    assert_eq!(termination_status(&[0, 1, 2, 3, 4, 5, b'\n']), None);
    assert_eq!(termination_status(b"a longer line of text\n"), None);
}

#[test]
fn six_bytes_without_the_newline_are_output() {
    assert_eq!(termination_status(&[0, 1, 2, 3, 4, 5]), None);
    assert_eq!(termination_status(&[0, 0, 0, 0, 0, 0]), None);
}
