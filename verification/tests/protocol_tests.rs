use roboscapesim::robot_protocol::{
    decode_roboscape_message, frame_roboscape_message, heartbeat_due, range_message, ticks_message, whisker_change,
    whisker_message, IncomingMessage, MessageType, RobotCommand,
};

fn buffer(bytes: &[u8]) -> [u8; 512] {
    let mut buf = [0u8; 512];
    buf[..bytes.len()].copy_from_slice(bytes);
    buf
}

#[test]
fn message_type_bytes_round_trip() {
    let all = [
        MessageType::Drive,
        MessageType::SetSpeed,
        MessageType::Beep,
        MessageType::SetLED,
        MessageType::GetRange,
        MessageType::GetTicks,
        MessageType::SetNumeric,
        MessageType::ButtonPress,
        MessageType::Initialize,
    ];
    for t in all {
        assert_eq!(MessageType::from_byte(t.to_byte()), Some(t));
    }
    assert_eq!(MessageType::Drive.to_byte(), b'D');
    assert_eq!(MessageType::SetNumeric.to_byte(), b'n');
    assert_eq!(MessageType::from_byte(b'Z'), None);
}

#[test]
fn timing_check_applies_to_motion_and_sound() {
    assert!(MessageType::Drive.requires_timing_check());
    assert!(MessageType::SetSpeed.requires_timing_check());
    assert!(MessageType::Beep.requires_timing_check());
    assert!(MessageType::ButtonPress.requires_timing_check());
    assert!(!MessageType::GetRange.requires_timing_check());
    assert!(!MessageType::GetTicks.requires_timing_check());
    assert!(!MessageType::SetLED.requires_timing_check());
    assert!(!MessageType::SetNumeric.requires_timing_check());
    assert!(!MessageType::Initialize.requires_timing_check());
}

#[test]
fn decode_set_speed_reads_little_endian_signed_words() {
    let buf = buffer(&[b'S', 0x10, 0x00, 0xf0, 0xff]);
    assert_eq!(
        decode_roboscape_message(&buf, 0, 0),
        IncomingMessage::Command(RobotCommand::SetSpeed { first: 16, second: -16 })
    );
}

#[test]
fn decode_beep_reads_frequency_and_duration() {
    let buf = buffer(&[b'B', 0xb8, 0x01, 0xe8, 0x03]);
    assert_eq!(
        decode_roboscape_message(&buf, 0, 0),
        IncomingMessage::Command(RobotCommand::Beep { frequency: 440, duration: 1000 })
    );
}

#[test]
fn decode_unknown_first_byte() {
    let buf = buffer(&[b'Q', 1, 2, 3, 4]);
    assert_eq!(decode_roboscape_message(&buf, 0, 0), IncomingMessage::Unknown { type_byte: b'Q' });
}

#[test]
fn decode_refuses_motion_that_comes_too_soon() {
    let buf = buffer(&[b'D', 1, 0, 1, 0]);
    assert_eq!(decode_roboscape_message(&buf, 100, 50), IncomingMessage::TooSoon);
    assert_eq!(
        decode_roboscape_message(&buf, 100, 100),
        IncomingMessage::Command(RobotCommand::Drive { first: 1, second: 1 })
    );
    // a spacing of zero turns the check off
    assert_eq!(
        decode_roboscape_message(&buf, 0, 0),
        IncomingMessage::Command(RobotCommand::Drive { first: 1, second: 1 })
    );
}

#[test]
fn decode_never_delays_sensor_requests() {
    let range = buffer(&[b'R', 0, 0, 0, 0]);
    assert_eq!(decode_roboscape_message(&range, 1000, 0), IncomingMessage::Command(RobotCommand::GetRange));
    let numeric = buffer(&[b'n', 7, 0, 0, 0]);
    assert_eq!(
        decode_roboscape_message(&numeric, 1000, 0),
        IncomingMessage::Command(RobotCommand::SetNumeric { value: 7 })
    );
}

#[test]
fn frame_puts_mac_then_big_endian_time_then_message() {
    let mac = [1, 2, 3, 4, 5, 6];
    let framed = frame_roboscape_message(&mac, 0x01020304, &[b'I']);
    assert_eq!(framed, vec![1, 2, 3, 4, 5, 6, 1, 2, 3, 4, b'I']);
}

#[test]
fn ticks_message_is_right_then_left_little_endian() {
    let m = ticks_message(-1, 258);
    assert_eq!(m, [b'T', 2, 1, 0, 0, 255, 255, 255, 255]);
}

#[test]
fn range_message_is_little_endian_centimetres() {
    assert_eq!(range_message(300), [b'R', 44, 1]);
}

#[test]
fn whisker_message_sets_bits_for_free_whiskers() {
    assert_eq!(whisker_message([false, false]), [b'W', 3]);
    assert_eq!(whisker_message([true, false]), [b'W', 1]);
    assert_eq!(whisker_message([false, true]), [b'W', 2]);
    assert_eq!(whisker_message([true, true]), [b'W', 0]);
}

#[test]
fn whisker_reports_only_on_change() {
    assert_eq!(whisker_change([false, false], [false, false]), None);
    assert_eq!(whisker_change([false, false], [true, false]), Some([b'W', 1]));
    assert_eq!(whisker_change([true, true], [false, false]), Some([b'W', 3]));
}

#[test]
fn heartbeat_every_fifty_seconds() {
    assert!(!heartbeat_due(150, 100));
    assert!(heartbeat_due(151, 100));
    assert!(heartbeat_due(i64::MAX, i64::MIN));
}
