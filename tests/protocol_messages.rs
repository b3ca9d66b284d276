use lug_chat::clock::{millis_from_nanos, now_millis};
use lug_chat::decode::{decode_int, decode_object};
use lug_chat::message::{MessageType, UnmappedMessage};
use lug_chat::wire::{decimal_string, object_string};

fn build_test_message(msg_type: &str, content: &str, now: i64) -> String {
    format!(r#"{{"nick":"test","time":{},"type":"{}","content":{}}}"#, now, msg_type, content)
}

fn invalid_deserialization() {
    let now = now_millis();
    let empty = UnmappedMessage::from_text("{}");
    assert!(empty.is_none(), "Empty message should fail parsing");

    let raw: String = format!(r#"{{"nick":"test","time":{},"content":{{"publicKey":"abc123"}}}}"#, now);
    let missing_type = UnmappedMessage::from_text(raw.as_str());
    assert!(missing_type.is_none(), "Missing type should fail parsing");
}

fn valid_deserialization() {
    let now = now_millis();
    let type_to_content: [(MessageType, &str); 3] = [
        (MessageType::Hello, r#"{"publicKey":"abc123"}"#),
        (MessageType::Subscribe, "{}"),
        (MessageType::Post, r#"{"postContent":"Hi!"}"#),
    ];
    for test in type_to_content {
        let raw = build_test_message(test.0.name(), test.1, now);
        let result = UnmappedMessage::from_text(raw.as_str()).unwrap();
        assert_eq!(test.0, result.msg_type);
        assert_eq!("test", result.nick);
        match result.msg_type {
            MessageType::Hello => assert_eq!("abc123", result.get_content_str("publicKey").unwrap()),
            MessageType::History => assert!(false),
            MessageType::Post => assert_eq!("Hi!", result.get_content_str("postContent").unwrap()),
            MessageType::Subscribe => assert!(result.content.is_empty()),
            MessageType::Disconnect => assert!(false),
        }
    }
}

#[test]
fn message_message_invalid_deserialization() {
    invalid_deserialization();
}

#[test]
fn message_message_valid_deserialization() {
    valid_deserialization();
}

#[test]
fn protocol_message_invalid_deserialization() {
    invalid_deserialization();
}

#[test]
fn protocol_message_valid_deserialization() {
    valid_deserialization();
}

fn duration_json(start: i64, end: Option<i64>) -> String {
    if end.is_none() {
        format!(r#"{{"start":{},"end":{}}}"#, start, "null")
    } else {
        format!(r#"{{"start":{},"end":{}}}"#, start, end.unwrap())
    }
}

fn duration_text(start: i64, end: Option<i64>) -> String {
    let end_text = match end {
        Some(e) => decimal_string(e),
        None => String::from("null"),
    };
    object_string(&vec![
        (String::from("start"), decimal_string(start)),
        (String::from("end"), end_text),
    ])
}

fn utc_millis(year: i32, hour: u8) -> i64 {
    let date = time::Date::from_calendar_date(year, time::Month::January, 1).unwrap();
    let at = time::PrimitiveDateTime::new(date, time::Time::from_hms(hour, 0, 0).unwrap());
    millis_from_nanos(at.assume_utc().unix_timestamp_nanos())
}

#[test]
fn timestamp_serialization() {
    let millis = utc_millis(2022, 13);
    assert_eq!(millis, 1_641_042_000_000);

    let result = duration_text(millis, None);
    let expected = duration_json(millis, None);
    assert_eq!(expected, result);

    let expected = duration_json(millis, Some(millis));
    let result = duration_text(millis, Some(millis));
    assert_eq!(expected, result);
}

#[test]
fn timestamp_deserialization() {
    let now_millis = now_millis();

    let json = duration_json(now_millis, None);
    let result = decode_object(json.as_str()).unwrap();
    assert_eq!(decode_int(result[0].1.as_str()), Some(now_millis));
    assert_eq!(result[1].1, "null");

    let json = duration_json(now_millis, Some(now_millis));
    let result = decode_object(json.as_str()).unwrap();
    assert_eq!(decode_int(result[0].1.as_str()), Some(now_millis));
    assert_eq!(decode_int(result[1].1.as_str()), Some(now_millis));
}

#[test]
fn validate_millisecond_conversion() {
    assert_eq!(utc_millis(1970, 0), 0);
    let date = time::Date::from_calendar_date(1970, time::Month::January, 1).unwrap();
    let west = time::PrimitiveDateTime::new(date, time::Time::MIDNIGHT)
        .assume_offset(time::UtcOffset::from_hms(-1, 0, 0).unwrap());
    assert_eq!(millis_from_nanos(west.unix_timestamp_nanos()), 3_600_000);

    let now = time::OffsetDateTime::now_utc().unix_timestamp_nanos() / 1_000_000;
    let millis = now_millis() as i128;
    assert!(now == millis);
}

#[test]
fn custom_timestamp_serialization() {
    let mut now = time::OffsetDateTime::now_utc();
    if now.millisecond() < 100 {
        now = now.replace_millisecond(now.millisecond() + 100).unwrap();
    }
    let now_ms = millis_from_nanos(now.unix_timestamp_nanos());
    let hello_msg = UnmappedMessage::new_at(MessageType::Hello, String::from("test"), now_ms);

    let raw = hello_msg.to_text();
    assert!(
        raw.contains(format!(r#""time":{}{}"#, now.unix_timestamp(), now.millisecond()).as_str()),
        "Serialization failed: {}",
        raw
    );

    let result = UnmappedMessage::from_text(raw.as_str()).unwrap();
    assert!(result.content.is_empty());
    assert_eq!(MessageType::Hello, result.msg_type);
    assert_eq!("test", result.nick);
    assert_eq!(now_ms, result.time);
}
