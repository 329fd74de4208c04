use hottoh::codec::{format_padded, joined_text, parse_signed_text, parse_unsigned_text, same_text};
use hottoh::hottoh_const::{Command, CommandType};
use hottoh::hottoh_structs::{calculate_checksum, CommandData};
use hottoh::tcp_client_structs::{Request, Response};

fn owned(items: &[&str]) -> Vec<String> {
    items.iter().map(|s| s.to_string()).collect()
}

#[test]
fn format_padded_decimal_and_hex() {
    assert_eq!(format_padded(42, 10, 5), "00042");
    assert_eq!(format_padded(0, 10, 5), "00000");
    assert_eq!(format_padded(123456, 10, 5), "123456");
    assert_eq!(format_padded(255, 16, 4), "00FF");
    assert_eq!(format_padded(0xABCDE, 16, 4), "ABCDE");
    assert_eq!(format_padded(7, 10, 1), "7");
}

#[test]
fn parse_unsigned_follows_std_rules() {
    assert_eq!(parse_unsigned_text("00042", 10, 99999), Some(42));
    assert_eq!(parse_unsigned_text("+0042", 10, 99999), Some(42));
    assert_eq!(parse_unsigned_text("-0042", 10, 99999), None);
    assert_eq!(parse_unsigned_text("", 10, 99999), None);
    assert_eq!(parse_unsigned_text("+", 10, 99999), None);
    assert_eq!(parse_unsigned_text("12a", 10, 99999), None);
    assert_eq!(parse_unsigned_text("00ff", 16, 65535), Some(255));
    assert_eq!(parse_unsigned_text("00FF", 16, 65535), Some(255));
    assert_eq!(parse_unsigned_text("65536", 10, 65535), None);
}

#[test]
fn parse_signed_follows_std_rules() {
    assert_eq!(parse_signed_text("-15", -32768, 32767), Some(-15));
    assert_eq!(parse_signed_text("+370", -32768, 32767), Some(370));
    assert_eq!(parse_signed_text("-32768", -32768, 32767), Some(-32768));
    assert_eq!(parse_signed_text("32768", -32768, 32767), None);
    assert_eq!(parse_signed_text("-", -32768, 32767), None);
    assert_eq!(parse_signed_text("--1", -32768, 32767), None);
}

#[test]
fn text_helpers() {
    assert!(same_text("DAT", "DAT"));
    assert!(!same_text("DAT", "DAT0"));
    assert!(!same_text("INF", "DAT"));
    assert_eq!(joined_text("ab", "cd"), "abcd");
}

#[test]
fn checksum_check_value() {
    assert_eq!(calculate_checksum("123456789"), "29B1");
    assert_eq!(calculate_checksum("00001C---0001INFR;"), "9C04");
}

#[test]
fn build_message_info_request() {
    let r = Request::new(1, Command::Inf, CommandType::Read, vec![]);
    assert_eq!(r.build_message(), b"#00001C---0001INFR;9C04\n".to_vec());
}

#[test]
fn build_message_page_request() {
    let r = Request::new(42, Command::Dat, CommandType::Read, owned(&["0"]));
    assert_eq!(r.build_message(), b"#00042C---0002DATR0;7BF7\n".to_vec());
}

#[test]
fn build_message_write_request() {
    let r = Request::new(7, Command::Dat, CommandType::Write, owned(&["0", "1"]));
    assert_eq!(r.build_message(), b"#00007C---0004DATW0;1;20D5\n".to_vec());
}

#[test]
fn round_trip_keeps_fields_and_checksum() {
    let r = Request::new(123, Command::Inf, CommandType::Read, owned(&["host", "1.2", "-60"]));
    let text = String::from_utf8(r.build_message()).unwrap();
    let resp = Response::from_message(&text).unwrap();
    assert!(resp.is_crc_valid());
    assert_eq!(resp.get_req_id(), 123);
    assert_eq!(*resp.get_command(), Command::Inf);
    assert_eq!(*resp.get_command_type(), CommandType::Read);
    assert_eq!(resp.get_params(), &owned(&["host", "1.2", "-60"]));
    match resp.get_command_data() {
        CommandData::Inf(d) => {
            assert_eq!(d.hostname, "host");
            assert_eq!(d.version, "1.2");
            assert_eq!(d.signal, "-60");
        }
        _ => panic!("expected device information"),
    }
}

#[test]
fn round_trip_write_acknowledgement() {
    let r = Request::new(99999, Command::Dat, CommandType::Execute, owned(&["OK"]));
    let text = String::from_utf8(r.build_message()).unwrap();
    let resp = Response::from_message(&text).unwrap();
    assert!(resp.is_crc_valid());
    assert_eq!(resp.get_req_id(), 99999);
    assert_eq!(*resp.get_command(), Command::DatReqResponse);
    assert_eq!(*resp.get_command_type(), CommandType::Execute);
    match resp.get_command_data() {
        CommandData::DATReqResponse(d) => assert_eq!(d.value, "OK"),
        _ => panic!("expected an acknowledgement"),
    }
}
