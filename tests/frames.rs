use hottoh::hottoh_const::{Command, CommandType};
use hottoh::hottoh_structs::{calculate_checksum, CommandData};
use hottoh::tcp_client_structs::{Request, Response, ResponseError};

fn data_frame(id: u32, n_params: usize) -> String {
    let params: Vec<String> = (0..n_params).map(|_| "0".to_string()).collect();
    let r = Request::new(id, Command::Dat, CommandType::Read, params);
    String::from_utf8(r.build_message()).unwrap()
}

fn page_frame(id: u32, params: &[&str]) -> String {
    let params: Vec<String> = params.iter().map(|s| s.to_string()).collect();
    let r = Request::new(id, Command::Dat, CommandType::Read, params);
    String::from_utf8(r.build_message()).unwrap()
}

#[test]
fn generic_data_with_36_fields_is_page0() {
    let resp = Response::from_message(&data_frame(1, 36)).unwrap();
    assert_eq!(*resp.get_command(), Command::Dat0);
    assert!(matches!(resp.get_command_data(), CommandData::Dat0(_)));
}

#[test]
fn generic_data_with_11_fields_is_page1() {
    let mut f = vec!["1"];
    f.extend(vec!["0"; 10]);
    let resp = Response::from_message(&page_frame(2, &f)).unwrap();
    assert_eq!(*resp.get_command(), Command::Dat1);
    assert!(matches!(resp.get_command_data(), CommandData::Dat1(_)));
}

#[test]
fn generic_data_with_22_fields_is_page2() {
    let resp = Response::from_message(&data_frame(3, 22)).unwrap();
    assert_eq!(*resp.get_command(), Command::Dat2);
    assert!(matches!(resp.get_command_data(), CommandData::Dat2(_)));
}

#[test]
fn generic_data_with_1_field_is_acknowledgement() {
    let resp = Response::from_message(&data_frame(4, 1)).unwrap();
    assert_eq!(*resp.get_command(), Command::DatReqResponse);
    assert!(matches!(resp.get_command_data(), CommandData::DATReqResponse(_)));
}

#[test]
fn generic_data_with_other_counts_is_not_implemented() {
    for n in [2usize, 5, 12, 35, 37] {
        assert!(matches!(
            Response::from_message(&data_frame(5, n)),
            Err(ResponseError::NotImplemented(_))
        ));
    }
}

#[test]
fn truncated_and_garbled_frames_are_malformed() {
    assert!(matches!(Response::from_message(""), Err(ResponseError::MalformedFrame(_))));
    assert!(matches!(
        Response::from_message("#00001C---0001INFR;"),
        Err(ResponseError::MalformedFrame(_))
    ));
    let good = data_frame(6, 1);
    let bad_id = good.replacen("00006", "0x006", 1);
    assert!(matches!(Response::from_message(&bad_id), Err(ResponseError::MalformedFrame(_))));
    let bad_command = good.replacen("DAT", "XYZ", 1);
    assert!(matches!(
        Response::from_message(&bad_command),
        Err(ResponseError::MalformedFrame(_))
    ));
    let bad_type = good.replacen("DATR", "DATQ", 1);
    assert!(matches!(Response::from_message(&bad_type), Err(ResponseError::MalformedFrame(_))));
    let bad_len = good.replacen("0002", "00G2", 1);
    assert!(matches!(Response::from_message(&bad_len), Err(ResponseError::MalformedFrame(_))));
}

#[test]
fn wrong_info_arity_is_incorrect_structure() {
    let r = Request::new(8, Command::Inf, CommandType::Read, vec!["only".to_string()]);
    let text = String::from_utf8(r.build_message()).unwrap();
    assert!(matches!(
        Response::from_message(&text),
        Err(ResponseError::IncorrectResponseStruct(_))
    ));
}

#[test]
fn corrupted_checksum_still_decodes_but_is_invalid() {
    let good = data_frame(9, 1);
    let n = good.len();
    let last = &good[n - 2..n - 1];
    let replacement = if last == "0" { "1" } else { "0" };
    let bad = format!("{}{}\n", &good[..n - 2], replacement);
    let resp = Response::from_message(&bad).unwrap();
    assert!(!resp.is_crc_valid());
    assert!(Response::from_message(&good).unwrap().is_crc_valid());
}

#[test]
fn any_marker_character_is_echoed_into_the_checksum() {
    let canonical = "00010X---0002DATR7;";
    let frame = format!("#{}{}\n", canonical, calculate_checksum(canonical));
    let resp = Response::from_message(&frame).unwrap();
    assert!(resp.is_crc_valid());
    assert_eq!(resp.get_req_id(), 10);
    let with_c = frame.replacen("X---", "C---", 1);
    assert!(!Response::from_message(&with_c).unwrap().is_crc_valid());
}

#[test]
fn lower_case_length_is_rewritten_upper_case_for_the_checksum() {
    let params = vec!["abcdefgh".to_string(), "x".to_string(), "y".to_string()];
    let r = Request::new(11, Command::Inf, CommandType::Read, params);
    let text = String::from_utf8(r.build_message()).unwrap();
    assert!(text.contains("---000DINF"));
    let lower = text.replacen("---000D", "---000d", 1);
    let resp = Response::from_message(&lower).unwrap();
    assert!(resp.is_crc_valid());
    assert_eq!(resp.get_params().len(), 3);
}
