use std::str::FromStr;

use hottoh::hottoh_const::{
    Command, CommandType, StoveChronoMode, StoveCommands, StoveManufacturer, StoveState,
};
use hottoh::hottoh_structs::{
    parse_bool, DAT0Data, DAT1Data, DAT2Data, DATReqResponseData, INFData,
};
use hottoh::tcp_client_structs::ResponseError;

fn page0_fields(stove_type: &'static str) -> Vec<&'static str> {
    let mut v = vec!["0"; 36];
    v[1] = "85";
    v[2] = "1";
    v[4] = stove_type;
    v[5] = "8";
    v[6] = "1";
    v[9] = "370";
    v[10] = "-15";
    v[21] = "1234";
    v[22] = "3";
    v
}

#[test]
fn parse_bool_flags() {
    assert_eq!(parse_bool("0"), Ok(false));
    assert_eq!(parse_bool("1"), Ok(true));
    assert!(parse_bool("2").is_err());
    assert!(parse_bool("").is_err());
    assert!(parse_bool("true").is_err());
}

#[test]
fn info_record_from_three_fields() {
    let d = INFData::from_slice(&["stove", "2.1", "-70"]).unwrap();
    assert_eq!(d.hostname, "stove");
    assert_eq!(d.version, "2.1");
    assert_eq!(d.signal, "-70");
    assert!(!d.last_updated.is_empty());
}

#[test]
fn info_record_wrong_arity() {
    assert!(matches!(
        INFData::from_slice(&["a", "b"]),
        Err(ResponseError::IncorrectResponseStruct(_))
    ));
}

#[test]
fn acknowledgement_record() {
    assert_eq!(DATReqResponseData::from_slice(&["1"]).unwrap().value, "1");
    assert!(matches!(
        DATReqResponseData::from_slice(&[]),
        Err(ResponseError::IncorrectResponseStruct(_))
    ));
}

#[test]
fn device_type_bitmask_499() {
    let d = DAT0Data::from_slice(&page0_fields("499")).unwrap();
    assert_eq!(d.index_stove_type, 499);
    assert!(d.boiler_enabled);
    assert!(d.domestic_hot_water_enabled);
    assert_eq!(d.fan_number, 0);
    assert!(d.temp_room1_enabled);
    assert!(d.temp_room2_enabled);
    assert!(d.temp_room3_enabled);
    assert!(d.temp_water_enabled);
    assert!(d.pump_enabled);
}

#[test]
fn device_type_bitmask_fans_only() {
    let d = DAT0Data::from_slice(&page0_fields("12")).unwrap();
    assert_eq!(d.fan_number, 3);
    assert!(!d.boiler_enabled);
    assert!(!d.domestic_hot_water_enabled);
    assert!(!d.temp_room1_enabled);
    assert!(!d.temp_room2_enabled);
    assert!(!d.temp_room3_enabled);
    assert!(!d.temp_water_enabled);
    assert!(!d.pump_enabled);
}

#[test]
fn page0_fields_read_in_place() {
    let d = DAT0Data::from_slice(&page0_fields("0")).unwrap();
    assert_eq!(d.index_manufacturer, 85);
    assert!(d.index_bitmap_visible);
    assert!(!d.index_valid);
    assert_eq!(d.index_stove_state, StoveState::Power);
    assert!(d.index_stove_on);
    assert_eq!(d.index_ambient_t1, 370);
    assert_eq!(d.index_ambient_t1_set, -15);
    assert_eq!(d.index_smoke_t, 1234);
    assert_eq!(d.index_power_level, 3);
}

#[test]
fn page0_errors() {
    assert!(matches!(
        DAT0Data::from_slice(&["0"; 35]),
        Err(ResponseError::IncorrectResponseStruct(_))
    ));
    let mut bad_flag = page0_fields("0");
    bad_flag[3] = "2";
    assert!(matches!(
        DAT0Data::from_slice(&bad_flag),
        Err(ResponseError::IncorrectResponseStruct(_))
    ));
    let mut bad_state = page0_fields("0");
    bad_state[5] = "18";
    assert!(matches!(
        DAT0Data::from_slice(&bad_state),
        Err(ResponseError::IncorrectResponseStruct(_))
    ));
    let mut too_big = page0_fields("0");
    too_big[9] = "40000";
    assert!(matches!(
        DAT0Data::from_slice(&too_big),
        Err(ResponseError::IncorrectResponseStruct(_))
    ));
    let mut negative_unsigned = page0_fields("0");
    negative_unsigned[22] = "-1";
    assert!(matches!(
        DAT0Data::from_slice(&negative_unsigned),
        Err(ResponseError::IncorrectResponseStruct(_))
    ));
}

#[test]
fn page1_record() {
    let f = ["1", "200", "50", "300", "-5", "0", "10", "7", "8", "9", "x"];
    let d = DAT1Data::from_slice(&f).unwrap();
    assert_eq!(d.index_page, 1);
    assert!(d.index_state);
    assert_eq!(d.index_temperature_1, 200);
    assert_eq!(d.index_temperature_1_min, 50);
    assert_eq!(d.index_temperature_1_max, 300);
    assert_eq!(d.index_temperature_2, -5);
    assert_eq!(d.index_temperature_3_max, 9);
    assert!(DAT1Data::from_slice(&f[..10]).is_err());
    let mut page_two = f;
    page_two[0] = "2";
    assert!(DAT1Data::from_slice(&page_two).is_err());
}

#[test]
fn page2_record() {
    let mut f = vec!["0"; 22];
    f[0] = "2";
    f[1] = "1";
    f[6] = "-40";
    f[21] = "650";
    let d = DAT2Data::from_slice(&f).unwrap();
    assert_eq!(d.index_page, 2);
    assert_eq!(d.index_flow_switch, 1);
    assert_eq!(d.index_puffer, -40);
    assert_eq!(d.index_room_temp_3_set_max, 650);
    assert!(DAT2Data::from_slice(&f[..21]).is_err());
    f[2] = "-1";
    assert!(DAT2Data::from_slice(&f).is_err());
}

#[test]
fn stove_state_codes() {
    assert_eq!(StoveState::from_text("0"), Ok(StoveState::Off));
    assert_eq!(StoveState::from_text("8"), Ok(StoveState::Power));
    assert_eq!(StoveState::from_text("+17"), Ok(StoveState::AntiFreeze));
    assert_eq!(StoveState::from_text("60"), Ok(StoveState::IgnitionFailed));
    assert_eq!(StoveState::from_text("69"), Ok(StoveState::CoverOpen));
    assert!(StoveState::from_text("18").is_err());
    assert!(StoveState::from_text("-1").is_err());
    assert!(StoveState::from_text("x").is_err());
    assert_eq!(StoveState::from_str("61"), Ok(StoveState::NoPellet));
    assert_eq!(StoveState::NoPellet.code(), 61);
    assert_eq!(StoveState::default(), StoveState::Off);
}

#[test]
fn manufacturer_codes() {
    assert_eq!(StoveManufacturer::from_u16(85), Some(StoveManufacturer::Edilkamin));
    assert_eq!(StoveManufacturer::from_u16(9), Some(StoveManufacturer::Cmg));
    assert_eq!(StoveManufacturer::from_u16(10), None);
    assert_eq!(StoveManufacturer::Edilkamin.as_str(), "Edilkamin");
}

#[test]
fn command_codes() {
    assert_eq!(Command::Inf.as_str(), "INF");
    assert_eq!(Command::DatReqResponse.as_str(), "DATReqResponse");
    assert_eq!(Command::from_code("DAT"), Some(Command::Dat));
    assert_eq!(Command::from_code("DAT1"), Some(Command::Dat1));
    assert_eq!(Command::from_code("dat"), None);
    assert_eq!(Command::from_str("DAT2"), Ok(Command::Dat2));
    assert_eq!(Command::from_str("XYZ"), Err("Invalid command: XYZ".to_string()));
    assert_eq!(CommandType::Write.as_str(), "W");
    assert_eq!(CommandType::from_code("E"), Some(CommandType::Execute));
    assert_eq!(CommandType::from_code("X"), None);
    assert_eq!(CommandType::from_str("R"), Ok(CommandType::Read));
}

#[test]
fn setting_codes() {
    assert_eq!(StoveCommands::from_code(0), Some(StoveCommands::OnOff));
    assert_eq!(StoveCommands::from_code(16), Some(StoveCommands::HottohSetPelSetpoint));
    assert_eq!(StoveCommands::from_code(17), None);
    assert_eq!(StoveCommands::FanSpeed2.code(), 6);
    assert_eq!(StoveCommands::AmbianceTemperature1.as_str(), "AmbianceTemperature1");
    assert_eq!(StoveChronoMode::ChronoOn4.code(), 5);
}
