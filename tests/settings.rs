use hottoh::hottoh_const::{Command, CommandType, StoveCommands};
use hottoh::settings::{
    ambiance_setting, chrono_temperature_setting, decimal_text, fan_speed_setting,
    power_level_setting, submit_setting, SettingError,
};

#[test]
fn decimal_text_signs() {
    assert_eq!(decimal_text(0), "0");
    assert_eq!(decimal_text(215), "215");
    assert_eq!(decimal_text(-15), "-15");
    assert_eq!(decimal_text(i64::MIN), "-9223372036854775808");
}

#[test]
fn setting_selection() {
    assert_eq!(ambiance_setting(2), Ok(StoveCommands::AmbianceTemperature2));
    assert_eq!(ambiance_setting(3), Err(SettingError::UnknownAmbiance));
    assert_eq!(chrono_temperature_setting(3), Ok(StoveCommands::ChronoTemperature3));
    assert_eq!(chrono_temperature_setting(0), Err(SettingError::UnknownChrono));
    assert_eq!(fan_speed_setting(1, 5), Ok(StoveCommands::FanSpeed1));
    assert_eq!(fan_speed_setting(4, 2), Err(SettingError::UnknownFan));
    assert_eq!(fan_speed_setting(4, 6), Err(SettingError::FanSpeedTooHigh));
    assert_eq!(power_level_setting(10), Ok(StoveCommands::PowerLevel));
    assert_eq!(power_level_setting(11), Err(SettingError::PowerLevelTooHigh));
    assert_eq!(SettingError::UnknownFan.message(), "Fan number must be between 1 and 3");
}

#[test]
fn setting_write_request() {
    let mut q = Vec::new();
    let mut c: u32 = 99999;
    let id = submit_setting(StoveCommands::AmbianceTemperature1, "215", &mut q, &mut c);
    assert_eq!(id, 99999);
    assert_eq!(c, 0);
    assert_eq!(*q[0].get_command(), Command::Dat);
    assert_eq!(*q[0].get_command_type(), CommandType::Write);
    assert_eq!(q[0].get_params(), &vec!["3".to_string(), "215".to_string()]);
    assert_eq!(q[0].build_message()[..14].to_vec(), b"#99999C---0006".to_vec());
}
