//! Writable settings requested from outside: which setting a request names,
//! the bounds on its value, and the write request that carries it.

use vstd::prelude::*;
use crate::codec::{format_padded, joined_text, radix_digits};
use crate::hottoh_const::{Command, CommandType, StoveCommands};
use crate::tcp_client::{fresh_request, next_id, request_views, submit};
use crate::tcp_client_structs::{string_texts, Request};

verus! {

/// Highest fan speed.
pub const MAX_FAN_SPEED: u32 = 5;

/// Highest power level.
pub const MAX_POWER_LEVEL: u32 = 10;

/// Why a setting request was refused.
#[derive(Clone, Copy, Debug, PartialEq, Eq, Structural)]
pub enum SettingError {
    /// The ambiance number is not 1 or 2.
    UnknownAmbiance,
    /// The chrono number is not 1, 2 or 3.
    UnknownChrono,
    /// The fan number is not 1, 2 or 3.
    UnknownFan,
    /// The fan speed is above `MAX_FAN_SPEED`.
    FanSpeedTooHigh,
    /// The power level is above `MAX_POWER_LEVEL`.
    PowerLevelTooHigh,
}

impl SettingError {
    /// A sentence for the caller.
    pub fn message(&self) -> (r: &'static str)
        ensures
            r@ == match self {
                SettingError::UnknownAmbiance => "Ambiance number must be 1 or 2"@,
                SettingError::UnknownChrono => "Chrono number must be between 1 and 3"@,
                SettingError::UnknownFan => "Fan number must be between 1 and 3"@,
                SettingError::FanSpeedTooHigh => "Fan speed must be between 0 and 5"@,
                SettingError::PowerLevelTooHigh => "Power level must be between 0 and 10"@,
            },
    {
        match self {
            SettingError::UnknownAmbiance => "Ambiance number must be 1 or 2",
            SettingError::UnknownChrono => "Chrono number must be between 1 and 3",
            SettingError::UnknownFan => "Fan number must be between 1 and 3",
            SettingError::FanSpeedTooHigh => "Fan speed must be between 0 and 5",
            SettingError::PowerLevelTooHigh => "Power level must be between 0 and 10",
        }
    }
}

/// The setting for the set point of ambiance `n`.
pub fn ambiance_setting(n: u32) -> (r: Result<StoveCommands, SettingError>)
    ensures
        r == (if n == 1 {
            Ok::<StoveCommands, SettingError>(StoveCommands::AmbianceTemperature1)
        } else if n == 2 {
            Ok(StoveCommands::AmbianceTemperature2)
        } else {
            Err(SettingError::UnknownAmbiance)
        }),
{
    match n {
        1 => Ok(StoveCommands::AmbianceTemperature1),
        2 => Ok(StoveCommands::AmbianceTemperature2),
        _ => Err(SettingError::UnknownAmbiance),
    }
}

/// The setting for the temperature of chrono program `n`.
pub fn chrono_temperature_setting(n: u32) -> (r: Result<StoveCommands, SettingError>)
    ensures
        r == (if n == 1 {
            Ok::<StoveCommands, SettingError>(StoveCommands::ChronoTemperature1)
        } else if n == 2 {
            Ok(StoveCommands::ChronoTemperature2)
        } else if n == 3 {
            Ok(StoveCommands::ChronoTemperature3)
        } else {
            Err(SettingError::UnknownChrono)
        }),
{
    match n {
        1 => Ok(StoveCommands::ChronoTemperature1),
        2 => Ok(StoveCommands::ChronoTemperature2),
        3 => Ok(StoveCommands::ChronoTemperature3),
        _ => Err(SettingError::UnknownChrono),
    }
}

/// The setting for the speed of fan `fan`; the speed is checked first.
pub fn fan_speed_setting(fan: u32, speed: u32) -> (r: Result<StoveCommands, SettingError>)
    ensures
        r == (if speed > MAX_FAN_SPEED {
            Err::<StoveCommands, SettingError>(SettingError::FanSpeedTooHigh)
        } else if fan == 1 {
            Ok(StoveCommands::FanSpeed1)
        } else if fan == 2 {
            Ok(StoveCommands::FanSpeed2)
        } else if fan == 3 {
            Ok(StoveCommands::FanSpeed3)
        } else {
            Err(SettingError::UnknownFan)
        }),
{
    if speed > MAX_FAN_SPEED {
        return Err(SettingError::FanSpeedTooHigh);
    }
    match fan {
        1 => Ok(StoveCommands::FanSpeed1),
        2 => Ok(StoveCommands::FanSpeed2),
        3 => Ok(StoveCommands::FanSpeed3),
        _ => Err(SettingError::UnknownFan),
    }
}

/// The power-level setting, for a level at most `MAX_POWER_LEVEL`.
pub fn power_level_setting(level: u32) -> (r: Result<StoveCommands, SettingError>)
    ensures
        r == (if level > MAX_POWER_LEVEL {
            Err::<StoveCommands, SettingError>(SettingError::PowerLevelTooHigh)
        } else {
            Ok(StoveCommands::PowerLevel)
        }),
{
    if level > MAX_POWER_LEVEL {
        Err(SettingError::PowerLevelTooHigh)
    } else {
        Ok(StoveCommands::PowerLevel)
    }
}

/// Decimal text of a signed number, with `-` in front when negative.
pub open spec fn signed_decimal(v: int) -> Seq<char> {
    if v < 0 {
        seq!['-'] + radix_digits((-v) as nat, 10)
    } else {
        radix_digits(v as nat, 10)
    }
}

/// Decimal text of `v` (`v.to_string()`).
pub fn decimal_text(v: i64) -> (r: String)
    ensures
        r@ == signed_decimal(v as int),
{
    if v < 0 {
        let magnitude: u64 = (0 - (v as i128)) as u64;
        let digits = format_padded(magnitude, 10, 1);
        proof {
            reveal_strlit("-");
            crate::codec::lemma_radix_digits_value(magnitude as nat, 10);
        }
        let r = joined_text("-", digits.as_str());
        assert(r@ =~= signed_decimal(v as int));
        r
    } else {
        let r = format_padded(v as u64, 10, 1);
        proof {
            crate::codec::lemma_radix_digits_value(v as nat, 10);
        }
        r
    }
}

/// The parameters of a write of `setting`: its action code in decimal, then
/// the value text.
pub open spec fn write_params(setting: StoveCommands, value: Seq<char>) -> Seq<Seq<char>> {
    seq![radix_digits(setting.spec_code() as nat, 10), value]
}

/// Queues a write of `setting` with `value` under the next identifier and
/// returns that identifier.
pub fn submit_setting(
    setting: StoveCommands,
    value: &str,
    request_queue: &mut Vec<Request>,
    counter: &mut u32,
) -> (r: u32)
    ensures
        r == *old(counter),
        *final(counter) == next_id(*old(counter)),
        request_views(final(request_queue)@) == request_views(old(request_queue)@).push(
            fresh_request(r, Command::Dat, CommandType::Write, write_params(setting, value@)),
        ),
{
    let code = decimal_text(setting.code() as i64);
    let mut params: Vec<String> = Vec::new();
    params.push(code);
    params.push(String::from_str(value));
    assert(string_texts(params@) =~= write_params(setting, value@));
    submit(Command::Dat, CommandType::Write, params, request_queue, counter)
}

} // verus!
