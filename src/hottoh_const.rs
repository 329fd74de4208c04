//! Closed sets of protocol codes: command verbs, their modifiers, device
//! states, manufacturers and the writable settings.

use vstd::prelude::*;
use crate::codec::{joined_text, parse_signed_text, same_text, spec_parse_i32};

verus! {

/// Modifier of a command: read, write or execute.
#[derive(Clone, Copy, Debug, PartialEq, Eq, Structural)]
pub enum CommandType {
    /// Read data from the device
    Read,
    /// Write data to the device
    Write,
    /// Execute a command on the device
    Execute,
}

impl CommandType {
    /// The one-letter wire code.
    pub open spec fn code(self) -> Seq<char> {
        match self {
            CommandType::Read => "R"@,
            CommandType::Write => "W"@,
            CommandType::Execute => "E"@,
        }
    }

    /// The one-letter wire code ("R", "W" or "E").
    pub fn as_str(&self) -> (r: &'static str)
        ensures
            r@ == self.code(),
    {
        match self {
            CommandType::Read => "R",
            CommandType::Write => "W",
            CommandType::Execute => "E",
        }
    }

    /// The command type whose wire code is `s`, if any.
    pub fn from_code(s: &str) -> (r: Option<CommandType>)
        ensures
            r == command_type_from_code(s@),
    {
        if same_text(s, "R") {
            Some(CommandType::Read)
        } else if same_text(s, "W") {
            Some(CommandType::Write)
        } else if same_text(s, "E") {
            Some(CommandType::Execute)
        } else {
            None
        }
    }
}

/// The command type with wire code `s`.
pub open spec fn command_type_from_code(s: Seq<char>) -> Option<CommandType> {
    if s == "R"@ {
        Some(CommandType::Read)
    } else if s == "W"@ {
        Some(CommandType::Write)
    } else if s == "E"@ {
        Some(CommandType::Execute)
    } else {
        None
    }
}

impl std::str::FromStr for CommandType {
    type Err = String;

    fn from_str(input: &str) -> Result<CommandType, String> {
        match CommandType::from_code(input) {
            Some(t) => Ok(t),
            None => Err(joined_text("Invalid command: ", input)),
        }
    }
}

/// Command verb.
#[derive(Clone, Copy, Debug, PartialEq, Eq, Structural)]
pub enum Command {
    /// Device information (hostname, version, signal)
    Inf,
    /// Generic data command
    Dat,
    /// Data page 0 (main device data)
    Dat0,
    /// Data page 1 (additional temperatures)
    Dat1,
    /// Data page 2 (pumps and valves)
    Dat2,
    /// Acknowledgement of a data request
    DatReqResponse,
}

impl Command {
    /// The wire code.
    pub open spec fn code(self) -> Seq<char> {
        match self {
            Command::Inf => "INF"@,
            Command::Dat => "DAT"@,
            Command::Dat0 => "DAT0"@,
            Command::Dat1 => "DAT1"@,
            Command::Dat2 => "DAT2"@,
            Command::DatReqResponse => "DATReqResponse"@,
        }
    }

    /// The wire code of the command.
    pub fn as_str(&self) -> (r: &'static str)
        ensures
            r@ == self.code(),
    {
        match self {
            Command::Inf => "INF",
            Command::Dat => "DAT",
            Command::Dat0 => "DAT0",
            Command::Dat1 => "DAT1",
            Command::Dat2 => "DAT2",
            Command::DatReqResponse => "DATReqResponse",
        }
    }

    /// The command whose wire code is `s`, if any.
    pub fn from_code(s: &str) -> (r: Option<Command>)
        ensures
            r == command_from_code(s@),
    {
        if same_text(s, "INF") {
            Some(Command::Inf)
        } else if same_text(s, "DAT") {
            Some(Command::Dat)
        } else if same_text(s, "DAT0") {
            Some(Command::Dat0)
        } else if same_text(s, "DAT1") {
            Some(Command::Dat1)
        } else if same_text(s, "DAT2") {
            Some(Command::Dat2)
        } else if same_text(s, "DATReqResponse") {
            Some(Command::DatReqResponse)
        } else {
            None
        }
    }
}

/// The command with wire code `s`.
pub open spec fn command_from_code(s: Seq<char>) -> Option<Command> {
    if s == "INF"@ {
        Some(Command::Inf)
    } else if s == "DAT"@ {
        Some(Command::Dat)
    } else if s == "DAT0"@ {
        Some(Command::Dat0)
    } else if s == "DAT1"@ {
        Some(Command::Dat1)
    } else if s == "DAT2"@ {
        Some(Command::Dat2)
    } else if s == "DATReqResponse"@ {
        Some(Command::DatReqResponse)
    } else {
        None
    }
}

impl std::str::FromStr for Command {
    type Err = String;

    fn from_str(input: &str) -> Result<Command, String> {
        match Command::from_code(input) {
            Some(c) => Ok(c),
            None => Err(joined_text("Invalid command: ", input)),
        }
    }
}


/// Operating state reported by the device.
#[derive(Clone, Copy, Debug, PartialEq, Eq, Structural)]
pub enum StoveState {
    Off,
    Starting1,
    Starting2,
    Starting3,
    Starting4,
    Starting5,
    Starting6,
    Starting7,
    Power,
    Stopping1,
    Stopping2,
    EcoStop1,
    EcoStop2,
    EcoStop3,
    LowPellet,
    EndPellet,
    BlackOut,
    AntiFreeze,
    IgnitionFailed,
    NoPellet,
    CoverOpen,
}

/// The state with numeric code `n`.
pub open spec fn stove_state_of(n: int) -> Option<StoveState> {
    if n == 0 {
        Some(StoveState::Off)
    } else if n == 1 {
        Some(StoveState::Starting1)
    } else if n == 2 {
        Some(StoveState::Starting2)
    } else if n == 3 {
        Some(StoveState::Starting3)
    } else if n == 4 {
        Some(StoveState::Starting4)
    } else if n == 5 {
        Some(StoveState::Starting5)
    } else if n == 6 {
        Some(StoveState::Starting6)
    } else if n == 7 {
        Some(StoveState::Starting7)
    } else if n == 8 {
        Some(StoveState::Power)
    } else if n == 9 {
        Some(StoveState::Stopping1)
    } else if n == 10 {
        Some(StoveState::Stopping2)
    } else if n == 11 {
        Some(StoveState::EcoStop1)
    } else if n == 12 {
        Some(StoveState::EcoStop2)
    } else if n == 13 {
        Some(StoveState::EcoStop3)
    } else if n == 14 {
        Some(StoveState::LowPellet)
    } else if n == 15 {
        Some(StoveState::EndPellet)
    } else if n == 16 {
        Some(StoveState::BlackOut)
    } else if n == 17 {
        Some(StoveState::AntiFreeze)
    } else if n == 60 {
        Some(StoveState::IgnitionFailed)
    } else if n == 61 {
        Some(StoveState::NoPellet)
    } else if n == 69 {
        Some(StoveState::CoverOpen)
    } else {
        None
    }
}

/// The state named by a decimal text, as `str::parse::<i32>` reads it.
pub open spec fn stove_state_from_text(s: Seq<char>) -> Option<StoveState> {
    match spec_parse_i32(s) {
        Some(n) => stove_state_of(n as int),
        None => None,
    }
}

impl StoveState {
    /// The numeric code of the state.
    pub open spec fn spec_code(self) -> int {
        match self {
            StoveState::Off => 0,
            StoveState::Starting1 => 1,
            StoveState::Starting2 => 2,
            StoveState::Starting3 => 3,
            StoveState::Starting4 => 4,
            StoveState::Starting5 => 5,
            StoveState::Starting6 => 6,
            StoveState::Starting7 => 7,
            StoveState::Power => 8,
            StoveState::Stopping1 => 9,
            StoveState::Stopping2 => 10,
            StoveState::EcoStop1 => 11,
            StoveState::EcoStop2 => 12,
            StoveState::EcoStop3 => 13,
            StoveState::LowPellet => 14,
            StoveState::EndPellet => 15,
            StoveState::BlackOut => 16,
            StoveState::AntiFreeze => 17,
            StoveState::IgnitionFailed => 60,
            StoveState::NoPellet => 61,
            StoveState::CoverOpen => 69,
        }
    }

    /// The numeric code of the state.
    pub fn code(&self) -> (r: u8)
        ensures
            r as int == self.spec_code(),
    {
        match self {
            StoveState::Off => 0,
            StoveState::Starting1 => 1,
            StoveState::Starting2 => 2,
            StoveState::Starting3 => 3,
            StoveState::Starting4 => 4,
            StoveState::Starting5 => 5,
            StoveState::Starting6 => 6,
            StoveState::Starting7 => 7,
            StoveState::Power => 8,
            StoveState::Stopping1 => 9,
            StoveState::Stopping2 => 10,
            StoveState::EcoStop1 => 11,
            StoveState::EcoStop2 => 12,
            StoveState::EcoStop3 => 13,
            StoveState::LowPellet => 14,
            StoveState::EndPellet => 15,
            StoveState::BlackOut => 16,
            StoveState::AntiFreeze => 17,
            StoveState::IgnitionFailed => 60,
            StoveState::NoPellet => 61,
            StoveState::CoverOpen => 69,
        }
    }

    /// The state with numeric code `n`, if any.
    pub fn from_code(n: i32) -> (r: Option<StoveState>)
        ensures
            r == stove_state_of(n as int),
    {
        match n {
            0 => Some(StoveState::Off),
            1 => Some(StoveState::Starting1),
            2 => Some(StoveState::Starting2),
            3 => Some(StoveState::Starting3),
            4 => Some(StoveState::Starting4),
            5 => Some(StoveState::Starting5),
            6 => Some(StoveState::Starting6),
            7 => Some(StoveState::Starting7),
            8 => Some(StoveState::Power),
            9 => Some(StoveState::Stopping1),
            10 => Some(StoveState::Stopping2),
            11 => Some(StoveState::EcoStop1),
            12 => Some(StoveState::EcoStop2),
            13 => Some(StoveState::EcoStop3),
            14 => Some(StoveState::LowPellet),
            15 => Some(StoveState::EndPellet),
            16 => Some(StoveState::BlackOut),
            17 => Some(StoveState::AntiFreeze),
            60 => Some(StoveState::IgnitionFailed),
            61 => Some(StoveState::NoPellet),
            69 => Some(StoveState::CoverOpen),
            _ => None,
        }
    }

    /// Reads a state from its decimal code.
    pub fn from_text(s: &str) -> (r: Result<StoveState, StoveStateError>)
        ensures
            match stove_state_from_text(s@) {
                Some(st) => r == Ok::<StoveState, StoveStateError>(st),
                None => r is Err,
            },
    {
        match parse_signed_text(s, -2147483648, 2147483647) {
            Some(n) => match StoveState::from_code(n as i32) {
                Some(st) => Ok(st),
                None => Err(StoveStateError),
            },
            None => Err(StoveStateError),
        }
    }
}

impl Default for StoveState {
    fn default() -> (r: StoveState)
        ensures
            r == StoveState::Off,
    {
        StoveState::Off
    }
}

/// A text that names no device state.
#[derive(Clone, Copy, Debug, PartialEq, Eq, Structural)]
pub struct StoveStateError;

impl std::str::FromStr for StoveState {
    type Err = StoveStateError;

    fn from_str(s: &str) -> Result<StoveState, StoveStateError> {
        StoveState::from_text(s)
    }
}

/// Programmed-schedule mode of the device.
#[derive(Clone, Copy, Debug, PartialEq, Eq, Structural)]
pub enum StoveChronoMode {
    ChronoOff,
    ChronoSleep,
    ChronoOn1,
    ChronoOn2,
    ChronoOn3,
    ChronoOn4,
}

impl StoveChronoMode {
    /// The numeric code of the mode.
    pub fn code(&self) -> (r: u8)
        ensures
            r == match self {
                StoveChronoMode::ChronoOff => 0u8,
                StoveChronoMode::ChronoSleep => 1u8,
                StoveChronoMode::ChronoOn1 => 2u8,
                StoveChronoMode::ChronoOn2 => 3u8,
                StoveChronoMode::ChronoOn3 => 4u8,
                StoveChronoMode::ChronoOn4 => 5u8,
            },
    {
        match self {
            StoveChronoMode::ChronoOff => 0,
            StoveChronoMode::ChronoSleep => 1,
            StoveChronoMode::ChronoOn1 => 2,
            StoveChronoMode::ChronoOn2 => 3,
            StoveChronoMode::ChronoOn3 => 4,
            StoveChronoMode::ChronoOn4 => 5,
        }
    }
}

/// Manufacturer of the device.
#[derive(Clone, Copy, Debug, PartialEq, Eq, Structural)]
pub enum StoveManufacturer {
    Cmg,
    Manufacturer65,
    Manufacturer76,
    Edilkamin,
    Manufacturer100,
}

/// The manufacturer with numeric code `value`.
pub open spec fn manufacturer_of(value: u16) -> Option<StoveManufacturer> {
    if value == 9 {
        Some(StoveManufacturer::Cmg)
    } else if value == 65 {
        Some(StoveManufacturer::Manufacturer65)
    } else if value == 76 {
        Some(StoveManufacturer::Manufacturer76)
    } else if value == 85 {
        Some(StoveManufacturer::Edilkamin)
    } else if value == 100 {
        Some(StoveManufacturer::Manufacturer100)
    } else {
        None
    }
}

impl StoveManufacturer {
    /// The manufacturer with numeric code `value`, if it is a known one.
    pub fn from_u16(value: u16) -> (r: Option<StoveManufacturer>)
        ensures
            r == manufacturer_of(value),
    {
        match value {
            9 => Some(StoveManufacturer::Cmg),
            65 => Some(StoveManufacturer::Manufacturer65),
            76 => Some(StoveManufacturer::Manufacturer76),
            85 => Some(StoveManufacturer::Edilkamin),
            100 => Some(StoveManufacturer::Manufacturer100),
            _ => None,
        }
    }

    /// The name of the manufacturer.
    pub fn as_str(&self) -> (r: &'static str)
        ensures
            r@ == match self {
                StoveManufacturer::Cmg => "Cmg"@,
                StoveManufacturer::Manufacturer65 => "Manufacturer65"@,
                StoveManufacturer::Manufacturer76 => "Manufacturer76"@,
                StoveManufacturer::Edilkamin => "Edilkamin"@,
                StoveManufacturer::Manufacturer100 => "Manufacturer100"@,
            },
    {
        match self {
            StoveManufacturer::Cmg => "Cmg",
            StoveManufacturer::Manufacturer65 => "Manufacturer65",
            StoveManufacturer::Manufacturer76 => "Manufacturer76",
            StoveManufacturer::Edilkamin => "Edilkamin",
            StoveManufacturer::Manufacturer100 => "Manufacturer100",
        }
    }
}

/// Writable settings, each with its numeric action code.
#[derive(Clone, Copy, Debug, PartialEq, Eq, Structural)]
pub enum StoveCommands {
    OnOff,
    EcoMode,
    PowerLevel,
    AmbianceTemperature1,
    AmbianceTemperature2,
    FanSpeed1,
    FanSpeed2,
    FanSpeed3,
    ChronoOnOff,
    ChronoTemperature1,
    ChronoTemperature2,
    ChronoTemperature3,
    SanTemperature,
    PufTemperature,
    BoilerTemperature,
    HottohSetRecipe,
    HottohSetPelSetpoint,
}

/// The setting with action code `n`.
pub open spec fn stove_command_of(n: u32) -> Option<StoveCommands> {
    if n == 0 {
        Some(StoveCommands::OnOff)
    } else if n == 1 {
        Some(StoveCommands::EcoMode)
    } else if n == 2 {
        Some(StoveCommands::PowerLevel)
    } else if n == 3 {
        Some(StoveCommands::AmbianceTemperature1)
    } else if n == 4 {
        Some(StoveCommands::AmbianceTemperature2)
    } else if n == 5 {
        Some(StoveCommands::FanSpeed1)
    } else if n == 6 {
        Some(StoveCommands::FanSpeed2)
    } else if n == 7 {
        Some(StoveCommands::FanSpeed3)
    } else if n == 8 {
        Some(StoveCommands::ChronoOnOff)
    } else if n == 9 {
        Some(StoveCommands::ChronoTemperature1)
    } else if n == 10 {
        Some(StoveCommands::ChronoTemperature2)
    } else if n == 11 {
        Some(StoveCommands::ChronoTemperature3)
    } else if n == 12 {
        Some(StoveCommands::SanTemperature)
    } else if n == 13 {
        Some(StoveCommands::PufTemperature)
    } else if n == 14 {
        Some(StoveCommands::BoilerTemperature)
    } else if n == 15 {
        Some(StoveCommands::HottohSetRecipe)
    } else if n == 16 {
        Some(StoveCommands::HottohSetPelSetpoint)
    } else {
        None
    }
}

impl StoveCommands {
    /// The action code of the setting.
    pub open spec fn spec_code(self) -> u32 {
        match self {
            StoveCommands::OnOff => 0,
            StoveCommands::EcoMode => 1,
            StoveCommands::PowerLevel => 2,
            StoveCommands::AmbianceTemperature1 => 3,
            StoveCommands::AmbianceTemperature2 => 4,
            StoveCommands::FanSpeed1 => 5,
            StoveCommands::FanSpeed2 => 6,
            StoveCommands::FanSpeed3 => 7,
            StoveCommands::ChronoOnOff => 8,
            StoveCommands::ChronoTemperature1 => 9,
            StoveCommands::ChronoTemperature2 => 10,
            StoveCommands::ChronoTemperature3 => 11,
            StoveCommands::SanTemperature => 12,
            StoveCommands::PufTemperature => 13,
            StoveCommands::BoilerTemperature => 14,
            StoveCommands::HottohSetRecipe => 15,
            StoveCommands::HottohSetPelSetpoint => 16,
        }
    }

    /// The action code of the setting.
    pub fn code(&self) -> (r: u32)
        ensures
            r == self.spec_code(),
    {
        match self {
            StoveCommands::OnOff => 0,
            StoveCommands::EcoMode => 1,
            StoveCommands::PowerLevel => 2,
            StoveCommands::AmbianceTemperature1 => 3,
            StoveCommands::AmbianceTemperature2 => 4,
            StoveCommands::FanSpeed1 => 5,
            StoveCommands::FanSpeed2 => 6,
            StoveCommands::FanSpeed3 => 7,
            StoveCommands::ChronoOnOff => 8,
            StoveCommands::ChronoTemperature1 => 9,
            StoveCommands::ChronoTemperature2 => 10,
            StoveCommands::ChronoTemperature3 => 11,
            StoveCommands::SanTemperature => 12,
            StoveCommands::PufTemperature => 13,
            StoveCommands::BoilerTemperature => 14,
            StoveCommands::HottohSetRecipe => 15,
            StoveCommands::HottohSetPelSetpoint => 16,
        }
    }

    /// The setting with action code `n`, if any.
    pub fn from_code(n: u32) -> (r: Option<StoveCommands>)
        ensures
            r == stove_command_of(n),
            r matches Some(c) ==> c.spec_code() == n,
    {
        match n {
            0 => Some(StoveCommands::OnOff),
            1 => Some(StoveCommands::EcoMode),
            2 => Some(StoveCommands::PowerLevel),
            3 => Some(StoveCommands::AmbianceTemperature1),
            4 => Some(StoveCommands::AmbianceTemperature2),
            5 => Some(StoveCommands::FanSpeed1),
            6 => Some(StoveCommands::FanSpeed2),
            7 => Some(StoveCommands::FanSpeed3),
            8 => Some(StoveCommands::ChronoOnOff),
            9 => Some(StoveCommands::ChronoTemperature1),
            10 => Some(StoveCommands::ChronoTemperature2),
            11 => Some(StoveCommands::ChronoTemperature3),
            12 => Some(StoveCommands::SanTemperature),
            13 => Some(StoveCommands::PufTemperature),
            14 => Some(StoveCommands::BoilerTemperature),
            15 => Some(StoveCommands::HottohSetRecipe),
            16 => Some(StoveCommands::HottohSetPelSetpoint),
            _ => None,
        }
    }

    /// The name of the setting.
    pub fn as_str(&self) -> (r: &'static str)
        ensures
            r@ == match self {
                StoveCommands::OnOff => "OnOff"@,
                StoveCommands::EcoMode => "EcoMode"@,
                StoveCommands::PowerLevel => "PowerLevel"@,
                StoveCommands::AmbianceTemperature1 => "AmbianceTemperature1"@,
                StoveCommands::AmbianceTemperature2 => "AmbianceTemperature2"@,
                StoveCommands::FanSpeed1 => "FanSpeed1"@,
                StoveCommands::FanSpeed2 => "FanSpeed2"@,
                StoveCommands::FanSpeed3 => "FanSpeed3"@,
                StoveCommands::ChronoOnOff => "ChronoOnOff"@,
                StoveCommands::ChronoTemperature1 => "ChronoTemperature1"@,
                StoveCommands::ChronoTemperature2 => "ChronoTemperature2"@,
                StoveCommands::ChronoTemperature3 => "ChronoTemperature3"@,
                StoveCommands::SanTemperature => "SanTemperature"@,
                StoveCommands::PufTemperature => "PufTemperature"@,
                StoveCommands::BoilerTemperature => "BoilerTemperature"@,
                StoveCommands::HottohSetRecipe => "HottohSetRecipe"@,
                StoveCommands::HottohSetPelSetpoint => "HottohSetPelSetpoint"@,
            },
    {
        match self {
            StoveCommands::OnOff => "OnOff",
            StoveCommands::EcoMode => "EcoMode",
            StoveCommands::PowerLevel => "PowerLevel",
            StoveCommands::AmbianceTemperature1 => "AmbianceTemperature1",
            StoveCommands::AmbianceTemperature2 => "AmbianceTemperature2",
            StoveCommands::FanSpeed1 => "FanSpeed1",
            StoveCommands::FanSpeed2 => "FanSpeed2",
            StoveCommands::FanSpeed3 => "FanSpeed3",
            StoveCommands::ChronoOnOff => "ChronoOnOff",
            StoveCommands::ChronoTemperature1 => "ChronoTemperature1",
            StoveCommands::ChronoTemperature2 => "ChronoTemperature2",
            StoveCommands::ChronoTemperature3 => "ChronoTemperature3",
            StoveCommands::SanTemperature => "SanTemperature",
            StoveCommands::PufTemperature => "PufTemperature",
            StoveCommands::BoilerTemperature => "BoilerTemperature",
            StoveCommands::HottohSetRecipe => "HottohSetRecipe",
            StoveCommands::HottohSetPelSetpoint => "HottohSetPelSetpoint",
        }
    }
}

} // verus!
