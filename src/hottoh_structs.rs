//! Payload records decoded from the fields of a response, one per command
//! category, and the frame checksum.

use vstd::prelude::*;
use crate::codec::{
    format_padded, hex4, joined_text, parse_signed_text, parse_unsigned_text, same_text,
    spec_parse_i16, spec_parse_u16,
};
use crate::hottoh_const::{stove_state_from_text, StoveState};
use crate::tcp_client_structs::ResponseError;
use vstd::utf8::encode_utf8;

verus! {

/// The characters of each field.
pub open spec fn texts(d: Seq<&str>) -> Seq<Seq<char>> {
    d.map_values(|s: &str| s@)
}

/// A flag field: "0" or "1".
pub open spec fn spec_parse_bool(s: Seq<char>) -> Option<bool> {
    if s == "0"@ {
        Some(false)
    } else if s == "1"@ {
        Some(true)
    } else {
        None
    }
}

/// The facets of the device-type bitmask `t`: boiler (bit 6), domestic hot
/// water (bit 5), number of fans (bits 2 and 3), room sensors 1, 2 and 3
/// (bits 0, 8 and 7), water sensor (bit 1) and pump (bit 4).
pub open spec fn stove_type_facets(
    t: u16,
    boiler: bool,
    domestic_hot_water: bool,
    fans: u16,
    room1: bool,
    room2: bool,
    room3: bool,
    water: bool,
    pump: bool,
) -> bool {
    &&& boiler == ((t & 0x40) != 0)
    &&& domestic_hot_water == ((t & 0x20) != 0)
    &&& fans == ((t >> 2u16) & 3)
    &&& room1 == ((t & 0x1) != 0)
    &&& room2 == ((t & 0x100) != 0)
    &&& room3 == ((t & 0x80) != 0)
    &&& water == ((t & 0x2) != 0)
    &&& pump == ((t & 0x10) != 0)
}

/// Name for the CRC-16/CCITT-FALSE checksum (polynomial 0x1021, initial
/// value 0xFFFF, no reflection, no final xor) of a byte string.
pub uninterp spec fn crc16_ccitt_false(data: Seq<u8>) -> u16;

/// Relies on crc_any's `CRCu16::crc16ccitt_false`, `CRCu16::digest` and
/// `CRCu16::get_crc`: the CRC-16/CCITT-FALSE of `data`.
#[verifier::external_body]
fn crc16_of(data: &[u8]) -> (r: u16)
    ensures
        r == crc16_ccitt_false(data@),
{
    let mut crc = crc_any::CRCu16::crc16ccitt_false();
    crc.digest(data);
    crc.get_crc()
}

/// Relies on chrono's `Local::now` and `DateTime::to_rfc3339_opts`: the local
/// time now as RFC 3339 text to the second. Nothing is known of the text.
#[verifier::external_body]
fn capture_timestamp() -> String {
    chrono::Local::now().to_rfc3339_opts(chrono::SecondsFormat::Secs, true)
}

/// The checksum field of a frame: the CRC-16/CCITT-FALSE of the bytes of
/// `data` as four upper-case hexadecimal digits.
pub fn calculate_checksum(data: &str) -> (r: String)
    ensures
        r@ == hex4(crc16_ccitt_false(encode_utf8(data@)) as nat),
{
    let crc = crc16_of(data.as_bytes());
    format_padded(crc as u64, 16, 4)
}

/// Reads a flag field: "0" or "1".
pub fn parse_bool(s: &str) -> (r: Result<bool, String>)
    ensures
        match spec_parse_bool(s@) {
            Some(b) => r matches Ok(v) && v == b,
            None => r is Err,
        },
{
    if same_text(s, "0") {
        Ok(false)
    } else if same_text(s, "1") {
        Ok(true)
    } else {
        Err(joined_text("Invalid boolean string: ", s))
    }
}

fn u16_field(d: &[&str], i: usize, label: &str) -> (r: Result<u16, ResponseError>)
    requires
        i < d@.len(),
    ensures
        match spec_parse_u16(d@[i as int]@) {
            Some(v) => r matches Ok(x) && x == v,
            None => r matches Err(e) && e is IncorrectResponseStruct,
        },
{
    match parse_unsigned_text(d[i], 10, 65535) {
        Some(v) => Ok(v as u16),
        None => Err(ResponseError::IncorrectResponseStruct(joined_text(label, d[i]))),
    }
}

fn i16_field(d: &[&str], i: usize, label: &str) -> (r: Result<i16, ResponseError>)
    requires
        i < d@.len(),
    ensures
        match spec_parse_i16(d@[i as int]@) {
            Some(v) => r matches Ok(x) && x == v,
            None => r matches Err(e) && e is IncorrectResponseStruct,
        },
{
    match parse_signed_text(d[i], -32768, 32767) {
        Some(v) => Ok(v as i16),
        None => Err(ResponseError::IncorrectResponseStruct(joined_text(label, d[i]))),
    }
}

fn bool_field(d: &[&str], i: usize, label: &str) -> (r: Result<bool, ResponseError>)
    requires
        i < d@.len(),
    ensures
        match spec_parse_bool(d@[i as int]@) {
            Some(v) => r matches Ok(x) && x == v,
            None => r matches Err(e) && e is IncorrectResponseStruct,
        },
{
    match parse_bool(d[i]) {
        Ok(v) => Ok(v),
        Err(_) => Err(ResponseError::IncorrectResponseStruct(joined_text(label, d[i]))),
    }
}

fn state_field(d: &[&str], i: usize, label: &str) -> (r: Result<StoveState, ResponseError>)
    requires
        i < d@.len(),
    ensures
        match stove_state_from_text(d@[i as int]@) {
            Some(v) => r matches Ok(x) && x == v,
            None => r matches Err(e) && e is IncorrectResponseStruct,
        },
{
    match StoveState::from_text(d[i]) {
        Ok(v) => Ok(v),
        Err(_) => Err(ResponseError::IncorrectResponseStruct(joined_text(label, d[i]))),
    }
}

/// Device information: hostname, firmware version and signal strength.
#[derive(Debug, PartialEq)]
pub struct INFData {
    pub hostname: String,
    pub version: String,
    pub signal: String,
    /// Local time at which the record was decoded (RFC 3339).
    pub last_updated: String,
}

impl INFData {
    /// Decodes the record from exactly three fields; the capture time is now.
    pub fn from_slice(response_data: &[&str]) -> (r: Result<Self, ResponseError>)
        ensures
            r is Ok <==> response_data@.len() == 3,
            r matches Ok(v) ==> v.hostname@ == response_data@[0]@ && v.version@
                == response_data@[1]@ && v.signal@ == response_data@[2]@,
            r matches Err(e) ==> e is IncorrectResponseStruct,
    {
        if response_data.len() != 3 {
            return Err(
                ResponseError::IncorrectResponseStruct(
                    String::from_str("Incorrect number of elements"),
                ),
            );
        }
        Ok(INFData {
            hostname: String::from_str(response_data[0]),
            version: String::from_str(response_data[1]),
            signal: String::from_str(response_data[2]),
            last_updated: capture_timestamp(),
        })
    }
}

impl Clone for INFData {
    fn clone(&self) -> (r: Self)
        ensures
            r == *self,
    {
        INFData {
            hostname: self.hostname.clone(),
            version: self.version.clone(),
            signal: self.signal.clone(),
            last_updated: self.last_updated.clone(),
        }
    }
}

impl Default for INFData {
    fn default() -> (r: Self)
        ensures
            blank_inf(r),
    {
        INFData {
            hostname: String::new(),
            version: String::new(),
            signal: String::new(),
            last_updated: String::new(),
        }
    }
}

/// Acknowledgement of a write: the single field the device sends back.
#[derive(Debug, PartialEq)]
pub struct DATReqResponseData {
    pub value: String,
}

impl DATReqResponseData {
    /// Decodes the acknowledgement from exactly one field.
    pub fn from_slice(response_data: &[&str]) -> (r: Result<Self, ResponseError>)
        ensures
            r is Ok <==> response_data@.len() == 1,
            r matches Ok(v) ==> v.value@ == response_data@[0]@,
            r matches Err(e) ==> e is IncorrectResponseStruct,
    {
        if response_data.len() != 1 {
            return Err(
                ResponseError::IncorrectResponseStruct(
                    String::from_str("Incorrect number of elements"),
                ),
            );
        }
        Ok(DATReqResponseData { value: String::from_str(response_data[0]) })
    }
}

/// Data page 0: state, temperatures in tenths of a degree, power and fans.
#[derive(Debug, PartialEq)]
pub struct DAT0Data {
    pub index_page: u16,
    pub index_manufacturer: u16,
    pub index_bitmap_visible: bool,
    pub index_valid: bool,
    pub index_stove_type: u16,
    pub index_stove_state: StoveState,
    pub index_stove_on: bool,
    pub index_eco_mode: bool,
    pub index_timer_on: u16,
    pub index_ambient_t1: i16,
    pub index_ambient_t1_set: i16,
    pub index_ambient_t1_set_min: i16,
    pub index_ambient_t1_set_max: i16,
    pub index_ambient_t2: i16,
    pub index_ambient_t2_set: i16,
    pub index_ambient_t2_set_min: i16,
    pub index_ambient_t2_set_max: i16,
    pub index_water: i16,
    pub index_water_set: i16,
    pub index_water_set_min: i16,
    pub index_water_set_max: i16,
    pub index_smoke_t: i16,
    pub index_power_level: u16,
    pub index_power_set: u16,
    pub index_power_min: u16,
    pub index_power_max: u16,
    pub index_fan_smoke: u16,
    pub index_fan_1: u16,
    pub index_fan_1_set: u16,
    pub index_fan_1_set_max: u16,
    pub index_fan_2: u16,
    pub index_fan_2_set: u16,
    pub index_fan_2_set_max: u16,
    pub index_fan_3: u16,
    pub index_fan_3_set: u16,
    pub index_fan_3_set_max: u16,
    pub boiler_enabled: bool,
    pub domestic_hot_water_enabled: bool,
    pub fan_number: u16,
    pub temp_room1_enabled: bool,
    pub temp_room2_enabled: bool,
    pub temp_room3_enabled: bool,
    pub temp_water_enabled: bool,
    pub pump_enabled: bool,
    /// Local time at which the record was decoded (RFC 3339).
    pub last_updated: String,
}

/// Whether `d` holds 36 fields that all read as the types of `DAT0Data`.
pub open spec fn dat0_parses(d: Seq<Seq<char>>) -> bool {
    &&& d.len() == 36
    &&& spec_parse_u16(d[0]) is Some
    &&& spec_parse_u16(d[1]) is Some
    &&& spec_parse_bool(d[2]) is Some
    &&& spec_parse_bool(d[3]) is Some
    &&& spec_parse_u16(d[4]) is Some
    &&& stove_state_from_text(d[5]) is Some
    &&& spec_parse_bool(d[6]) is Some
    &&& spec_parse_bool(d[7]) is Some
    &&& spec_parse_u16(d[8]) is Some
    &&& spec_parse_i16(d[9]) is Some
    &&& spec_parse_i16(d[10]) is Some
    &&& spec_parse_i16(d[11]) is Some
    &&& spec_parse_i16(d[12]) is Some
    &&& spec_parse_i16(d[13]) is Some
    &&& spec_parse_i16(d[14]) is Some
    &&& spec_parse_i16(d[15]) is Some
    &&& spec_parse_i16(d[16]) is Some
    &&& spec_parse_i16(d[17]) is Some
    &&& spec_parse_i16(d[18]) is Some
    &&& spec_parse_i16(d[19]) is Some
    &&& spec_parse_i16(d[20]) is Some
    &&& spec_parse_i16(d[21]) is Some
    &&& spec_parse_u16(d[22]) is Some
    &&& spec_parse_u16(d[23]) is Some
    &&& spec_parse_u16(d[24]) is Some
    &&& spec_parse_u16(d[25]) is Some
    &&& spec_parse_u16(d[26]) is Some
    &&& spec_parse_u16(d[27]) is Some
    &&& spec_parse_u16(d[28]) is Some
    &&& spec_parse_u16(d[29]) is Some
    &&& spec_parse_u16(d[30]) is Some
    &&& spec_parse_u16(d[31]) is Some
    &&& spec_parse_u16(d[32]) is Some
    &&& spec_parse_u16(d[33]) is Some
    &&& spec_parse_u16(d[34]) is Some
    &&& spec_parse_u16(d[35]) is Some
}

/// Whether `r` holds the values read from `d`, the capture time aside.
pub open spec fn dat0_decoded(r: DAT0Data, d: Seq<Seq<char>>) -> bool {
    &&& spec_parse_u16(d[0]) == Some(r.index_page)
    &&& spec_parse_u16(d[1]) == Some(r.index_manufacturer)
    &&& spec_parse_bool(d[2]) == Some(r.index_bitmap_visible)
    &&& spec_parse_bool(d[3]) == Some(r.index_valid)
    &&& spec_parse_u16(d[4]) == Some(r.index_stove_type)
    &&& stove_state_from_text(d[5]) == Some(r.index_stove_state)
    &&& spec_parse_bool(d[6]) == Some(r.index_stove_on)
    &&& spec_parse_bool(d[7]) == Some(r.index_eco_mode)
    &&& spec_parse_u16(d[8]) == Some(r.index_timer_on)
    &&& spec_parse_i16(d[9]) == Some(r.index_ambient_t1)
    &&& spec_parse_i16(d[10]) == Some(r.index_ambient_t1_set)
    &&& spec_parse_i16(d[11]) == Some(r.index_ambient_t1_set_min)
    &&& spec_parse_i16(d[12]) == Some(r.index_ambient_t1_set_max)
    &&& spec_parse_i16(d[13]) == Some(r.index_ambient_t2)
    &&& spec_parse_i16(d[14]) == Some(r.index_ambient_t2_set)
    &&& spec_parse_i16(d[15]) == Some(r.index_ambient_t2_set_min)
    &&& spec_parse_i16(d[16]) == Some(r.index_ambient_t2_set_max)
    &&& spec_parse_i16(d[17]) == Some(r.index_water)
    &&& spec_parse_i16(d[18]) == Some(r.index_water_set)
    &&& spec_parse_i16(d[19]) == Some(r.index_water_set_min)
    &&& spec_parse_i16(d[20]) == Some(r.index_water_set_max)
    &&& spec_parse_i16(d[21]) == Some(r.index_smoke_t)
    &&& spec_parse_u16(d[22]) == Some(r.index_power_level)
    &&& spec_parse_u16(d[23]) == Some(r.index_power_set)
    &&& spec_parse_u16(d[24]) == Some(r.index_power_min)
    &&& spec_parse_u16(d[25]) == Some(r.index_power_max)
    &&& spec_parse_u16(d[26]) == Some(r.index_fan_smoke)
    &&& spec_parse_u16(d[27]) == Some(r.index_fan_1)
    &&& spec_parse_u16(d[28]) == Some(r.index_fan_1_set)
    &&& spec_parse_u16(d[29]) == Some(r.index_fan_1_set_max)
    &&& spec_parse_u16(d[30]) == Some(r.index_fan_2)
    &&& spec_parse_u16(d[31]) == Some(r.index_fan_2_set)
    &&& spec_parse_u16(d[32]) == Some(r.index_fan_2_set_max)
    &&& spec_parse_u16(d[33]) == Some(r.index_fan_3)
    &&& spec_parse_u16(d[34]) == Some(r.index_fan_3_set)
    &&& spec_parse_u16(d[35]) == Some(r.index_fan_3_set_max)
    &&& stove_type_facets(r.index_stove_type, r.boiler_enabled, r.domestic_hot_water_enabled,
        r.fan_number, r.temp_room1_enabled, r.temp_room2_enabled, r.temp_room3_enabled,
        r.temp_water_enabled, r.pump_enabled)
}

impl DAT0Data {
    /// Decodes the record from the fields of a response; the capture time is now.
    pub fn from_slice(response_data: &[&str]) -> (r: Result<Self, ResponseError>)
        ensures
            r is Ok <==> dat0_parses(texts(response_data@)),
            r matches Ok(v) ==> dat0_decoded(v, texts(response_data@)),
            r matches Err(e) ==> e is IncorrectResponseStruct,
    {
        if response_data.len() != 36 {
            return Err(ResponseError::IncorrectResponseStruct(String::from_str("Incorrect number of elements in DAT0 struct")));
        }
        let ghost d = texts(response_data@);
        let index_page = u16_field(response_data, 0, "Invalid index_page: ")?;
        let index_manufacturer = u16_field(response_data, 1, "Invalid index_manufacturer: ")?;
        let index_bitmap_visible = bool_field(response_data, 2, "Invalid index_bitmap_visible: ")?;
        let index_valid = bool_field(response_data, 3, "Invalid index_valid: ")?;
        let index_stove_type = u16_field(response_data, 4, "Invalid index_stove_type: ")?;
        let index_stove_state = state_field(response_data, 5, "Invalid index_stove_state: ")?;
        let index_stove_on = bool_field(response_data, 6, "Invalid index_stove_on: ")?;
        let index_eco_mode = bool_field(response_data, 7, "Invalid index_eco_mode: ")?;
        let index_timer_on = u16_field(response_data, 8, "Invalid index_timer_on: ")?;
        let index_ambient_t1 = i16_field(response_data, 9, "Invalid index_ambient_t1: ")?;
        let index_ambient_t1_set = i16_field(response_data, 10, "Invalid index_ambient_t1_set: ")?;
        let index_ambient_t1_set_min = i16_field(response_data, 11, "Invalid index_ambient_t1_set_min: ")?;
        let index_ambient_t1_set_max = i16_field(response_data, 12, "Invalid index_ambient_t1_set_max: ")?;
        let index_ambient_t2 = i16_field(response_data, 13, "Invalid index_ambient_t2: ")?;
        let index_ambient_t2_set = i16_field(response_data, 14, "Invalid index_ambient_t2_set: ")?;
        let index_ambient_t2_set_min = i16_field(response_data, 15, "Invalid index_ambient_t2_set_min: ")?;
        let index_ambient_t2_set_max = i16_field(response_data, 16, "Invalid index_ambient_t2_set_max: ")?;
        let index_water = i16_field(response_data, 17, "Invalid index_water: ")?;
        let index_water_set = i16_field(response_data, 18, "Invalid index_water_set: ")?;
        let index_water_set_min = i16_field(response_data, 19, "Invalid index_water_set_min: ")?;
        let index_water_set_max = i16_field(response_data, 20, "Invalid index_water_set_max: ")?;
        let index_smoke_t = i16_field(response_data, 21, "Invalid index_smoke_t: ")?;
        let index_power_level = u16_field(response_data, 22, "Invalid index_power_level: ")?;
        let index_power_set = u16_field(response_data, 23, "Invalid index_power_set: ")?;
        let index_power_min = u16_field(response_data, 24, "Invalid index_power_min: ")?;
        let index_power_max = u16_field(response_data, 25, "Invalid index_power_max: ")?;
        let index_fan_smoke = u16_field(response_data, 26, "Invalid index_fan_smoke: ")?;
        let index_fan_1 = u16_field(response_data, 27, "Invalid index_fan_1: ")?;
        let index_fan_1_set = u16_field(response_data, 28, "Invalid index_fan_1_set: ")?;
        let index_fan_1_set_max = u16_field(response_data, 29, "Invalid index_fan_1_set_max: ")?;
        let index_fan_2 = u16_field(response_data, 30, "Invalid index_fan_2: ")?;
        let index_fan_2_set = u16_field(response_data, 31, "Invalid index_fan_2_set: ")?;
        let index_fan_2_set_max = u16_field(response_data, 32, "Invalid index_fan_2_set_max: ")?;
        let index_fan_3 = u16_field(response_data, 33, "Invalid index_fan_3: ")?;
        let index_fan_3_set = u16_field(response_data, 34, "Invalid index_fan_3_set: ")?;
        let index_fan_3_set_max = u16_field(response_data, 35, "Invalid index_fan_3_set_max: ")?;
        let t = index_stove_type;
        let boiler_enabled = (t & 0x40) != 0;
        let domestic_hot_water_enabled = (t & 0x20) != 0;
        let fan_number = (t >> 2u16) & 3;
        let temp_room1_enabled = (t & 0x1) != 0;
        let temp_room2_enabled = (t & 0x100) != 0;
        let temp_room3_enabled = (t & 0x80) != 0;
        let temp_water_enabled = (t & 0x2) != 0;
        let pump_enabled = (t & 0x10) != 0;
        Ok(DAT0Data {
            index_page,
            index_manufacturer,
            index_bitmap_visible,
            index_valid,
            index_stove_type,
            index_stove_state,
            index_stove_on,
            index_eco_mode,
            index_timer_on,
            index_ambient_t1,
            index_ambient_t1_set,
            index_ambient_t1_set_min,
            index_ambient_t1_set_max,
            index_ambient_t2,
            index_ambient_t2_set,
            index_ambient_t2_set_min,
            index_ambient_t2_set_max,
            index_water,
            index_water_set,
            index_water_set_min,
            index_water_set_max,
            index_smoke_t,
            index_power_level,
            index_power_set,
            index_power_min,
            index_power_max,
            index_fan_smoke,
            index_fan_1,
            index_fan_1_set,
            index_fan_1_set_max,
            index_fan_2,
            index_fan_2_set,
            index_fan_2_set_max,
            index_fan_3,
            index_fan_3_set,
            index_fan_3_set_max,
            boiler_enabled,
            domestic_hot_water_enabled,
            fan_number,
            temp_room1_enabled,
            temp_room2_enabled,
            temp_room3_enabled,
            temp_water_enabled,
            pump_enabled,
            last_updated: capture_timestamp(),
        })
    }
}

impl Clone for DAT0Data {
    fn clone(&self) -> (r: Self)
        ensures
            r == *self,
    {
        DAT0Data {
            index_page: self.index_page,
            index_manufacturer: self.index_manufacturer,
            index_bitmap_visible: self.index_bitmap_visible,
            index_valid: self.index_valid,
            index_stove_type: self.index_stove_type,
            index_stove_state: self.index_stove_state,
            index_stove_on: self.index_stove_on,
            index_eco_mode: self.index_eco_mode,
            index_timer_on: self.index_timer_on,
            index_ambient_t1: self.index_ambient_t1,
            index_ambient_t1_set: self.index_ambient_t1_set,
            index_ambient_t1_set_min: self.index_ambient_t1_set_min,
            index_ambient_t1_set_max: self.index_ambient_t1_set_max,
            index_ambient_t2: self.index_ambient_t2,
            index_ambient_t2_set: self.index_ambient_t2_set,
            index_ambient_t2_set_min: self.index_ambient_t2_set_min,
            index_ambient_t2_set_max: self.index_ambient_t2_set_max,
            index_water: self.index_water,
            index_water_set: self.index_water_set,
            index_water_set_min: self.index_water_set_min,
            index_water_set_max: self.index_water_set_max,
            index_smoke_t: self.index_smoke_t,
            index_power_level: self.index_power_level,
            index_power_set: self.index_power_set,
            index_power_min: self.index_power_min,
            index_power_max: self.index_power_max,
            index_fan_smoke: self.index_fan_smoke,
            index_fan_1: self.index_fan_1,
            index_fan_1_set: self.index_fan_1_set,
            index_fan_1_set_max: self.index_fan_1_set_max,
            index_fan_2: self.index_fan_2,
            index_fan_2_set: self.index_fan_2_set,
            index_fan_2_set_max: self.index_fan_2_set_max,
            index_fan_3: self.index_fan_3,
            index_fan_3_set: self.index_fan_3_set,
            index_fan_3_set_max: self.index_fan_3_set_max,
            boiler_enabled: self.boiler_enabled,
            domestic_hot_water_enabled: self.domestic_hot_water_enabled,
            fan_number: self.fan_number,
            temp_room1_enabled: self.temp_room1_enabled,
            temp_room2_enabled: self.temp_room2_enabled,
            temp_room3_enabled: self.temp_room3_enabled,
            temp_water_enabled: self.temp_water_enabled,
            pump_enabled: self.pump_enabled,
            last_updated: self.last_updated.clone(),
        }
    }
}

impl Default for DAT0Data {
    fn default() -> (r: Self)
        ensures
            blank_dat0(r),
    {
        DAT0Data {
            index_page: 0,
            index_manufacturer: 0,
            index_bitmap_visible: false,
            index_valid: false,
            index_stove_type: 0,
            index_stove_state: StoveState::Off,
            index_stove_on: false,
            index_eco_mode: false,
            index_timer_on: 0,
            index_ambient_t1: 0,
            index_ambient_t1_set: 0,
            index_ambient_t1_set_min: 0,
            index_ambient_t1_set_max: 0,
            index_ambient_t2: 0,
            index_ambient_t2_set: 0,
            index_ambient_t2_set_min: 0,
            index_ambient_t2_set_max: 0,
            index_water: 0,
            index_water_set: 0,
            index_water_set_min: 0,
            index_water_set_max: 0,
            index_smoke_t: 0,
            index_power_level: 0,
            index_power_set: 0,
            index_power_min: 0,
            index_power_max: 0,
            index_fan_smoke: 0,
            index_fan_1: 0,
            index_fan_1_set: 0,
            index_fan_1_set_max: 0,
            index_fan_2: 0,
            index_fan_2_set: 0,
            index_fan_2_set_max: 0,
            index_fan_3: 0,
            index_fan_3_set: 0,
            index_fan_3_set_max: 0,
            boiler_enabled: false,
            domestic_hot_water_enabled: false,
            fan_number: 0,
            temp_room1_enabled: false,
            temp_room2_enabled: false,
            temp_room3_enabled: false,
            temp_water_enabled: false,
            pump_enabled: false,
            last_updated: String::new(),
        }
    }
}

/// Data page 1: further temperatures in tenths of a degree.
#[derive(Debug, PartialEq)]
pub struct DAT1Data {
    pub index_page: i16,
    pub index_state: bool,
    pub index_temperature_1: i16,
    pub index_temperature_1_min: i16,
    pub index_temperature_1_max: i16,
    pub index_temperature_2: i16,
    pub index_temperature_2_min: i16,
    pub index_temperature_2_max: i16,
    pub index_temperature_3: i16,
    pub index_temperature_3_min: i16,
    pub index_temperature_3_max: i16,
    /// Local time at which the record was decoded (RFC 3339).
    pub last_updated: String,
}

/// Whether `d` holds 11 fields that all read as the types of `DAT1Data`.
pub open spec fn dat1_parses(d: Seq<Seq<char>>) -> bool {
    &&& d.len() == 11
    &&& spec_parse_i16(d[0]) is Some
    &&& spec_parse_bool(d[0]) is Some
    &&& spec_parse_i16(d[1]) is Some
    &&& spec_parse_i16(d[2]) is Some
    &&& spec_parse_i16(d[3]) is Some
    &&& spec_parse_i16(d[4]) is Some
    &&& spec_parse_i16(d[5]) is Some
    &&& spec_parse_i16(d[6]) is Some
    &&& spec_parse_i16(d[7]) is Some
    &&& spec_parse_i16(d[8]) is Some
    &&& spec_parse_i16(d[9]) is Some
}

/// Whether `r` holds the values read from `d`, the capture time aside.
pub open spec fn dat1_decoded(r: DAT1Data, d: Seq<Seq<char>>) -> bool {
    &&& spec_parse_i16(d[0]) == Some(r.index_page)
    &&& spec_parse_bool(d[0]) == Some(r.index_state)
    &&& spec_parse_i16(d[1]) == Some(r.index_temperature_1)
    &&& spec_parse_i16(d[2]) == Some(r.index_temperature_1_min)
    &&& spec_parse_i16(d[3]) == Some(r.index_temperature_1_max)
    &&& spec_parse_i16(d[4]) == Some(r.index_temperature_2)
    &&& spec_parse_i16(d[5]) == Some(r.index_temperature_2_min)
    &&& spec_parse_i16(d[6]) == Some(r.index_temperature_2_max)
    &&& spec_parse_i16(d[7]) == Some(r.index_temperature_3)
    &&& spec_parse_i16(d[8]) == Some(r.index_temperature_3_min)
    &&& spec_parse_i16(d[9]) == Some(r.index_temperature_3_max)
}

impl DAT1Data {
    /// Decodes the record from the fields of a response; the capture time is now.
    pub fn from_slice(response_data: &[&str]) -> (r: Result<Self, ResponseError>)
        ensures
            r is Ok <==> dat1_parses(texts(response_data@)),
            r matches Ok(v) ==> dat1_decoded(v, texts(response_data@)),
            r matches Err(e) ==> e is IncorrectResponseStruct,
    {
        if response_data.len() != 11 {
            return Err(ResponseError::IncorrectResponseStruct(String::from_str("Incorrect number of elements in DAT1 struct")));
        }
        let ghost d = texts(response_data@);
        let index_page = i16_field(response_data, 0, "Invalid index_page: ")?;
        let index_state = bool_field(response_data, 0, "Invalid index_state: ")?;
        let index_temperature_1 = i16_field(response_data, 1, "Invalid index_temperature_1: ")?;
        let index_temperature_1_min = i16_field(response_data, 2, "Invalid index_temperature_1_min: ")?;
        let index_temperature_1_max = i16_field(response_data, 3, "Invalid index_temperature_1_max: ")?;
        let index_temperature_2 = i16_field(response_data, 4, "Invalid index_temperature_2: ")?;
        let index_temperature_2_min = i16_field(response_data, 5, "Invalid index_temperature_2_min: ")?;
        let index_temperature_2_max = i16_field(response_data, 6, "Invalid index_temperature_2_max: ")?;
        let index_temperature_3 = i16_field(response_data, 7, "Invalid index_temperature_3: ")?;
        let index_temperature_3_min = i16_field(response_data, 8, "Invalid index_temperature_3_min: ")?;
        let index_temperature_3_max = i16_field(response_data, 9, "Invalid index_temperature_3_max: ")?;
        Ok(DAT1Data {
            index_page,
            index_state,
            index_temperature_1,
            index_temperature_1_min,
            index_temperature_1_max,
            index_temperature_2,
            index_temperature_2_min,
            index_temperature_2_max,
            index_temperature_3,
            index_temperature_3_min,
            index_temperature_3_max,
            last_updated: capture_timestamp(),
        })
    }
}

impl Clone for DAT1Data {
    fn clone(&self) -> (r: Self)
        ensures
            r == *self,
    {
        DAT1Data {
            index_page: self.index_page,
            index_state: self.index_state,
            index_temperature_1: self.index_temperature_1,
            index_temperature_1_min: self.index_temperature_1_min,
            index_temperature_1_max: self.index_temperature_1_max,
            index_temperature_2: self.index_temperature_2,
            index_temperature_2_min: self.index_temperature_2_min,
            index_temperature_2_max: self.index_temperature_2_max,
            index_temperature_3: self.index_temperature_3,
            index_temperature_3_min: self.index_temperature_3_min,
            index_temperature_3_max: self.index_temperature_3_max,
            last_updated: self.last_updated.clone(),
        }
    }
}

impl Default for DAT1Data {
    fn default() -> (r: Self)
        ensures
            blank_dat1(r),
    {
        DAT1Data {
            index_page: 0,
            index_state: false,
            index_temperature_1: 0,
            index_temperature_1_min: 0,
            index_temperature_1_max: 0,
            index_temperature_2: 0,
            index_temperature_2_min: 0,
            index_temperature_2_max: 0,
            index_temperature_3: 0,
            index_temperature_3_min: 0,
            index_temperature_3_max: 0,
            last_updated: String::new(),
        }
    }
}

/// Data page 2: pumps, valves and water circuits in tenths of a degree.
#[derive(Debug, PartialEq)]
pub struct DAT2Data {
    pub index_page: i16,
    pub index_flow_switch: u16,
    pub index_generic_pump: u16,
    pub index_airex_1: u16,
    pub index_airex_2: u16,
    pub index_airex_3: u16,
    pub index_puffer: i16,
    pub index_puffer_set: i16,
    pub index_puffer_set_min: i16,
    pub index_puffer_set_max: i16,
    pub index_boiler: i16,
    pub index_boiler_set: i16,
    pub index_boiler_set_min: i16,
    pub index_boiler_set_max: i16,
    pub index_dhw: i16,
    pub index_dhw_set: i16,
    pub index_dhw_set_min: i16,
    pub index_dhw_set_max: i16,
    pub index_room_temp_3: i16,
    pub index_room_temp_3_set: i16,
    pub index_room_temp_3_set_min: i16,
    pub index_room_temp_3_set_max: i16,
    /// Local time at which the record was decoded (RFC 3339).
    pub last_updated: String,
}

/// Whether `d` holds 22 fields that all read as the types of `DAT2Data`.
pub open spec fn dat2_parses(d: Seq<Seq<char>>) -> bool {
    &&& d.len() == 22
    &&& spec_parse_i16(d[0]) is Some
    &&& spec_parse_u16(d[1]) is Some
    &&& spec_parse_u16(d[2]) is Some
    &&& spec_parse_u16(d[3]) is Some
    &&& spec_parse_u16(d[4]) is Some
    &&& spec_parse_u16(d[5]) is Some
    &&& spec_parse_i16(d[6]) is Some
    &&& spec_parse_i16(d[7]) is Some
    &&& spec_parse_i16(d[8]) is Some
    &&& spec_parse_i16(d[9]) is Some
    &&& spec_parse_i16(d[10]) is Some
    &&& spec_parse_i16(d[11]) is Some
    &&& spec_parse_i16(d[12]) is Some
    &&& spec_parse_i16(d[13]) is Some
    &&& spec_parse_i16(d[14]) is Some
    &&& spec_parse_i16(d[15]) is Some
    &&& spec_parse_i16(d[16]) is Some
    &&& spec_parse_i16(d[17]) is Some
    &&& spec_parse_i16(d[18]) is Some
    &&& spec_parse_i16(d[19]) is Some
    &&& spec_parse_i16(d[20]) is Some
    &&& spec_parse_i16(d[21]) is Some
}

/// Whether `r` holds the values read from `d`, the capture time aside.
pub open spec fn dat2_decoded(r: DAT2Data, d: Seq<Seq<char>>) -> bool {
    &&& spec_parse_i16(d[0]) == Some(r.index_page)
    &&& spec_parse_u16(d[1]) == Some(r.index_flow_switch)
    &&& spec_parse_u16(d[2]) == Some(r.index_generic_pump)
    &&& spec_parse_u16(d[3]) == Some(r.index_airex_1)
    &&& spec_parse_u16(d[4]) == Some(r.index_airex_2)
    &&& spec_parse_u16(d[5]) == Some(r.index_airex_3)
    &&& spec_parse_i16(d[6]) == Some(r.index_puffer)
    &&& spec_parse_i16(d[7]) == Some(r.index_puffer_set)
    &&& spec_parse_i16(d[8]) == Some(r.index_puffer_set_min)
    &&& spec_parse_i16(d[9]) == Some(r.index_puffer_set_max)
    &&& spec_parse_i16(d[10]) == Some(r.index_boiler)
    &&& spec_parse_i16(d[11]) == Some(r.index_boiler_set)
    &&& spec_parse_i16(d[12]) == Some(r.index_boiler_set_min)
    &&& spec_parse_i16(d[13]) == Some(r.index_boiler_set_max)
    &&& spec_parse_i16(d[14]) == Some(r.index_dhw)
    &&& spec_parse_i16(d[15]) == Some(r.index_dhw_set)
    &&& spec_parse_i16(d[16]) == Some(r.index_dhw_set_min)
    &&& spec_parse_i16(d[17]) == Some(r.index_dhw_set_max)
    &&& spec_parse_i16(d[18]) == Some(r.index_room_temp_3)
    &&& spec_parse_i16(d[19]) == Some(r.index_room_temp_3_set)
    &&& spec_parse_i16(d[20]) == Some(r.index_room_temp_3_set_min)
    &&& spec_parse_i16(d[21]) == Some(r.index_room_temp_3_set_max)
}

impl DAT2Data {
    /// Decodes the record from the fields of a response; the capture time is now.
    pub fn from_slice(response_data: &[&str]) -> (r: Result<Self, ResponseError>)
        ensures
            r is Ok <==> dat2_parses(texts(response_data@)),
            r matches Ok(v) ==> dat2_decoded(v, texts(response_data@)),
            r matches Err(e) ==> e is IncorrectResponseStruct,
    {
        if response_data.len() != 22 {
            return Err(ResponseError::IncorrectResponseStruct(String::from_str("Incorrect number of elements in DAT2 struct")));
        }
        let ghost d = texts(response_data@);
        let index_page = i16_field(response_data, 0, "Invalid index_page: ")?;
        let index_flow_switch = u16_field(response_data, 1, "Invalid index_flow_switch: ")?;
        let index_generic_pump = u16_field(response_data, 2, "Invalid index_generic_pump: ")?;
        let index_airex_1 = u16_field(response_data, 3, "Invalid index_airex_1: ")?;
        let index_airex_2 = u16_field(response_data, 4, "Invalid index_airex_2: ")?;
        let index_airex_3 = u16_field(response_data, 5, "Invalid index_airex_3: ")?;
        let index_puffer = i16_field(response_data, 6, "Invalid index_puffer: ")?;
        let index_puffer_set = i16_field(response_data, 7, "Invalid index_puffer_set: ")?;
        let index_puffer_set_min = i16_field(response_data, 8, "Invalid index_puffer_set_min: ")?;
        let index_puffer_set_max = i16_field(response_data, 9, "Invalid index_puffer_set_max: ")?;
        let index_boiler = i16_field(response_data, 10, "Invalid index_boiler: ")?;
        let index_boiler_set = i16_field(response_data, 11, "Invalid index_boiler_set: ")?;
        let index_boiler_set_min = i16_field(response_data, 12, "Invalid index_boiler_set_min: ")?;
        let index_boiler_set_max = i16_field(response_data, 13, "Invalid index_boiler_set_max: ")?;
        let index_dhw = i16_field(response_data, 14, "Invalid index_dhw: ")?;
        let index_dhw_set = i16_field(response_data, 15, "Invalid index_dhw_set: ")?;
        let index_dhw_set_min = i16_field(response_data, 16, "Invalid index_dhw_set_min: ")?;
        let index_dhw_set_max = i16_field(response_data, 17, "Invalid index_dhw_set_max: ")?;
        let index_room_temp_3 = i16_field(response_data, 18, "Invalid index_room_temp_3: ")?;
        let index_room_temp_3_set = i16_field(response_data, 19, "Invalid index_room_temp_3_set: ")?;
        let index_room_temp_3_set_min = i16_field(response_data, 20, "Invalid index_room_temp_3_set_min: ")?;
        let index_room_temp_3_set_max = i16_field(response_data, 21, "Invalid index_room_temp_3_set_max: ")?;
        Ok(DAT2Data {
            index_page,
            index_flow_switch,
            index_generic_pump,
            index_airex_1,
            index_airex_2,
            index_airex_3,
            index_puffer,
            index_puffer_set,
            index_puffer_set_min,
            index_puffer_set_max,
            index_boiler,
            index_boiler_set,
            index_boiler_set_min,
            index_boiler_set_max,
            index_dhw,
            index_dhw_set,
            index_dhw_set_min,
            index_dhw_set_max,
            index_room_temp_3,
            index_room_temp_3_set,
            index_room_temp_3_set_min,
            index_room_temp_3_set_max,
            last_updated: capture_timestamp(),
        })
    }
}

impl Clone for DAT2Data {
    fn clone(&self) -> (r: Self)
        ensures
            r == *self,
    {
        DAT2Data {
            index_page: self.index_page,
            index_flow_switch: self.index_flow_switch,
            index_generic_pump: self.index_generic_pump,
            index_airex_1: self.index_airex_1,
            index_airex_2: self.index_airex_2,
            index_airex_3: self.index_airex_3,
            index_puffer: self.index_puffer,
            index_puffer_set: self.index_puffer_set,
            index_puffer_set_min: self.index_puffer_set_min,
            index_puffer_set_max: self.index_puffer_set_max,
            index_boiler: self.index_boiler,
            index_boiler_set: self.index_boiler_set,
            index_boiler_set_min: self.index_boiler_set_min,
            index_boiler_set_max: self.index_boiler_set_max,
            index_dhw: self.index_dhw,
            index_dhw_set: self.index_dhw_set,
            index_dhw_set_min: self.index_dhw_set_min,
            index_dhw_set_max: self.index_dhw_set_max,
            index_room_temp_3: self.index_room_temp_3,
            index_room_temp_3_set: self.index_room_temp_3_set,
            index_room_temp_3_set_min: self.index_room_temp_3_set_min,
            index_room_temp_3_set_max: self.index_room_temp_3_set_max,
            last_updated: self.last_updated.clone(),
        }
    }
}

impl Default for DAT2Data {
    fn default() -> (r: Self)
        ensures
            blank_dat2(r),
    {
        DAT2Data {
            index_page: 0,
            index_flow_switch: 0,
            index_generic_pump: 0,
            index_airex_1: 0,
            index_airex_2: 0,
            index_airex_3: 0,
            index_puffer: 0,
            index_puffer_set: 0,
            index_puffer_set_min: 0,
            index_puffer_set_max: 0,
            index_boiler: 0,
            index_boiler_set: 0,
            index_boiler_set_min: 0,
            index_boiler_set_max: 0,
            index_dhw: 0,
            index_dhw_set: 0,
            index_dhw_set_min: 0,
            index_dhw_set_max: 0,
            index_room_temp_3: 0,
            index_room_temp_3_set: 0,
            index_room_temp_3_set_min: 0,
            index_room_temp_3_set_max: 0,
            last_updated: String::new(),
        }
    }
}
/// Whether `v` is the empty record that stands before any decode.
pub open spec fn blank_inf(v: INFData) -> bool {
    &&& v.hostname@.len() == 0
    &&& v.version@.len() == 0
    &&& v.signal@.len() == 0
    &&& v.last_updated@.len() == 0
}

/// Whether `v` is the empty record that stands before any decode.
pub open spec fn blank_dat0(v: DAT0Data) -> bool {
    &&& v.index_page == 0
    &&& v.index_manufacturer == 0
    &&& v.index_bitmap_visible == false
    &&& v.index_valid == false
    &&& v.index_stove_type == 0
    &&& v.index_stove_state == StoveState::Off
    &&& v.index_stove_on == false
    &&& v.index_eco_mode == false
    &&& v.index_timer_on == 0
    &&& v.index_ambient_t1 == 0
    &&& v.index_ambient_t1_set == 0
    &&& v.index_ambient_t1_set_min == 0
    &&& v.index_ambient_t1_set_max == 0
    &&& v.index_ambient_t2 == 0
    &&& v.index_ambient_t2_set == 0
    &&& v.index_ambient_t2_set_min == 0
    &&& v.index_ambient_t2_set_max == 0
    &&& v.index_water == 0
    &&& v.index_water_set == 0
    &&& v.index_water_set_min == 0
    &&& v.index_water_set_max == 0
    &&& v.index_smoke_t == 0
    &&& v.index_power_level == 0
    &&& v.index_power_set == 0
    &&& v.index_power_min == 0
    &&& v.index_power_max == 0
    &&& v.index_fan_smoke == 0
    &&& v.index_fan_1 == 0
    &&& v.index_fan_1_set == 0
    &&& v.index_fan_1_set_max == 0
    &&& v.index_fan_2 == 0
    &&& v.index_fan_2_set == 0
    &&& v.index_fan_2_set_max == 0
    &&& v.index_fan_3 == 0
    &&& v.index_fan_3_set == 0
    &&& v.index_fan_3_set_max == 0
    &&& v.boiler_enabled == false
    &&& v.domestic_hot_water_enabled == false
    &&& v.fan_number == 0
    &&& v.temp_room1_enabled == false
    &&& v.temp_room2_enabled == false
    &&& v.temp_room3_enabled == false
    &&& v.temp_water_enabled == false
    &&& v.pump_enabled == false
    &&& v.last_updated@.len() == 0
}

/// Whether `v` is the empty record that stands before any decode.
pub open spec fn blank_dat1(v: DAT1Data) -> bool {
    &&& v.index_page == 0
    &&& v.index_state == false
    &&& v.index_temperature_1 == 0
    &&& v.index_temperature_1_min == 0
    &&& v.index_temperature_1_max == 0
    &&& v.index_temperature_2 == 0
    &&& v.index_temperature_2_min == 0
    &&& v.index_temperature_2_max == 0
    &&& v.index_temperature_3 == 0
    &&& v.index_temperature_3_min == 0
    &&& v.index_temperature_3_max == 0
    &&& v.last_updated@.len() == 0
}

/// Whether `v` is the empty record that stands before any decode.
pub open spec fn blank_dat2(v: DAT2Data) -> bool {
    &&& v.index_page == 0
    &&& v.index_flow_switch == 0
    &&& v.index_generic_pump == 0
    &&& v.index_airex_1 == 0
    &&& v.index_airex_2 == 0
    &&& v.index_airex_3 == 0
    &&& v.index_puffer == 0
    &&& v.index_puffer_set == 0
    &&& v.index_puffer_set_min == 0
    &&& v.index_puffer_set_max == 0
    &&& v.index_boiler == 0
    &&& v.index_boiler_set == 0
    &&& v.index_boiler_set_min == 0
    &&& v.index_boiler_set_max == 0
    &&& v.index_dhw == 0
    &&& v.index_dhw_set == 0
    &&& v.index_dhw_set_min == 0
    &&& v.index_dhw_set_max == 0
    &&& v.index_room_temp_3 == 0
    &&& v.index_room_temp_3_set == 0
    &&& v.index_room_temp_3_set_min == 0
    &&& v.index_room_temp_3_set_max == 0
    &&& v.last_updated@.len() == 0
}

/// Decoded payload of a response, by command category.
#[derive(Debug, PartialEq)]
pub enum CommandData {
    Inf(INFData),
    Dat0(DAT0Data),
    Dat1(DAT1Data),
    Dat2(DAT2Data),
    DATReqResponse(DATReqResponseData),
}

} // verus!
