//! Requests sent to the device and responses read from it: the frame
//! encoder and decoder.

use vstd::prelude::*;
use vstd::utf8::{decode_utf8, encode_utf8, encode_utf8_decode_utf8};
use crate::codec::{
    dec5, format_padded, hex4, lemma_parse_unsigned_bound, lemma_zero_padded_value, parse_unsigned,
    parse_unsigned_text, power, same_text,
};
use crate::hottoh_const::{command_from_code, command_type_from_code, Command, CommandType};
use crate::hottoh_structs::{
    calculate_checksum, crc16_ccitt_false, dat0_decoded, dat0_parses, dat1_decoded, dat1_parses,
    dat2_decoded, dat2_parses, texts, CommandData, DAT0Data, DAT1Data, DAT2Data,
    DATReqResponseData, INFData,
};

verus! {

/// Why a frame could not be turned into a response.
#[derive(Debug, PartialEq)]
pub enum ResponseError {
    /// The frame's fixed fields are missing or unreadable.
    MalformedFrame(String),
    /// The resolved command has no payload decoder.
    NotImplemented(String),
    /// The payload has the wrong number of fields or a field that does not read.
    IncorrectResponseStruct(String),
}

/// The characters of each string.
pub open spec fn string_texts(v: Seq<String>) -> Seq<Seq<char>> {
    v.map_values(|s: String| s@)
}

/// The parameters joined with `;` between them.
pub open spec fn joined(ps: Seq<Seq<char>>) -> Seq<char>
    decreases ps.len(),
{
    if ps.len() == 0 {
        seq![]
    } else if ps.len() == 1 {
        ps[0]
    } else {
        joined(ps.drop_last()) + seq![';'] + ps.last()
    }
}

/// The parameter section of a frame: the parameters joined with `;`, and a
/// final `;`.
pub open spec fn param_section(ps: Seq<Seq<char>>) -> Seq<char> {
    joined(ps) + seq![';']
}

/// The pieces of `s` between the separators `sep`, as `str::split` gives
/// them: one more piece than separators.
pub open spec fn split_on(s: Seq<char>, sep: char) -> Seq<Seq<char>>
    decreases s.len(),
{
    if s.len() == 0 {
        seq![seq![]]
    } else {
        let prev = split_on(s.drop_last(), sep);
        if s.last() == sep {
            prev.push(seq![])
        } else {
            prev.update(prev.len() - 1, prev.last().push(s.last()))
        }
    }
}

/// The text that the checksum covers: identifier, marker, `---`, length of
/// the parameter section, command, command type and parameter section.
pub open spec fn canonical_text(
    req_id: nat,
    marker: char,
    params_len: nat,
    command: Seq<char>,
    command_type: Seq<char>,
    section: Seq<char>,
) -> Seq<char> {
    dec5(req_id) + seq![marker, '-', '-', '-'] + hex4(params_len) + command + command_type + section
}

/// The checksum field for a canonical text.
pub open spec fn checksum_field(canonical: Seq<char>) -> Seq<char> {
    hex4(crc16_ccitt_false(encode_utf8(canonical)) as nat)
}

/// A whole frame: `#`, the canonical text, its checksum and a newline.
pub open spec fn frame_text(canonical: Seq<char>) -> Seq<char> {
    seq!['#'] + canonical + checksum_field(canonical) + seq!['\n']
}

/// What a request holds.
pub struct RequestView {
    pub req_id: u32,
    pub command: Command,
    pub command_type: CommandType,
    pub params: Seq<Seq<char>>,
    pub sent: bool,
    pub sent_at: Option<u64>,
    pub marked_as_deleted: bool,
}

impl RequestView {
    /// The frame that carries the request.
    pub open spec fn wire_text(self) -> Seq<char> {
        let section = param_section(self.params);
        frame_text(
            canonical_text(
                self.req_id as nat,
                'C',
                encode_utf8(section).len(),
                self.command.code(),
                self.command_type.code(),
                section,
            ),
        )
    }

    /// The request once it has gone out at `now_ms`: marked sent, its sent-at
    /// time kept when it already has one and set to `now_ms` otherwise.
    pub open spec fn after_send(self, now_ms: u64) -> RequestView {
        RequestView {
            sent: true,
            sent_at: if self.sent_at is Some {
                self.sent_at
            } else {
                Some(now_ms)
            },
            ..self
        }
    }

    /// Two requests ask the same thing: command, type and parameters agree.
    pub open spec fn same_query(self, other: RequestView) -> bool {
        &&& self.command == other.command
        &&& self.command_type == other.command_type
        &&& self.params == other.params
    }
}

/// A request to be sent to the device. Its time stamps are milliseconds on
/// a clock that the caller keeps.
#[derive(Debug)]
pub struct Request {
    req_id: u32,
    command: Command,
    command_type: CommandType,
    params: Vec<String>,
    sent: bool,
    sent_at: Option<u64>,
    marked_as_deleted: bool,
}

impl View for Request {
    type V = RequestView;

    closed spec fn view(&self) -> RequestView {
        RequestView {
            req_id: self.req_id,
            command: self.command,
            command_type: self.command_type,
            params: string_texts(self.params@),
            sent: self.sent,
            sent_at: self.sent_at,
            marked_as_deleted: self.marked_as_deleted,
        }
    }
}

/// Whether two lists of parameters hold the same texts.
pub fn same_params(a: &[String], b: &[String]) -> (r: bool)
    ensures
        r == (string_texts(a@) == string_texts(b@)),
{
    if a.len() != b.len() {
        assert(string_texts(a@).len() != string_texts(b@).len());
        return false;
    }
    let mut i: usize = 0;
    while i < a.len()
        invariant
            a@.len() == b@.len(),
            i <= a@.len(),
            forall|j: int| 0 <= j < i ==> a@[j]@ == b@[j]@,
        decreases a@.len() - i,
    {
        if !same_text(a[i].as_str(), b[i].as_str()) {
            assert(string_texts(a@)[i as int] != string_texts(b@)[i as int]);
            return false;
        }
        i = i + 1;
    }
    assert(string_texts(a@) =~= string_texts(b@));
    true
}

/// The parameter section for `params`: joined with `;` and a final `;`.
fn param_section_text(params: &[String]) -> (r: String)
    ensures
        r@ == param_section(string_texts(params@)),
{
    let ghost ps = string_texts(params@);
    let mut out = String::new();
    let mut i: usize = 0;
    while i < params.len()
        invariant
            i <= params@.len(),
            ps == string_texts(params@),
            out@ == joined(ps.subrange(0, i as int)),
        decreases params@.len() - i,
    {
        let ghost before = out@;
        if i > 0 {
            out.append(";");
            proof {
                reveal_strlit(";");
            }
        }
        out.append(params[i].as_str());
        assert(ps.subrange(0, i + 1).drop_last() =~= ps.subrange(0, i as int));
        if i == 0 {
            assert(out@ =~= joined(ps.subrange(0, 1)));
        } else {
            assert(out@ =~= before + seq![';'] + ps[i as int]);
        }
        i = i + 1;
    }
    assert(ps.subrange(0, params@.len() as int) =~= ps);
    out.append(";");
    proof {
        reveal_strlit(";");
    }
    assert(out@ =~= param_section(ps));
    out
}

impl Request {
    /// A new request, not yet sent nor deleted.
    pub fn new(req_id: u32, command: Command, command_type: CommandType, params: Vec<String>) -> (r:
        Self)
        ensures
            r@ == (RequestView {
                req_id,
                command,
                command_type,
                params: string_texts(params@),
                sent: false,
                sent_at: None,
                marked_as_deleted: false,
            }),
    {
        Request {
            req_id,
            command,
            command_type,
            params,
            sent: false,
            sent_at: None,
            marked_as_deleted: false,
        }
    }

    /// Records that the request went out at `now_ms`. The sent-at time is
    /// set once, on the first transmission; a later call keeps it.
    pub fn mark_as_sent(&mut self, now_ms: u64)
        ensures
            final(self)@ == old(self)@.after_send(now_ms),
    {
        self.sent = true;
        if self.sent_at.is_none() {
            self.sent_at = Some(now_ms);
        }
    }

    /// The bytes of the frame that carries the request.
    pub fn build_message(&self) -> (r: Vec<u8>)
        ensures
            r@ == encode_utf8(self@.wire_text()),
    {
        let cmd_type_str = self.command_type.as_str();
        let command = self.command.as_str();
        let params = param_section_text(self.params.as_slice());
        let length = format_padded(params.as_str().as_bytes().len() as u64, 16, 4);
        let mut crc_input = format_padded(self.req_id as u64, 10, 5);
        crc_input.append("C---");
        crc_input.append(length.as_str());
        crc_input.append(command);
        crc_input.append(cmd_type_str);
        crc_input.append(params.as_str());
        let checksum = calculate_checksum(crc_input.as_str());
        let mut message = String::from_str("#");
        message.append(crc_input.as_str());
        message.append(checksum.as_str());
        message.append("\n");
        proof {
            reveal_strlit("C---");
            reveal_strlit("#");
            reveal_strlit("\n");
        }
        assert(crc_input@ =~= canonical_text(
            self.req_id as nat,
            'C',
            encode_utf8(params@).len(),
            self.command.code(),
            self.command_type.code(),
            params@,
        ));
        assert(message@ =~= self@.wire_text());
        message.as_str().as_bytes_vec()
    }

    pub fn get_req_id(&self) -> (r: u32)
        ensures
            r == self@.req_id,
    {
        self.req_id
    }

    pub fn get_command(&self) -> (r: &Command)
        ensures
            *r == self@.command,
    {
        &self.command
    }

    pub fn get_command_type(&self) -> (r: &CommandType)
        ensures
            *r == self@.command_type,
    {
        &self.command_type
    }

    pub fn get_params(&self) -> (r: &Vec<String>)
        ensures
            string_texts(r@) == self@.params,
    {
        &self.params
    }

    pub fn is_sent(&self) -> (r: bool)
        ensures
            r == self@.sent,
    {
        self.sent
    }

    pub fn get_sent_at(&self) -> (r: Option<u64>)
        ensures
            r == self@.sent_at,
    {
        self.sent_at
    }

    pub fn is_marked_as_deleted(&self) -> (r: bool)
        ensures
            r == self@.marked_as_deleted,
    {
        self.marked_as_deleted
    }

    pub fn set_marked_as_deleted(&mut self, value: bool)
        ensures
            final(self)@ == (RequestView { marked_as_deleted: value, ..old(self)@ }),
    {
        self.marked_as_deleted = value;
    }
}

impl PartialEq for Request {
    fn eq(&self, other: &Request) -> (r: bool) {
        self.command == other.command && self.command_type == other.command_type && same_params(
            self.params.as_slice(),
            other.params.as_slice(),
        )
    }
}

impl vstd::std_specs::cmp::PartialEqSpecImpl for Request {
    open spec fn obeys_eq_spec() -> bool {
        true
    }

    open spec fn eq_spec(&self, other: &Request) -> bool {
        self@.same_query(other@)
    }
}

/// The fixed fields of an inbound frame.
pub struct FrameFields {
    pub req_id: u32,
    pub marker: char,
    pub params_len: u32,
    pub command: Command,
    pub command_type: CommandType,
    pub params: Seq<Seq<char>>,
    pub crc: Seq<char>,
    pub crc_is_valid: bool,
}

/// Reads the fixed-offset fields of a frame `m` (its leading `#` at 0, its
/// newline last): identifier at 1..6, marker at 6, length at 10..14 in
/// hexadecimal, command at 14..17, command type at 17, parameters from 18
/// up to 6 before the end, checksum from 5 to 1 before the end. The
/// checksum is valid when it equals the one computed over the canonical
/// text rebuilt from the fields read.
pub open spec fn frame_fields(m: Seq<char>) -> Option<FrameFields> {
    if m.len() < 24 {
        None
    } else {
        let id = parse_unsigned(m.subrange(1, 6), 10);
        let len = parse_unsigned(m.subrange(10, 14), 16);
        let cmd = command_from_code(m.subrange(14, 17));
        let ty = command_type_from_code(m.subrange(17, 18));
        if id is None || len is None || cmd is None || ty is None {
            None
        } else {
            let params = split_on(m.subrange(18, m.len() - 6), ';');
            let canonical = canonical_text(
                id->0,
                m[6],
                len->0,
                cmd->0.code(),
                ty->0.code(),
                param_section(params),
            );
            let crc = m.subrange(m.len() - 5, m.len() - 1);
            Some(
                FrameFields {
                    req_id: id->0 as u32,
                    marker: m[6],
                    params_len: len->0 as u32,
                    command: cmd->0,
                    command_type: ty->0,
                    params,
                    crc,
                    crc_is_valid: crc == checksum_field(canonical),
                },
            )
        }
    }
}

/// The generic data command names its page by its number of parameters.
pub open spec fn resolve_command(command: Command, n_params: nat) -> Command {
    if command == Command::Dat {
        if n_params == 36 {
            Command::Dat0
        } else if n_params == 11 {
            Command::Dat1
        } else if n_params == 22 {
            Command::Dat2
        } else if n_params == 1 {
            Command::DatReqResponse
        } else {
            Command::Dat
        }
    } else {
        command
    }
}

/// Whether the payload decoder of `command` accepts the fields `d`.
pub open spec fn payload_decodes(command: Command, d: Seq<Seq<char>>) -> bool {
    match command {
        Command::Inf => d.len() == 3,
        Command::Dat0 => dat0_parses(d),
        Command::Dat1 => dat1_parses(d),
        Command::Dat2 => dat2_parses(d),
        Command::DatReqResponse => d.len() == 1,
        Command::Dat => false,
    }
}

/// Whether `data` is what the decoder of `command` makes of the fields `d`,
/// capture times aside.
pub open spec fn payload_matches(data: CommandData, command: Command, d: Seq<Seq<char>>) -> bool {
    match command {
        Command::Inf => data matches CommandData::Inf(v) && v.hostname@ == d[0] && v.version@ == d[1]
            && v.signal@ == d[2],
        Command::Dat0 => data matches CommandData::Dat0(v) && dat0_decoded(v, d),
        Command::Dat1 => data matches CommandData::Dat1(v) && dat1_decoded(v, d),
        Command::Dat2 => data matches CommandData::Dat2(v) && dat2_decoded(v, d),
        Command::DatReqResponse => data matches CommandData::DATReqResponse(v) && v.value@ == d[0],
        Command::Dat => false,
    }
}

/// Whether frame `m` decodes into a response.
pub open spec fn frame_accepted(m: Seq<char>) -> bool {
    match frame_fields(m) {
        Some(f) => {
            let c = resolve_command(f.command, f.params.len());
            c != Command::Dat && payload_decodes(c, f.params)
        },
        None => false,
    }
}

/// Whether `v` is a response freshly decoded from frame `m`, capture times
/// aside.
pub open spec fn decoded_from(v: ResponseView, m: Seq<char>) -> bool {
    match frame_fields(m) {
        Some(f) => {
            let c = resolve_command(f.command, f.params.len());
            &&& v.req_id == f.req_id
            &&& v.command == c
            &&& v.command_type == f.command_type
            &&& v.params_len == f.params_len
            &&& v.params == f.params
            &&& v.crc == f.crc
            &&& v.crc_is_valid == f.crc_is_valid
            &&& !v.marked_as_deleted
            &&& payload_matches(v.command_data, c, f.params)
        },
        None => false,
    }
}

/// What a response holds.
pub struct ResponseView {
    pub req_id: u32,
    pub command: Command,
    pub command_type: CommandType,
    pub params_len: u32,
    pub params: Seq<Seq<char>>,
    pub command_data: CommandData,
    pub crc: Seq<char>,
    pub crc_is_valid: bool,
    pub marked_as_deleted: bool,
}

/// A response read from the device.
#[derive(Debug)]
pub struct Response {
    req_id: u32,
    command: Command,
    command_type: CommandType,
    params_len: u32,
    params: Vec<String>,
    command_data: CommandData,
    crc: String,
    crc_is_valid: bool,
    marked_as_deleted: bool,
}

impl View for Response {
    type V = ResponseView;

    closed spec fn view(&self) -> ResponseView {
        ResponseView {
            req_id: self.req_id,
            command: self.command,
            command_type: self.command_type,
            params_len: self.params_len,
            params: string_texts(self.params@),
            command_data: self.command_data,
            crc: self.crc@,
            crc_is_valid: self.crc_is_valid,
            marked_as_deleted: self.marked_as_deleted,
        }
    }
}

/// Splits `s` at each `sep`, as `str::split` does.
pub fn split_text<'a>(s: &'a str, sep: char) -> (r: Vec<&'a str>)
    ensures
        texts(r@) == split_on(s@, sep),
{
    let n = s.unicode_len();
    let mut out: Vec<&'a str> = Vec::new();
    let mut start: usize = 0;
    let mut i: usize = 0;
    assert(texts(out@) =~= Seq::<Seq<char>>::empty());
    assert(s@.subrange(0, 0) =~= Seq::<char>::empty());
    assert(texts(out@).push(s@.subrange(0, 0)) =~= split_on(s@.subrange(0, 0), sep));
    while i < n
        invariant
            n == s@.len(),
            start <= i <= n,
            texts(out@).push(s@.subrange(start as int, i as int)) == split_on(
                s@.subrange(0, i as int),
                sep,
            ),
        decreases n - i,
    {
        let ghost prev = split_on(s@.subrange(0, i as int), sep);
        let c = s.get_char(i);
        assert(s@.subrange(0, i + 1).drop_last() =~= s@.subrange(0, i as int));
        if c == sep {
            let piece = s.substring_char(start, i);
            out.push(piece);
            start = i + 1;
            assert(texts(out@) =~= prev);
            assert(s@.subrange(start as int, i + 1) =~= Seq::<char>::empty());
            assert(texts(out@).push(s@.subrange(start as int, i + 1)) =~= prev.push(seq![]));
        } else {
            assert(s@.subrange(start as int, i + 1) =~= s@.subrange(start as int, i as int).push(c));
            assert(texts(out@).push(s@.subrange(start as int, i + 1)) =~= prev.update(
                prev.len() - 1,
                prev.last().push(c),
            ));
        }
        i = i + 1;
    }
    let last = s.substring_char(start, n);
    out.push(last);
    assert(s@.subrange(0, n as int) =~= s@);
    assert(texts(out@) =~= split_on(s@, sep));
    out
}

/// Owned copies of `pieces`.
fn owned_texts(pieces: &Vec<&str>) -> (r: Vec<String>)
    ensures
        string_texts(r@) == texts(pieces@),
{
    let mut out: Vec<String> = Vec::new();
    let mut i: usize = 0;
    while i < pieces.len()
        invariant
            i <= pieces@.len(),
            string_texts(out@) =~= texts(pieces@).subrange(0, i as int),
        decreases pieces@.len() - i,
    {
        let ghost before = out@;
        let copy = String::from_str(pieces[i]);
        out.push(copy);
        assert(string_texts(out@) =~= string_texts(before).push(pieces@[i as int]@));
        assert(texts(pieces@).subrange(0, i + 1) =~= texts(pieces@).subrange(0, i as int).push(
            pieces@[i as int]@,
        ));
        i = i + 1;
    }
    out
}

fn malformed(what: &str) -> (r: ResponseError)
    ensures
        r is MalformedFrame,
{
    ResponseError::MalformedFrame(String::from_str(what))
}

impl Response {
    /// Decodes the payload of `command` from the fields `data`.
    pub fn command_data_from_vec(data: &Vec<&str>, command: &Command) -> (r: Result<
        CommandData,
        ResponseError,
    >)
        ensures
            *command == Command::Dat ==> (r matches Err(e) && e is NotImplemented),
            *command != Command::Dat ==> (r is Ok <==> payload_decodes(*command, texts(data@))),
            *command != Command::Dat ==> (r matches Err(e) ==> e is IncorrectResponseStruct),
            r matches Ok(v) ==> payload_matches(v, *command, texts(data@)),
    {
        match command {
            Command::Inf => match INFData::from_slice(data.as_slice()) {
                Ok(v) => Ok(CommandData::Inf(v)),
                Err(e) => Err(e),
            },
            Command::Dat0 => match DAT0Data::from_slice(data.as_slice()) {
                Ok(v) => Ok(CommandData::Dat0(v)),
                Err(e) => Err(e),
            },
            Command::Dat1 => match DAT1Data::from_slice(data.as_slice()) {
                Ok(v) => Ok(CommandData::Dat1(v)),
                Err(e) => Err(e),
            },
            Command::Dat2 => match DAT2Data::from_slice(data.as_slice()) {
                Ok(v) => Ok(CommandData::Dat2(v)),
                Err(e) => Err(e),
            },
            Command::DatReqResponse => match DATReqResponseData::from_slice(data.as_slice()) {
                Ok(v) => Ok(CommandData::DATReqResponse(v)),
                Err(e) => Err(e),
            },
            Command::Dat => Err(
                ResponseError::NotImplemented(
                    String::from_str("Not implemented for the generic data command"),
                ),
            ),
        }
    }

    /// Decodes one frame, its leading `#` included and its newline kept.
    pub fn from_message(message: &str) -> (r: Result<Response, ResponseError>)
        ensures
            r is Ok <==> frame_accepted(message@),
            r matches Ok(resp) ==> decoded_from(resp@, message@),
            match frame_fields(message@) {
                None => r matches Err(e) && e is MalformedFrame,
                Some(f) => {
                    let c = resolve_command(f.command, f.params.len());
                    if c == Command::Dat {
                        r matches Err(e) && e is NotImplemented
                    } else if !payload_decodes(c, f.params) {
                        r matches Err(e) && e is IncorrectResponseStruct
                    } else {
                        r matches Ok(resp) && resp@.req_id == f.req_id && resp@.command == c
                            && resp@.command_type == f.command_type && resp@.params_len
                            == f.params_len && resp@.params == f.params && resp@.crc == f.crc
                            && resp@.crc_is_valid == f.crc_is_valid && !resp@.marked_as_deleted
                            && payload_matches(resp@.command_data, c, f.params)
                    }
                },
            },
    {
        let n = message.unicode_len();
        if n < 24 {
            return Err(malformed("Truncated frame"));
        }
        let ghost m = message@;
        let id_text = message.substring_char(1, 6);
        proof {
            lemma_parse_unsigned_bound(id_text@, 10);
            assert(power(10, 5) == 100000) by {
                assert(power(10, 0) == 1);
                assert(power(10, 1) == 10);
                assert(power(10, 2) == 100);
                assert(power(10, 3) == 1000);
                assert(power(10, 4) == 10000);
            }
        }
        let req_id: u32 = match parse_unsigned_text(id_text, 10, 99999) {
            Some(v) => v as u32,
            None => {
                return Err(malformed("Invalid req_id"));
            },
        };
        let marker = message.substring_char(6, 7);
        let len_text = message.substring_char(10, 14);
        proof {
            lemma_parse_unsigned_bound(len_text@, 16);
            assert(power(16, 4) == 65536) by {
                assert(power(16, 0) == 1);
                assert(power(16, 1) == 16);
                assert(power(16, 2) == 256);
                assert(power(16, 3) == 4096);
            }
        }
        let params_len: u64 = match parse_unsigned_text(len_text, 16, 65535) {
            Some(v) => v,
            None => {
                return Err(malformed("Invalid param length"));
            },
        };
        let command = match Command::from_code(message.substring_char(14, 17)) {
            Some(c) => c,
            None => {
                return Err(malformed("Invalid command"));
            },
        };
        let command_type = match CommandType::from_code(message.substring_char(17, 18)) {
            Some(t) => t,
            None => {
                return Err(malformed("Invalid command type"));
            },
        };
        let section = message.substring_char(18, n - 6);
        let crc = message.substring_char(n - 5, n - 1);
        let params = split_text(section, ';');
        let owned = owned_texts(&params);
        let mut canonical = format_padded(req_id as u64, 10, 5);
        canonical.append(marker);
        canonical.append("---");
        let len_field = format_padded(params_len, 16, 4);
        canonical.append(len_field.as_str());
        canonical.append(command.as_str());
        canonical.append(command_type.as_str());
        let rejoined = param_section_text(owned.as_slice());
        canonical.append(rejoined.as_str());
        proof {
            reveal_strlit("---");
        }
        assert(marker@ =~= seq![m[6]]);
        assert(canonical@ =~= canonical_text(
            req_id as nat,
            m[6],
            params_len as nat,
            command.code(),
            command_type.code(),
            param_section(texts(params@)),
        ));
        let expected = calculate_checksum(canonical.as_str());
        let crc_is_valid = same_text(crc, expected.as_str());
        let n_params = params.len();
        let resolved = if command == Command::Dat {
            if n_params == 36 {
                Command::Dat0
            } else if n_params == 11 {
                Command::Dat1
            } else if n_params == 22 {
                Command::Dat2
            } else if n_params == 1 {
                Command::DatReqResponse
            } else {
                Command::Dat
            }
        } else {
            command
        };
        let command_data = match Response::command_data_from_vec(&params, &resolved) {
            Ok(d) => d,
            Err(e) => {
                return Err(e);
            },
        };
        Ok(Response {
            req_id,
            command: resolved,
            command_type,
            params_len: params_len as u32,
            params: owned,
            command_data,
            crc: String::from_str(crc),
            crc_is_valid,
            marked_as_deleted: false,
        })
    }

    pub fn get_req_id(&self) -> (r: u32)
        ensures
            r == self@.req_id,
    {
        self.req_id
    }

    /// The command, the generic data command resolved to its page.
    pub fn get_command(&self) -> (r: &Command)
        ensures
            *r == self@.command,
    {
        &self.command
    }

    pub fn get_command_type(&self) -> (r: &CommandType)
        ensures
            *r == self@.command_type,
    {
        &self.command_type
    }

    pub fn get_params(&self) -> (r: &Vec<String>)
        ensures
            string_texts(r@) == self@.params,
    {
        &self.params
    }

    pub fn get_command_data(&self) -> (r: &CommandData)
        ensures
            *r == self@.command_data,
    {
        &self.command_data
    }

    pub fn is_crc_valid(&self) -> (r: bool)
        ensures
            r == self@.crc_is_valid,
    {
        self.crc_is_valid
    }

    pub fn is_marked_as_deleted(&self) -> (r: bool)
        ensures
            r == self@.marked_as_deleted,
    {
        self.marked_as_deleted
    }

    pub fn set_marked_as_deleted(&mut self, value: bool)
        ensures
            final(self)@ == (ResponseView { marked_as_deleted: value, ..old(self)@ }),
    {
        self.marked_as_deleted = value;
    }
}

proof fn lemma_split_free(s: Seq<char>, sep: char)
    requires
        !s.contains(sep),
    ensures
        split_on(s, sep) == seq![s],
    decreases s.len(),
{
    if s.len() > 0 {
        assert(!s.drop_last().contains(sep)) by {
            if s.drop_last().contains(sep) {
                let k = choose|k: int| 0 <= k < s.drop_last().len() && s.drop_last()[k] == sep;
                assert(s[k] == sep);
            }
        }
        lemma_split_free(s.drop_last(), sep);
        assert(s.last() != sep) by {
            assert(s[s.len() - 1] == s.last());
        }
        assert(s.drop_last().push(s.last()) =~= s);
        assert(seq![s.drop_last()].update(0, s.drop_last().push(s.last())) =~= seq![s]);
    } else {
        assert(s =~= Seq::<char>::empty());
    }
}

proof fn lemma_split_append(a: Seq<char>, b: Seq<char>, sep: char)
    requires
        !b.contains(sep),
    ensures
        split_on(a + seq![sep] + b, sep) == split_on(a, sep).push(b),
    decreases b.len(),
{
    let s = a + seq![sep] + b;
    if b.len() == 0 {
        assert(s.drop_last() =~= a);
        assert(s.last() == sep);
        assert(b =~= Seq::<char>::empty());
    } else {
        assert(!b.drop_last().contains(sep)) by {
            if b.drop_last().contains(sep) {
                let k = choose|k: int| 0 <= k < b.drop_last().len() && b.drop_last()[k] == sep;
                assert(b[k] == sep);
            }
        }
        lemma_split_append(a, b.drop_last(), sep);
        assert(s.drop_last() =~= a + seq![sep] + b.drop_last());
        assert(s.last() == b.last());
        assert(b.last() != sep) by {
            assert(b[b.len() - 1] == b.last());
        }
        let prev = split_on(a, sep).push(b.drop_last());
        assert(b.drop_last().push(b.last()) =~= b);
        assert(prev.last() == b.drop_last());
        assert(prev.update(prev.len() - 1, prev.last().push(b.last())) =~= split_on(a, sep).push(b));
    }
}

proof fn lemma_split_joined(ps: Seq<Seq<char>>)
    requires
        ps.len() >= 1,
        forall|k: int| 0 <= k < ps.len() ==> !(#[trigger] ps[k]).contains(';'),
    ensures
        split_on(joined(ps), ';') == ps,
    decreases ps.len(),
{
    if ps.len() == 1 {
        lemma_split_free(ps[0], ';');
        assert(seq![ps[0]] =~= ps);
    } else {
        let pre = ps.drop_last();
        assert forall|k: int| 0 <= k < pre.len() implies !(#[trigger] pre[k]).contains(';') by {
            assert(pre[k] == ps[k]);
        }
        lemma_split_joined(pre);
        assert(!ps.last().contains(';')) by {
            assert(ps[ps.len() - 1] == ps.last());
        }
        lemma_split_append(joined(pre), ps.last(), ';');
        assert(pre.push(ps.last()) =~= ps);
    }
}

proof fn lemma_codes(c: Command, t: CommandType)
    requires
        c == Command::Inf || c == Command::Dat,
    ensures
        command_from_code(c.code()) == Some(c),
        c.code().len() == 3,
        command_type_from_code(t.code()) == Some(t),
        t.code().len() == 1,
{
    reveal_strlit("INF");
    reveal_strlit("DAT");
    reveal_strlit("R");
    reveal_strlit("W");
    reveal_strlit("E");
    assert("INF"@ =~= seq!['I', 'N', 'F']);
    assert("DAT"@ =~= seq!['D', 'A', 'T']);
    assert("R"@ =~= seq!['R']);
    assert("W"@ =~= seq!['W']);
    assert("E"@ =~= seq!['E']);
    assert("INF"@ != "DAT"@) by {
        assert("INF"@[0] != "DAT"@[0]);
    }
    assert("R"@ != "W"@) by {
        assert("R"@[0] != "W"@[0]);
    }
    assert("R"@ != "E"@) by {
        assert("R"@[0] != "E"@[0]);
    }
    assert("W"@ != "E"@) by {
        assert("W"@[0] != "E"@[0]);
    }
}

proof fn lemma_frame_layout(
    id: Seq<char>,
    len: Seq<char>,
    code: Seq<char>,
    tcode: Seq<char>,
    section: Seq<char>,
    crc: Seq<char>,
)
    requires
        id.len() == 5,
        len.len() == 4,
        code.len() == 3,
        tcode.len() == 1,
        section.len() >= 1,
        crc.len() == 4,
    ensures
        ({
            let canonical = id + seq!['C', '-', '-', '-'] + len + code + tcode + section;
            let w = seq!['#'] + canonical + crc + seq!['\n'];
            let n = w.len();
            &&& n == 23 + section.len()
            &&& w.subrange(1, 6) == id
            &&& w[6] == 'C'
            &&& w.subrange(10, 14) == len
            &&& w.subrange(14, 17) == code
            &&& w.subrange(17, 18) == tcode
            &&& w.subrange(18, n - 6) == section.drop_last()
            &&& w.subrange(n - 5, n - 1) == crc
        }),
{
    let canonical = id + seq!['C', '-', '-', '-'] + len + code + tcode + section;
    let w = seq!['#'] + canonical + crc + seq!['\n'];
    let n = w.len();
    assert(w.subrange(1, 6) =~= id);
    assert(w.subrange(10, 14) =~= len);
    assert(w.subrange(14, 17) =~= code);
    assert(w.subrange(17, 18) =~= tcode);
    assert(w.subrange(18, n - 6) =~= section.drop_last());
    assert(w.subrange(n - 5, n - 1) =~= crc);
}

/// Codec round trip: the frame that carries a request decodes as text to
/// itself, and reads back with a valid checksum and the request's
/// identifier, command, command type and parameters. This holds when the
/// identifier has at most five digits, the command has a three-letter code,
/// the parameter section takes at most 0xFFFF bytes, and there is at least
/// one parameter and none holds a `;`.
pub proof fn lemma_round_trip(r: RequestView)
    requires
        r.req_id < 100000,
        r.command == Command::Inf || r.command == Command::Dat,
        r.params.len() >= 1,
        forall|k: int| 0 <= k < r.params.len() ==> !(#[trigger] r.params[k]).contains(';'),
        encode_utf8(param_section(r.params)).len() <= 0xFFFF,
    ensures
        decode_utf8(encode_utf8(r.wire_text())) == r.wire_text(),
        frame_fields(r.wire_text()) matches Some(f) && f.req_id == r.req_id && f.marker == 'C'
            && f.command == r.command && f.command_type == r.command_type && f.params == r.params
            && f.crc_is_valid,
{
    let w = r.wire_text();
    encode_utf8_decode_utf8(w);
    let ps = r.params;
    let section = param_section(ps);
    let len = encode_utf8(section).len();
    let code = r.command.code();
    let tcode = r.command_type.code();
    let canonical = canonical_text(r.req_id as nat, 'C', len, code, tcode, section);
    let crc = checksum_field(canonical);
    assert(power(10, 5) == 100000) by {
        assert(power(10, 0) == 1);
        assert(power(10, 1) == 10);
        assert(power(10, 2) == 100);
        assert(power(10, 3) == 1000);
        assert(power(10, 4) == 10000);
    }
    assert(power(16, 4) == 65536) by {
        assert(power(16, 0) == 1);
        assert(power(16, 1) == 16);
        assert(power(16, 2) == 256);
        assert(power(16, 3) == 4096);
    }
    lemma_zero_padded_value(r.req_id as nat, 10, 5, 5);
    lemma_zero_padded_value(len, 16, 4, 4);
    lemma_zero_padded_value(crc16_ccitt_false(encode_utf8(canonical)) as nat, 16, 4, 4);
    lemma_codes(r.command, r.command_type);
    assert(section.drop_last() =~= joined(ps));
    lemma_frame_layout(dec5(r.req_id as nat), hex4(len), code, tcode, section, crc);
    assert(w =~= seq!['#'] + (dec5(r.req_id as nat) + seq!['C', '-', '-', '-'] + hex4(len) + code
        + tcode + section) + crc + seq!['\n']);
    lemma_split_joined(ps);
}
/// Command re-specialization: a frame of the generic data command resolves
/// by its number of parameters, 36 to page 0, 11 to page 1, 22 to page 2
/// and 1 to the acknowledgement; with any other number it is refused.
pub proof fn lemma_generic_data_resolution(m: Seq<char>)
    requires
        frame_fields(m) matches Some(f) && f.command == Command::Dat,
    ensures
        ({
            let n = frame_fields(m)->0.params.len();
            let c = resolve_command(Command::Dat, n);
            &&& n == 36 ==> c == Command::Dat0
            &&& n == 11 ==> c == Command::Dat1
            &&& n == 22 ==> c == Command::Dat2
            &&& n == 1 ==> c == Command::DatReqResponse
            &&& !(n == 36 || n == 11 || n == 22 || n == 1) ==> !frame_accepted(m)
        }),
{
}

/// Round trip of the generic data command: the frame of a Read, Write or
/// Execute request of the generic data command (with the bounds of
/// `lemma_round_trip`) reads back with its parameters, and decodes exactly
/// when they decode as the page their number names; any number other than
/// 36, 11, 22 or 1 is refused, and a single parameter comes back as an
/// acknowledgement carrying it.
pub proof fn lemma_generic_data_round_trip(r: RequestView)
    requires
        r.req_id < 100000,
        r.command == Command::Dat,
        r.params.len() >= 1,
        forall|k: int| 0 <= k < r.params.len() ==> !(#[trigger] r.params[k]).contains(';'),
        encode_utf8(param_section(r.params)).len() <= 0xFFFF,
    ensures
        ({
            let w = r.wire_text();
            let c = resolve_command(Command::Dat, r.params.len());
            &&& frame_fields(w) matches Some(f) && f.params == r.params && f.command == Command::Dat
                && f.req_id == r.req_id && f.command_type == r.command_type && f.crc_is_valid
            &&& frame_accepted(w) <==> (c != Command::Dat && payload_decodes(c, r.params))
            &&& !(r.params.len() == 36 || r.params.len() == 11 || r.params.len() == 22
                || r.params.len() == 1) ==> !frame_accepted(w)
            &&& r.params.len() == 1 ==> frame_accepted(w) && forall|v: ResponseView|
                decoded_from(v, w) ==> v.command == Command::DatReqResponse && (v.command_data matches CommandData::DATReqResponse(d) && d.value@ == r.params[0])
        }),
{
    lemma_round_trip(r);
}

} // verus!
