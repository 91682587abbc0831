//! Decoding of one FSD line into a typed record.
use crate::fsdpackets::{
    ATCPosition, ClientQuery, ClientQueryType, DeleteClient, FlightPlan, FlightStrip,
    NetworkClient, NetworkClientType, Packet, PilotPosition, SharedState, SharedStateType,
    TextMessage, TransferControl, TransferControlType, Metar, query_payload_ok,
    query_tokens,
};
use crate::text::{chars_of, split_range, split_spec, str_is, trim_bounds, trim_spec};
use vstd::prelude::*;

verus! {

pub struct Parser {}

#[derive(PartialEq, Debug)]
pub enum PacketTypes {
    TextMessage(TextMessage),
    ATCPosition(ATCPosition),
    PilotPosition(PilotPosition),
    NetworkClient(NetworkClient),
    DeleteClient(DeleteClient),
    TransferControl(TransferControl),
    SharedState(SharedState),
    FlightStrip(FlightStrip),
    FlightPlan(FlightPlan),
    ClientQuery(ClientQuery),
    Metar(Metar),
}

/// Why a line gave no record.
#[derive(PartialEq, Eq, Structural, Debug, Clone, Copy)]
pub enum ParseError {
    /// Empty, without `:`, with a non-ASCII lead, or with an unknown prefix,
    /// command or sub-command.
    NotAPacket,
    /// A known command whose fields are too few or do not hold what the
    /// record needs.
    Malformed,
}

/// The line without surrounding whitespace and without one trailing NUL.
pub open spec fn clean_line(s: Seq<char>) -> Seq<char> {
    let t = trim_spec(s);
    if t.len() > 0 && t.last() == '\0' {
        t.drop_last()
    } else {
        t
    }
}

/// Whether a cleaned line can be a command: at least three characters, the
/// first three ASCII, and a `:` somewhere.
pub open spec fn is_candidate(b: Seq<char>) -> bool {
    &&& b.len() >= 3
    &&& (b[0] as u32) < 128
    &&& (b[1] as u32) < 128
    &&& (b[2] as u32) < 128
    &&& b.contains(':')
}

/// `r` is the record that `got` describes where the fields are `ok`, and
/// `Malformed` where they are not.
pub open spec fn outcome(ok: bool, got: bool, r: Result<PacketTypes, ParseError>) -> bool {
    if ok {
        got
    } else {
        r == Err::<PacketTypes, ParseError>(ParseError::Malformed)
    }
}

/// The query kind that the token `t` names.
pub open spec fn query_type_text(t: Seq<char>) -> ClientQueryType {
    if t == "ATC"@ {
        ClientQueryType::IsValidATC
    } else if t == "CAPS"@ {
        ClientQueryType::Capabilities
    } else if t == "C?"@ {
        ClientQueryType::COM1Freq
    } else if t == "RN"@ {
        ClientQueryType::RealName
    } else if t == "SV"@ {
        ClientQueryType::Server
    } else if t == "ATIS"@ {
        ClientQueryType::ATIS
    } else if t == "IP"@ {
        ClientQueryType::PublicIP
    } else if t == "INF"@ {
        ClientQueryType::INF
    } else if t == "FP"@ {
        ClientQueryType::FlightPlan
    } else if t == "IPC"@ {
        ClientQueryType::IPC
    } else if t == "BY"@ {
        ClientQueryType::RequestRelief
    } else if t == "HI"@ {
        ClientQueryType::CancelRequestRelief
    } else if t == "HLP"@ {
        ClientQueryType::RequestHelp
    } else if t == "NOHLP"@ {
        ClientQueryType::CancelRequestHelp
    } else if t == "WH"@ {
        ClientQueryType::WhoHas
    } else if t == "IT"@ {
        ClientQueryType::InitiateTrack
    } else if t == "HT"@ {
        ClientQueryType::AcceptHandoff
    } else if t == "DR"@ {
        ClientQueryType::DropTrack
    } else if t == "FA"@ {
        ClientQueryType::SetFinalAltitude
    } else if t == "TA"@ {
        ClientQueryType::SetTempAltitude
    } else if t == "BC"@ {
        ClientQueryType::SetBeaconCode
    } else if t == "SC"@ {
        ClientQueryType::SetScratchpad
    } else if t == "VT"@ {
        ClientQueryType::SetVoiceType
    } else if t == "ACC"@ {
        ClientQueryType::AircraftConfiguration
    } else if t == "NEWINFO"@ {
        ClientQueryType::NewInfo
    } else if t == "NEWATIS"@ {
        ClientQueryType::NewATIS
    } else {
        ClientQueryType::Unknown
    }
}

pub fn query_type_from(t: &str) -> (r: ClientQueryType)
    ensures
        r == query_type_text(t@),
{
    if str_is(t, "ATC") {
        ClientQueryType::IsValidATC
    } else if str_is(t, "CAPS") {
        ClientQueryType::Capabilities
    } else if str_is(t, "C?") {
        ClientQueryType::COM1Freq
    } else if str_is(t, "RN") {
        ClientQueryType::RealName
    } else if str_is(t, "SV") {
        ClientQueryType::Server
    } else if str_is(t, "ATIS") {
        ClientQueryType::ATIS
    } else if str_is(t, "IP") {
        ClientQueryType::PublicIP
    } else if str_is(t, "INF") {
        ClientQueryType::INF
    } else if str_is(t, "FP") {
        ClientQueryType::FlightPlan
    } else if str_is(t, "IPC") {
        ClientQueryType::IPC
    } else if str_is(t, "BY") {
        ClientQueryType::RequestRelief
    } else if str_is(t, "HI") {
        ClientQueryType::CancelRequestRelief
    } else if str_is(t, "HLP") {
        ClientQueryType::RequestHelp
    } else if str_is(t, "NOHLP") {
        ClientQueryType::CancelRequestHelp
    } else if str_is(t, "WH") {
        ClientQueryType::WhoHas
    } else if str_is(t, "IT") {
        ClientQueryType::InitiateTrack
    } else if str_is(t, "HT") {
        ClientQueryType::AcceptHandoff
    } else if str_is(t, "DR") {
        ClientQueryType::DropTrack
    } else if str_is(t, "FA") {
        ClientQueryType::SetFinalAltitude
    } else if str_is(t, "TA") {
        ClientQueryType::SetTempAltitude
    } else if str_is(t, "BC") {
        ClientQueryType::SetBeaconCode
    } else if str_is(t, "SC") {
        ClientQueryType::SetScratchpad
    } else if str_is(t, "VT") {
        ClientQueryType::SetVoiceType
    } else if str_is(t, "ACC") {
        ClientQueryType::AircraftConfiguration
    } else if str_is(t, "NEWINFO") {
        ClientQueryType::NewInfo
    } else if str_is(t, "NEWATIS") {
        ClientQueryType::NewATIS
    } else {
        ClientQueryType::Unknown
    }
}

/// What the `PC` sub-command `s` (field 3) gives for the fields `f`.
pub open spec fn pc_spec(s: Seq<char>, f: Seq<Seq<char>>, r: Result<PacketTypes, ParseError>) -> bool {
    if s == "HC"@ || s == "DP"@ || s == "PT"@ || s == "IH"@ {
        let kind = if s == "HC"@ {
            TransferControlType::Cancelled
        } else if s == "DP"@ {
            TransferControlType::PushToDepartures
        } else if s == "PT"@ {
            TransferControlType::Pointout
        } else {
            TransferControlType::IHaveControl
        };
        outcome(
            TransferControl::fields_ok(f, kind),
            r matches Ok(PacketTypes::TransferControl(p)) && TransferControl::decoded(f, kind, p),
            r,
        )
    } else if s == "ST"@ {
        outcome(
            FlightStrip::accepts(f),
            r matches Ok(PacketTypes::FlightStrip(p)) && FlightStrip::decodes(f, p),
            r,
        )
    } else if s == "SC"@ || s == "BC"@ || s == "VT"@ || s == "TA"@ {
        let kind = if s == "SC"@ {
            SharedStateType::Scratchpad
        } else if s == "BC"@ {
            SharedStateType::BeaconCode
        } else if s == "VT"@ {
            SharedStateType::VoiceType
        } else {
            SharedStateType::TempAlt
        };
        outcome(
            SharedState::fields_ok(f),
            r matches Ok(PacketTypes::SharedState(p)) && SharedState::decoded(f, kind, p),
            r,
        )
    } else {
        r == Err::<PacketTypes, ParseError>(ParseError::NotAPacket)
    }
}

/// What the two-letter command `cmd` gives for the fields `f`.
pub open spec fn command_spec(cmd: Seq<char>, f: Seq<Seq<char>>, r: Result<PacketTypes, ParseError>) -> bool {
    if cmd == "AA"@ || cmd == "AP"@ {
        let kind = if cmd == "AA"@ {
            NetworkClientType::ATC
        } else {
            NetworkClientType::Pilot
        };
        outcome(
            NetworkClient::fields_ok(f, kind),
            r matches Ok(PacketTypes::NetworkClient(p)) && NetworkClient::decoded(f, kind, p),
            r,
        )
    } else if cmd == "DA"@ || cmd == "DP"@ {
        let kind = if cmd == "DA"@ {
            NetworkClientType::ATC
        } else {
            NetworkClientType::Pilot
        };
        outcome(
            DeleteClient::fields_ok(f),
            r matches Ok(PacketTypes::DeleteClient(p)) && DeleteClient::decoded(f, kind, p),
            r,
        )
    } else if cmd == "TM"@ {
        outcome(
            TextMessage::accepts(f),
            r matches Ok(PacketTypes::TextMessage(p)) && TextMessage::decodes(f, p),
            r,
        )
    } else if cmd == "FP"@ {
        outcome(
            FlightPlan::fields_ok(f),
            r matches Ok(PacketTypes::FlightPlan(p)) && FlightPlan::decoded(f, None, p),
            r,
        )
    } else if cmd == "AM"@ {
        outcome(
            f.len() > 17,
            r matches Ok(PacketTypes::FlightPlan(p)) && FlightPlan::decoded(f, Some(f[17]), p),
            r,
        )
    } else if cmd == "HO"@ || cmd == "HA"@ {
        let kind = if cmd == "HO"@ {
            TransferControlType::Received
        } else {
            TransferControlType::Accepted
        };
        outcome(
            TransferControl::fields_ok(f, kind),
            r matches Ok(PacketTypes::TransferControl(p)) && TransferControl::decoded(f, kind, p),
            r,
        )
    } else if cmd == "AR"@ || cmd == "AX"@ {
        outcome(
            Metar::fields_ok(f),
            r matches Ok(PacketTypes::Metar(p)) && Metar::decoded(f, cmd == "AR"@, p),
            r,
        )
    } else if cmd == "PC"@ {
        if f.len() > 3 {
            pc_spec(f[3], f, r)
        } else {
            r == Err::<PacketTypes, ParseError>(ParseError::Malformed)
        }
    } else if cmd == "CQ"@ || cmd == "CR"@ {
        let is_response = cmd == "CR"@;
        if f.len() > 2 {
            let q = query_type_text(f[2]);
            outcome(
                query_payload_ok(q, is_response, query_tokens(f)),
                r matches Ok(PacketTypes::ClientQuery(p)) && ClientQuery::decoded(
                    f,
                    q,
                    is_response,
                    p,
                ),
                r,
            )
        } else {
            r == Err::<PacketTypes, ParseError>(ParseError::Malformed)
        }
    } else {
        r == Err::<PacketTypes, ParseError>(ParseError::NotAPacket)
    }
}

/// What the line `line` decodes to: `%` and `@` lead controller and pilot
/// positions, `#` and `$` a two-letter command; the rest of the line is split
/// on `:`.
pub open spec fn parse_spec(line: Seq<char>, r: Result<PacketTypes, ParseError>) -> bool {
    let b = clean_line(line);
    if !is_candidate(b) {
        r == Err::<PacketTypes, ParseError>(ParseError::NotAPacket)
    } else if b[0] == '%' {
        let f = split_spec(b.drop_first(), ':');
        outcome(
            ATCPosition::accepts(f),
            r matches Ok(PacketTypes::ATCPosition(p)) && ATCPosition::decodes(f, p),
            r,
        )
    } else if b[0] == '@' {
        let f = split_spec(b.drop_first(), ':');
        outcome(
            PilotPosition::accepts(f),
            r matches Ok(PacketTypes::PilotPosition(p)) && PilotPosition::decodes(f, p),
            r,
        )
    } else if b[0] == '#' || b[0] == '$' {
        command_spec(b.subrange(1, 3), split_spec(b.skip(3), ':'), r)
    } else {
        r == Err::<PacketTypes, ParseError>(ParseError::NotAPacket)
    }
}


/// Decodes the `PC` sub-command in field 3.
fn parse_pc(fields: &Vec<&str>) -> (r: Result<PacketTypes, ParseError>)
    requires
        fields@.len() > 3,
    ensures
        pc_spec(fields.deep_view()[3], fields.deep_view(), r),
{
    let ghost f = fields.deep_view();
    let s = fields[3];
    let transfer = if str_is(s, "HC") {
        Some(TransferControlType::Cancelled)
    } else if str_is(s, "DP") {
        Some(TransferControlType::PushToDepartures)
    } else if str_is(s, "PT") {
        Some(TransferControlType::Pointout)
    } else if str_is(s, "IH") {
        Some(TransferControlType::IHaveControl)
    } else {
        None
    };
    if let Some(kind) = transfer {
        if fields.len() > 4 {
            return Ok(PacketTypes::TransferControl(TransferControl::new(fields, kind)));
        } else {
            return Err(ParseError::Malformed);
        }
    }
    if str_is(s, "ST") {
        if fields.len() > 4 {
            return Ok(PacketTypes::FlightStrip(FlightStrip::from_string(fields)));
        } else {
            return Err(ParseError::Malformed);
        }
    }
    let shared = if str_is(s, "SC") {
        Some(SharedStateType::Scratchpad)
    } else if str_is(s, "BC") {
        Some(SharedStateType::BeaconCode)
    } else if str_is(s, "VT") {
        Some(SharedStateType::VoiceType)
    } else if str_is(s, "TA") {
        Some(SharedStateType::TempAlt)
    } else {
        None
    };
    match shared {
        Some(kind) => if fields.len() > 5 {
            Ok(PacketTypes::SharedState(SharedState::new(fields, kind)))
        } else {
            Err(ParseError::Malformed)
        },
        None => Err(ParseError::NotAPacket),
    }
}

/// Decodes the two-letter command `cmd` with its fields.
fn parse_command(cmd: &str, fields: &Vec<&str>) -> (r: Result<PacketTypes, ParseError>)
    ensures
        command_spec(cmd@, fields.deep_view(), r),
{
    let n = fields.len();
    if str_is(cmd, "AA") || str_is(cmd, "AP") {
        let kind = if str_is(cmd, "AA") {
            NetworkClientType::ATC
        } else {
            NetworkClientType::Pilot
        };
        let ok = if str_is(cmd, "AA") {
            n >= 6
        } else {
            n >= 8 && crate::text::parse_int(&chars_of(fields[5]), false, 0, 255).is_some()
        };
        if ok {
            Ok(PacketTypes::NetworkClient(NetworkClient::new(fields, kind)))
        } else {
            Err(ParseError::Malformed)
        }
    } else if str_is(cmd, "DA") || str_is(cmd, "DP") {
        let kind = if str_is(cmd, "DA") {
            NetworkClientType::ATC
        } else {
            NetworkClientType::Pilot
        };
        if n >= 2 {
            Ok(PacketTypes::DeleteClient(DeleteClient::new(fields, kind)))
        } else {
            Err(ParseError::Malformed)
        }
    } else if str_is(cmd, "TM") {
        if n >= 3 && receiver_well_formed(fields[1]) {
            Ok(PacketTypes::TextMessage(TextMessage::from_string(fields)))
        } else {
            Err(ParseError::Malformed)
        }
    } else if str_is(cmd, "FP") {
        if n >= 17 {
            Ok(PacketTypes::FlightPlan(FlightPlan::new(fields, None)))
        } else {
            Err(ParseError::Malformed)
        }
    } else if str_is(cmd, "AM") {
        if n > 17 {
            Ok(PacketTypes::FlightPlan(FlightPlan::new(fields, Some(fields[17]))))
        } else {
            Err(ParseError::Malformed)
        }
    } else if str_is(cmd, "HO") || str_is(cmd, "HA") {
        let kind = if str_is(cmd, "HO") {
            TransferControlType::Received
        } else {
            TransferControlType::Accepted
        };
        if n > 2 {
            Ok(PacketTypes::TransferControl(TransferControl::new(fields, kind)))
        } else {
            Err(ParseError::Malformed)
        }
    } else if str_is(cmd, "AR") || str_is(cmd, "AX") {
        if n >= 4 {
            Ok(PacketTypes::Metar(Metar::new(fields, str_is(cmd, "AR"))))
        } else {
            Err(ParseError::Malformed)
        }
    } else if str_is(cmd, "PC") {
        if n > 3 {
            parse_pc(fields)
        } else {
            Err(ParseError::Malformed)
        }
    } else if str_is(cmd, "CQ") || str_is(cmd, "CR") {
        let is_response = str_is(cmd, "CR");
        if n > 2 {
            let q = query_type_from(fields[2]);
            match ClientQuery::new(fields, q, is_response) {
                Some(query) => Ok(PacketTypes::ClientQuery(query)),
                None => Err(ParseError::Malformed),
            }
        } else {
            Err(ParseError::Malformed)
        }
    } else {
        Err(ParseError::NotAPacket)
    }
}

/// Whether a text-message receiver token can be decoded.
fn receiver_well_formed(t: &str) -> (r: bool)
    ensures
        r == crate::fsdpackets::receiver_ok(t@),
{
    let n = t.unicode_len();
    if str_is(t, "*") || str_is(t, "*S") || str_is(t, "@49999") {
        true
    } else if n > 0 && t.get_char(0) == '@' {
        n >= 3
    } else {
        true
    }
}

impl Parser {
    /// Decodes one line, telling a line that is no command from a command
    /// whose fields are malformed.
    pub fn parse_line(data: &str) -> (r: Result<PacketTypes, ParseError>)
        ensures
            parse_spec(data@, r),
    {
        let c = chars_of(data);
        let (lo, mut hi) = trim_bounds(&c);
        if hi > lo && c[hi - 1] == '\0' {
            hi = hi - 1;
        }
        let ghost b = c@.subrange(lo as int, hi as int);
        assert(b == clean_line(data@));
        if hi - lo < 3 {
            return Err(ParseError::NotAPacket);
        }
        if !((c[lo] as u32) < 128 && (c[lo + 1] as u32) < 128 && (c[lo + 2] as u32) < 128) {
            return Err(ParseError::NotAPacket);
        }
        let mut i: usize = lo;
        let mut colon = false;
        while i < hi
            invariant
                lo <= i <= hi <= c@.len(),
                b == c@.subrange(lo as int, hi as int),
                colon == (exists|k: int| lo <= k < i && c@[k] == ':'),
            decreases hi - i,
        {
            if c[i] == ':' {
                colon = true;
            }
            i = i + 1;
        }
        if !colon {
            assert(!b.contains(':')) by {
                if b.contains(':') {
                    let k = choose|k: int| 0 <= k < b.len() && b[k] == ':';
                    assert(c@[lo + k] == ':');
                }
            }
            return Err(ParseError::NotAPacket);
        }
        assert(b.contains(':')) by {
            let k = choose|k: int| lo <= k < hi && c@[k] == ':';
            assert(b[k - lo] == ':');
        }
        let lead = c[lo];
        if lead == '%' {
            let fields = split_range(data, &c, lo + 1, hi, ':');
            assert(c@.subrange(lo + 1, hi as int) =~= b.drop_first());
            if check_atc_fields(&fields) {
                Ok(PacketTypes::ATCPosition(ATCPosition::from_string(&fields)))
            } else {
                Err(ParseError::Malformed)
            }
        } else if lead == '@' {
            let fields = split_range(data, &c, lo + 1, hi, ':');
            assert(c@.subrange(lo + 1, hi as int) =~= b.drop_first());
            if check_pilot_fields(&fields) {
                Ok(PacketTypes::PilotPosition(PilotPosition::from_string(&fields)))
            } else {
                Err(ParseError::Malformed)
            }
        } else if lead == '#' || lead == '$' {
            let cmd = data.substring_char(lo + 1, lo + 3);
            let fields = split_range(data, &c, lo + 3, hi, ':');
            assert(c@.subrange(lo + 3, hi as int) =~= b.skip(3));
            assert(cmd@ =~= b.subrange(1, 3));
            parse_command(cmd, &fields)
        } else {
            Err(ParseError::NotAPacket)
        }
    }

    /// Decodes one line; `None` where it is no command or its fields are
    /// malformed.
    pub fn parse(data: &str) -> (r: Option<PacketTypes>)
        ensures
            r matches Some(p) ==> parse_spec(data@, Ok(p)),
            r is None ==> parse_spec(data@, Err(ParseError::NotAPacket)) || parse_spec(
                data@,
                Err(ParseError::Malformed),
            ),
    {
        match Parser::parse_line(data) {
            Ok(p) => Some(p),
            Err(_) => None,
        }
    }
}

fn check_atc_fields(fields: &Vec<&str>) -> (r: bool)
    ensures
        r == ATCPosition::accepts(fields.deep_view()),
{
    fields.len() >= 7 && fields[1].unicode_len() >= 2 && crate::text::parse_int(
        &chars_of(fields[3]),
        false,
        0,
        65535,
    ).is_some() && crate::fsdpackets::check_coordinate(fields[5])
        && crate::fsdpackets::check_coordinate(fields[6])
}

fn check_pilot_fields(fields: &Vec<&str>) -> (r: bool)
    ensures
        r == PilotPosition::accepts(fields.deep_view()),
{
    if fields.len() < 10 {
        return false;
    }
    let lo = i32::MIN as i64;
    let hi = i32::MAX as i64;
    let alt = crate::text::parse_int(&chars_of(fields[6]), true, lo, hi);
    let delta = crate::text::parse_int(&chars_of(fields[9]), true, lo, hi);
    let sum_ok = match (alt, delta) {
        (Some(a), Some(d)) => lo <= a + d && a + d <= hi,
        _ => false,
    };
    crate::text::parse_int(&chars_of(fields[2]), false, 0, 65535).is_some()
        && crate::fsdpackets::check_coordinate(fields[4])
        && crate::fsdpackets::check_coordinate(fields[5])
        && crate::text::parse_int(&chars_of(fields[7]), true, lo, hi).is_some()
        && crate::text::parse_int(&chars_of(fields[8]), true, i64::MIN, i64::MAX).is_some()
        && sum_ok
}

} // verus!
