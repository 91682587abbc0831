//! The FSD records, one per command, and the enumerations their fields use.
use crate::text::{all_digits, chars_of, int_in_range, int_text, is_digit, owned, parse_int, str_is};
use crate::json::{json_of, Json};
use crate::util::{frequency_text, Frequency};
use vstd::prelude::*;

verus! {

/// A record that is built from the colon-separated fields of one FSD line.
pub trait Packet: Sized {
    /// Whether `fields` have the shape that the record needs.
    spec fn accepts(fields: Seq<Seq<char>>) -> bool;

    /// Whether `p` is the record that `fields` describe.
    spec fn decodes(fields: Seq<Seq<char>>, p: Self) -> bool;

    fn from_string(fields: &Vec<&str>) -> (r: Self)
        requires
            Self::accepts(fields.deep_view()),
        ensures
            Self::decodes(fields.deep_view(), r),
    ;
}

#[derive(PartialEq, Debug, Clone)]
pub enum TextMessageReceiver {
    Broadcast,
    Wallop,
    ATC,
    PrivateMessage,
    Radio(Frequency),
}

#[derive(PartialEq, Eq, Structural, Debug, Clone, Copy)]
pub enum NetworkFacility {
    OBS,
    FSS,
    DEL,
    GND,
    TWR,
    APP,
    CTR,
    Undefined,
}

/// The facility with number `n`, in declaration order from 0.
pub open spec fn facility_of(n: int) -> NetworkFacility {
    if n == 0 {
        NetworkFacility::OBS
    } else if n == 1 {
        NetworkFacility::FSS
    } else if n == 2 {
        NetworkFacility::DEL
    } else if n == 3 {
        NetworkFacility::GND
    } else if n == 4 {
        NetworkFacility::TWR
    } else if n == 5 {
        NetworkFacility::APP
    } else if n == 6 {
        NetworkFacility::CTR
    } else {
        NetworkFacility::Undefined
    }
}

/// The facility that the text `s` names by number; anything else is `Undefined`.
pub open spec fn facility_text(s: Seq<char>) -> NetworkFacility {
    match int_text(s, false) {
        Some(n) => facility_of(n),
        None => NetworkFacility::Undefined,
    }
}

impl NetworkFacility {
    /// Decodes a facility number; empty, non-numeric and out-of-range text give
    /// `Undefined`.
    pub fn from_string(data: &str) -> (r: Self)
        ensures
            r == facility_text(data@),
    {
        let c = chars_of(data);
        match parse_int(&c, false, 0, 6) {
            Some(0) => NetworkFacility::OBS,
            Some(1) => NetworkFacility::FSS,
            Some(2) => NetworkFacility::DEL,
            Some(3) => NetworkFacility::GND,
            Some(4) => NetworkFacility::TWR,
            Some(5) => NetworkFacility::APP,
            Some(6) => NetworkFacility::CTR,
            _ => NetworkFacility::Undefined,
        }
    }
}

#[derive(PartialEq, Eq, Structural, Debug, Clone, Copy)]
pub enum NetworkRating {
    Undefined,
    OBS,
    S1,
    S2,
    S3,
    C1,
    C2,
    C3,
    I1,
    I2,
    I3,
    SUP,
    ADM,
}

/// The rating with number `n`, in declaration order from 0.
pub open spec fn rating_of(n: int) -> NetworkRating {
    if n == 1 {
        NetworkRating::OBS
    } else if n == 2 {
        NetworkRating::S1
    } else if n == 3 {
        NetworkRating::S2
    } else if n == 4 {
        NetworkRating::S3
    } else if n == 5 {
        NetworkRating::C1
    } else if n == 6 {
        NetworkRating::C2
    } else if n == 7 {
        NetworkRating::C3
    } else if n == 8 {
        NetworkRating::I1
    } else if n == 9 {
        NetworkRating::I2
    } else if n == 10 {
        NetworkRating::I3
    } else if n == 11 {
        NetworkRating::SUP
    } else if n == 12 {
        NetworkRating::ADM
    } else {
        NetworkRating::Undefined
    }
}

/// The rating that the text `s` names by number; anything else is `Undefined`.
pub open spec fn rating_text(s: Seq<char>) -> NetworkRating {
    match int_text(s, false) {
        Some(n) => rating_of(n),
        None => NetworkRating::Undefined,
    }
}

/// The short name of each rating.
pub open spec fn rating_name(r: NetworkRating) -> Seq<char> {
    match r {
        NetworkRating::Undefined => "Undefined"@,
        NetworkRating::OBS => "OBS"@,
        NetworkRating::S1 => "S1"@,
        NetworkRating::S2 => "S2"@,
        NetworkRating::S3 => "S3"@,
        NetworkRating::C1 => "C1"@,
        NetworkRating::C2 => "C2"@,
        NetworkRating::C3 => "C3"@,
        NetworkRating::I1 => "I1"@,
        NetworkRating::I2 => "I2"@,
        NetworkRating::I3 => "I3"@,
        NetworkRating::SUP => "SUP"@,
        NetworkRating::ADM => "ADM"@,
    }
}

impl NetworkRating {
    /// Decodes a rating number; empty, non-numeric and out-of-range text give
    /// `Undefined`.
    pub fn from_string(data: &str) -> (r: Self)
        ensures
            r == rating_text(data@),
    {
        let c = chars_of(data);
        Self::from_number(parse_int(&c, false, 0, 12))
    }

    fn from_number(n: Option<i64>) -> (r: Self)
        ensures
            n matches Some(v) ==> r == rating_of(v as int),
            n is None ==> r == NetworkRating::Undefined,
    {
        match n {
            Some(1) => NetworkRating::OBS,
            Some(2) => NetworkRating::S1,
            Some(3) => NetworkRating::S2,
            Some(4) => NetworkRating::S3,
            Some(5) => NetworkRating::C1,
            Some(6) => NetworkRating::C2,
            Some(7) => NetworkRating::C3,
            Some(8) => NetworkRating::I1,
            Some(9) => NetworkRating::I2,
            Some(10) => NetworkRating::I3,
            Some(11) => NetworkRating::SUP,
            Some(12) => NetworkRating::ADM,
            _ => NetworkRating::Undefined,
        }
    }

    /// The rating's short name (`OBS`, `C1`, ...).
    pub fn name(&self) -> (r: &'static str)
        ensures
            r@ == rating_name(*self),
    {
        match self {
            NetworkRating::Undefined => "Undefined",
            NetworkRating::OBS => "OBS",
            NetworkRating::S1 => "S1",
            NetworkRating::S2 => "S2",
            NetworkRating::S3 => "S3",
            NetworkRating::C1 => "C1",
            NetworkRating::C2 => "C2",
            NetworkRating::C3 => "C3",
            NetworkRating::I1 => "I1",
            NetworkRating::I2 => "I2",
            NetworkRating::I3 => "I3",
            NetworkRating::SUP => "SUP",
            NetworkRating::ADM => "ADM",
        }
    }
}

/// Engine kinds, numbered from 0 in declaration order.
#[derive(PartialEq, Eq, Structural, Debug, Clone, Copy)]
pub enum EngineType {
    Piston,
    Jet,
    NoEngine,
    Helo,
}

/// The engine kind with number `n`, where there is one.
pub open spec fn engine_type_of(n: int) -> Option<EngineType> {
    if n == 0 {
        Some(EngineType::Piston)
    } else if n == 1 {
        Some(EngineType::Jet)
    } else if n == 2 {
        Some(EngineType::NoEngine)
    } else if n == 3 {
        Some(EngineType::Helo)
    } else {
        None
    }
}

impl EngineType {
    /// The engine kind that the text `data` names by number.
    pub fn from_string(data: &str) -> (r: Option<Self>)
        ensures
            r == (match int_text(data@, false) {
                Some(n) => engine_type_of(n),
                None => None,
            }),
    {
        let c = chars_of(data);
        match parse_int(&c, false, 0, 3) {
            Some(0) => Some(EngineType::Piston),
            Some(1) => Some(EngineType::Jet),
            Some(2) => Some(EngineType::NoEngine),
            Some(3) => Some(EngineType::Helo),
            _ => None,
        }
    }
}

/// Simulators, numbered from 0 in declaration order.
#[derive(PartialEq, Eq, Structural, Debug, Clone, Copy)]
pub enum SimulatorType {
    Unknown,
    MSFS95,
    MSFS98,
    MSCFS,
    AS2,
    PS1,
    XPlane,
}

/// Protocol revisions; `number` gives each one's number on the wire.
#[derive(PartialEq, Eq, Structural, Debug, Clone, Copy)]
pub enum ProtocolRevision {
    Unknown,
    Classic,
    VatsimNoAuth,
    VatsimAuth,
}

impl ProtocolRevision {
    pub open spec fn spec_number(self) -> u8 {
        match self {
            ProtocolRevision::Unknown => 0,
            ProtocolRevision::Classic => 9,
            ProtocolRevision::VatsimNoAuth => 10,
            ProtocolRevision::VatsimAuth => 100,
        }
    }

    pub fn number(&self) -> (r: u8)
        ensures
            r == self.spec_number(),
    {
        match self {
            ProtocolRevision::Unknown => 0,
            ProtocolRevision::Classic => 9,
            ProtocolRevision::VatsimNoAuth => 10,
            ProtocolRevision::VatsimAuth => 100,
        }
    }
}

#[derive(PartialEq, Eq, Structural, Debug, Clone, Copy)]
pub enum NetworkClientType {
    ATC,
    Pilot,
    Undefined,
}

#[derive(PartialEq, Eq, Structural, Debug, Clone, Copy)]
pub enum FlightRules {
    IFR,
    VFR,
    DVFR,
    SVFR,
    Undefined,
}

#[derive(PartialEq, Eq, Structural, Debug, Clone, Copy)]
pub enum SquawkType {
    Standby,
    Charlie,
    Ident,
    Undefined,
}

#[derive(PartialEq, Eq, Structural, Debug, Clone, Copy)]
pub enum ClientQueryType {
    Unknown,
    IsValidATC,
    Capabilities,
    COM1Freq,
    RealName,
    Server,
    ATIS,
    PublicIP,
    INF,
    FlightPlan,
    IPC,
    RequestRelief,
    CancelRequestRelief,
    RequestHelp,
    CancelRequestHelp,
    WhoHas,
    InitiateTrack,
    AcceptHandoff,
    DropTrack,
    SetFinalAltitude,
    SetTempAltitude,
    SetBeaconCode,
    SetScratchpad,
    SetVoiceType,
    AircraftConfiguration,
    NewInfo,
    NewATIS,
}

#[derive(PartialEq, Eq, Structural, Debug, Clone, Copy)]
pub enum SharedStateType {
    Scratchpad,
    BeaconCode,
    VoiceType,
    TempAlt,
    Unknown,
}

#[derive(PartialEq, Eq, Structural, Debug, Clone, Copy)]
pub enum TransferControlType {
    Received,
    Accepted,
    Cancelled,
    IHaveControl,
    Pointout,
    PushToDepartures,
}


/// An owned copy of field `i`.
fn field(fields: &Vec<&str>, i: usize) -> (r: String)
    requires
        i < fields@.len(),
    ensures
        r@ == fields.deep_view()[i as int],
{
    owned(fields[i])
}

#[derive(PartialEq, Debug, Clone)]
pub struct TextMessage {
    pub sender: String,
    pub receiver: TextMessageReceiver,
    pub text: String,
}

/// Whether `x` is the receiver that the token `t` names: `*`, `*S` and
/// `@49999` are fixed, another `@` token is a radio frequency, anything else a
/// private message.
pub open spec fn receiver_decodes(t: Seq<char>, x: TextMessageReceiver) -> bool {
    if t == "*"@ {
        x == TextMessageReceiver::Broadcast
    } else if t == "*S"@ {
        x == TextMessageReceiver::Wallop
    } else if t == "@49999"@ {
        x == TextMessageReceiver::ATC
    } else if t.len() > 0 && t[0] == '@' {
        x matches TextMessageReceiver::Radio(f) && f.text@ == frequency_text(t.drop_first())
    } else {
        x == TextMessageReceiver::PrivateMessage
    }
}

/// Whether the receiver token `t` can be decoded: a radio frequency needs at
/// least two digits.
pub open spec fn receiver_ok(t: Seq<char>) -> bool {
    (t != "*"@ && t != "*S"@ && t != "@49999"@ && t.len() > 0 && t[0] == '@') ==> t.len() >= 3
}

impl Packet for TextMessage {
    open spec fn accepts(f: Seq<Seq<char>>) -> bool {
        f.len() >= 3 && receiver_ok(f[1])
    }

    open spec fn decodes(f: Seq<Seq<char>>, p: Self) -> bool {
        &&& p.sender@ == f[0]
        &&& receiver_decodes(f[1], p.receiver)
        &&& p.text@ == f[2]
    }

    fn from_string(fields: &Vec<&str>) -> (r: Self) {
        let t = fields[1];
        let receiver = if str_is(t, "*") {
            TextMessageReceiver::Broadcast
        } else if str_is(t, "*S") {
            TextMessageReceiver::Wallop
        } else if str_is(t, "@49999") {
            TextMessageReceiver::ATC
        } else {
            let n = t.unicode_len();
            if n > 0 && t.get_char(0) == '@' {
                let digits = t.substring_char(1, n);
                assert(digits@ == t@.drop_first());
                TextMessageReceiver::Radio(Frequency::from_packet_string(digits))
            } else {
                TextMessageReceiver::PrivateMessage
            }
        };
        TextMessage { sender: field(fields, 0), receiver, text: field(fields, 2) }
    }
}

#[derive(PartialEq, Debug)]
pub struct NetworkClient {
    pub client_type: NetworkClientType,
    pub callsign: String,
    pub real_name: String,
    pub cid: String,
    pub password: String,
    pub rating: NetworkRating,
    pub protocol_ver: u8,
}

impl NetworkClient {
    /// Whether `f` has the shape of a registration of kind `client`: a
    /// controller's has six fields, any other eight with a protocol number
    /// (0 to 255) at index 5.
    pub open spec fn fields_ok(f: Seq<Seq<char>>, client: NetworkClientType) -> bool {
        if client == NetworkClientType::ATC {
            f.len() >= 6
        } else {
            f.len() >= 8 && int_in_range(f[5], false, 0, 255) is Some
        }
    }

    /// Whether `p` is the registration of kind `client` that `f` describe.
    pub open spec fn decoded(f: Seq<Seq<char>>, client: NetworkClientType, p: Self) -> bool {
        &&& p.client_type == client
        &&& p.callsign@ == f[0]
        &&& if client == NetworkClientType::ATC {
            &&& p.real_name@ == f[2]
            &&& p.cid@ == f[3]
            &&& p.password@ == f[4]
            &&& p.rating == rating_text(f[5])
            &&& p.protocol_ver == 0
        } else {
            &&& p.cid@ == f[2]
            &&& p.password@ == f[3]
            &&& p.rating == rating_text(f[4])
            &&& int_in_range(f[5], false, 0, 255) == Some(p.protocol_ver as int)
            &&& p.real_name@ == f[7]
        }
    }

    pub fn new(fields: &Vec<&str>, client: NetworkClientType) -> (r: Self)
        requires
            Self::fields_ok(fields.deep_view(), client),
        ensures
            Self::decoded(fields.deep_view(), client, r),
    {
        match client {
            NetworkClientType::ATC => NetworkClient {
                callsign: field(fields, 0),
                real_name: field(fields, 2),
                cid: field(fields, 3),
                password: field(fields, 4),
                rating: NetworkRating::from_string(fields[5]),
                protocol_ver: 0,
                client_type: client,
            },
            _ => {
                let ver = match parse_int(&chars_of(fields[5]), false, 0, 255) {
                    Some(v) => v as u8,
                    None => 0,
                };
                NetworkClient {
                    callsign: field(fields, 0),
                    cid: field(fields, 2),
                    password: field(fields, 3),
                    rating: NetworkRating::from_string(fields[4]),
                    protocol_ver: ver,
                    real_name: field(fields, 7),
                    client_type: client,
                }
            },
        }
    }
}

impl Packet for NetworkClient {
    open spec fn accepts(f: Seq<Seq<char>>) -> bool {
        Self::fields_ok(f, NetworkClientType::Undefined)
    }

    open spec fn decodes(f: Seq<Seq<char>>, p: Self) -> bool {
        Self::decoded(f, NetworkClientType::Undefined, p)
    }

    fn from_string(fields: &Vec<&str>) -> (r: Self) {
        NetworkClient::new(fields, NetworkClientType::Undefined)
    }
}

#[derive(PartialEq, Debug, Clone)]
pub struct SharedState {
    pub from: String,
    pub to: String,
    pub target: String,
    pub value: String,
    pub shared_type: SharedStateType,
}

impl SharedState {
    pub open spec fn fields_ok(f: Seq<Seq<char>>) -> bool {
        f.len() >= 6
    }

    /// Target at index 4, value at index 5.
    pub open spec fn decoded(f: Seq<Seq<char>>, kind: SharedStateType, p: Self) -> bool {
        &&& p.from@ == f[0]
        &&& p.to@ == f[1]
        &&& p.target@ == f[4]
        &&& p.value@ == f[5]
        &&& p.shared_type == kind
    }

    pub fn new(fields: &Vec<&str>, shared_type: SharedStateType) -> (r: Self)
        requires
            Self::fields_ok(fields.deep_view()),
        ensures
            Self::decoded(fields.deep_view(), shared_type, r),
    {
        SharedState {
            from: field(fields, 0),
            to: field(fields, 1),
            target: field(fields, 4),
            value: field(fields, 5),
            shared_type,
        }
    }
}

impl Packet for SharedState {
    open spec fn accepts(f: Seq<Seq<char>>) -> bool {
        Self::fields_ok(f)
    }

    open spec fn decodes(f: Seq<Seq<char>>, p: Self) -> bool {
        Self::decoded(f, SharedStateType::Unknown, p)
    }

    fn from_string(fields: &Vec<&str>) -> (r: Self) {
        SharedState::new(fields, SharedStateType::Unknown)
    }
}

#[derive(PartialEq, Debug, Clone)]
pub struct FlightStrip {
    pub from: String,
    pub to: String,
    pub target: String,
    pub format_id: String,
    pub annotations: Vec<String>,
}

impl Packet for FlightStrip {
    /// Target at index 4.
    open spec fn accepts(f: Seq<Seq<char>>) -> bool {
        f.len() >= 5
    }

    /// Format at index 5 (empty where absent), annotations from index 6 on.
    open spec fn decodes(f: Seq<Seq<char>>, p: Self) -> bool {
        &&& p.from@ == f[0]
        &&& p.to@ == f[1]
        &&& p.target@ == f[4]
        &&& p.format_id@ == (if f.len() > 5 {
            f[5]
        } else {
            Seq::<char>::empty()
        })
        &&& p.annotations.deep_view() == (if f.len() > 6 {
            f.skip(6)
        } else {
            Seq::<Seq<char>>::empty()
        })
    }

    fn from_string(fields: &Vec<&str>) -> (r: Self) {
        let n = fields.len();
        let mut annotations: Vec<String> = Vec::new();
        if n > 6 {
            let mut i: usize = 6;
            assert(fields.deep_view().subrange(6, 6) =~= Seq::<Seq<char>>::empty());
            while i < n
                invariant
                    n == fields@.len(),
                    6 <= i <= n,
                    annotations.deep_view() == fields.deep_view().subrange(6, i as int),
                decreases n - i,
            {
                let ghost prev = annotations.deep_view();
                annotations.push(field(fields, i));
                assert(annotations.deep_view() =~= prev.push(fields.deep_view()[i as int]));
                assert(annotations.deep_view() =~= fields.deep_view().subrange(6, i + 1));
                i = i + 1;
            }
        }
        assert(n > 6 ==> fields.deep_view().subrange(6, n as int) =~= fields.deep_view().skip(6));
        assert(n <= 6 ==> annotations.deep_view() =~= Seq::<Seq<char>>::empty());
        let format_id = if n > 5 {
            field(fields, 5)
        } else {
            String::new()
        };
        FlightStrip {
            from: field(fields, 0),
            to: field(fields, 1),
            target: field(fields, 4),
            format_id,
            annotations,
        }
    }
}

#[derive(PartialEq, Debug, Clone)]
pub struct DeleteClient {
    pub client_type: NetworkClientType,
    pub callsign: String,
    pub cid: String,
}

impl DeleteClient {
    pub open spec fn fields_ok(f: Seq<Seq<char>>) -> bool {
        f.len() >= 2
    }

    pub open spec fn decoded(f: Seq<Seq<char>>, client: NetworkClientType, p: Self) -> bool {
        &&& p.callsign@ == f[0]
        &&& p.cid@ == f[1]
        &&& p.client_type == client
    }

    pub fn new(fields: &Vec<&str>, client: NetworkClientType) -> (r: Self)
        requires
            Self::fields_ok(fields.deep_view()),
        ensures
            Self::decoded(fields.deep_view(), client, r),
    {
        DeleteClient { callsign: field(fields, 0), cid: field(fields, 1), client_type: client }
    }
}

impl Packet for DeleteClient {
    open spec fn accepts(f: Seq<Seq<char>>) -> bool {
        Self::fields_ok(f)
    }

    open spec fn decodes(f: Seq<Seq<char>>, p: Self) -> bool {
        Self::decoded(f, NetworkClientType::Undefined, p)
    }

    fn from_string(fields: &Vec<&str>) -> (r: Self) {
        DeleteClient::new(fields, NetworkClientType::Undefined)
    }
}


/// The flight rules that the token `t` names, in long or one-letter form.
pub open spec fn rules_text(t: Seq<char>) -> FlightRules {
    if t == "I"@ || t == "IFR"@ {
        FlightRules::IFR
    } else if t == "V"@ || t == "VFR"@ {
        FlightRules::VFR
    } else if t == "D"@ || t == "DVFR"@ {
        FlightRules::DVFR
    } else if t == "S"@ || t == "SVFR"@ {
        FlightRules::SVFR
    } else {
        FlightRules::Undefined
    }
}

impl FlightRules {
    pub fn from_string(t: &str) -> (r: Self)
        ensures
            r == rules_text(t@),
    {
        if str_is(t, "I") || str_is(t, "IFR") {
            FlightRules::IFR
        } else if str_is(t, "V") || str_is(t, "VFR") {
            FlightRules::VFR
        } else if str_is(t, "D") || str_is(t, "DVFR") {
            FlightRules::DVFR
        } else if str_is(t, "S") || str_is(t, "SVFR") {
            FlightRules::SVFR
        } else {
            FlightRules::Undefined
        }
    }
}

#[derive(PartialEq, Debug, Clone)]
pub struct FlightPlan {
    pub callsign: String,
    pub rule: FlightRules,
    pub equipment: String,
    pub tas: String,
    pub origin: String,
    pub dep_time: String,
    pub actual_dep_time: String,
    pub cruise_alt: String,
    pub dest: String,
    pub hours_enroute: String,
    pub minutes_enroute: String,
    pub fuel_avail_hours: String,
    pub fuel_avail_minutes: String,
    pub alternate: String,
    pub remarks: String,
    pub route: String,
    pub amended_by: Option<String>,
}

impl FlightPlan {
    pub open spec fn fields_ok(f: Seq<Seq<char>>) -> bool {
        f.len() >= 17
    }

    /// Whether `p` is the plan that `f` describe, amended by `amended`.
    pub open spec fn decoded(f: Seq<Seq<char>>, amended: Option<Seq<char>>, p: Self) -> bool {
        &&& p.callsign@ == f[0]
        &&& p.rule == rules_text(f[2])
        &&& p.equipment@ == f[3]
        &&& p.tas@ == f[4]
        &&& p.origin@ == f[5]
        &&& p.dep_time@ == f[6]
        &&& p.actual_dep_time@ == f[7]
        &&& p.cruise_alt@ == f[8]
        &&& p.dest@ == f[9]
        &&& p.hours_enroute@ == f[10]
        &&& p.minutes_enroute@ == f[11]
        &&& p.fuel_avail_hours@ == f[12]
        &&& p.fuel_avail_minutes@ == f[13]
        &&& p.alternate@ == f[14]
        &&& p.remarks@ == f[15]
        &&& p.route@ == f[16]
        &&& p.amended_by.deep_view() == amended
    }

    pub fn new(fields: &Vec<&str>, amended: Option<&str>) -> (r: Self)
        requires
            Self::fields_ok(fields.deep_view()),
        ensures
            Self::decoded(fields.deep_view(), amended.deep_view(), r),
    {
        let amended_by = match amended {
            Some(callsign) => Some(owned(callsign)),
            None => None,
        };
        FlightPlan {
            callsign: field(fields, 0),
            rule: FlightRules::from_string(fields[2]),
            equipment: field(fields, 3),
            tas: field(fields, 4),
            origin: field(fields, 5),
            dep_time: field(fields, 6),
            actual_dep_time: field(fields, 7),
            cruise_alt: field(fields, 8),
            dest: field(fields, 9),
            hours_enroute: field(fields, 10),
            minutes_enroute: field(fields, 11),
            fuel_avail_hours: field(fields, 12),
            fuel_avail_minutes: field(fields, 13),
            alternate: field(fields, 14),
            remarks: field(fields, 15),
            route: field(fields, 16),
            amended_by,
        }
    }
}

impl Packet for FlightPlan {
    open spec fn accepts(f: Seq<Seq<char>>) -> bool {
        Self::fields_ok(f)
    }

    open spec fn decodes(f: Seq<Seq<char>>, p: Self) -> bool {
        Self::decoded(f, None, p)
    }

    fn from_string(fields: &Vec<&str>) -> (r: Self) {
        FlightPlan::new(fields, None)
    }
}

#[derive(PartialEq, Debug, Clone)]
pub struct TransferControl {
    pub from: String,
    pub to: String,
    pub target: String,
    pub transfer_type: TransferControlType,
}

/// Where the target of a transfer of kind `kind` stands: index 2 for a
/// handoff that was received or accepted, index 4 for the others.
pub open spec fn transfer_target_index(kind: TransferControlType) -> int {
    match kind {
        TransferControlType::Received | TransferControlType::Accepted => 2,
        _ => 4,
    }
}

impl TransferControl {
    pub open spec fn fields_ok(f: Seq<Seq<char>>, kind: TransferControlType) -> bool {
        f.len() > transfer_target_index(kind)
    }

    pub open spec fn decoded(f: Seq<Seq<char>>, kind: TransferControlType, p: Self) -> bool {
        &&& p.from@ == f[0]
        &&& p.to@ == f[1]
        &&& p.target@ == f[transfer_target_index(kind)]
        &&& p.transfer_type == kind
    }

    pub fn new(fields: &Vec<&str>, transfer_type: TransferControlType) -> (r: Self)
        requires
            Self::fields_ok(fields.deep_view(), transfer_type),
        ensures
            Self::decoded(fields.deep_view(), transfer_type, r),
    {
        let target = match transfer_type {
            TransferControlType::Accepted | TransferControlType::Received => field(fields, 2),
            _ => field(fields, 4),
        };
        TransferControl { from: field(fields, 0), to: field(fields, 1), target, transfer_type }
    }
}

impl Packet for TransferControl {
    open spec fn accepts(f: Seq<Seq<char>>) -> bool {
        Self::fields_ok(f, TransferControlType::Received)
    }

    open spec fn decodes(f: Seq<Seq<char>>, p: Self) -> bool {
        Self::decoded(f, TransferControlType::Received, p)
    }

    fn from_string(fields: &Vec<&str>) -> (r: Self) {
        TransferControl::new(fields, TransferControlType::Received)
    }
}

#[derive(Debug, PartialEq, Clone)]
pub struct Metar {
    pub is_response: bool,
    pub from: String,
    pub to: String,
    pub payload: String,
}

impl Metar {
    pub open spec fn fields_ok(f: Seq<Seq<char>>) -> bool {
        f.len() >= 4
    }

    /// The report (or the station asked for) at index 3.
    pub open spec fn decoded(f: Seq<Seq<char>>, is_response: bool, p: Self) -> bool {
        &&& p.is_response == is_response
        &&& p.from@ == f[0]
        &&& p.to@ == f[1]
        &&& p.payload@ == f[3]
    }

    pub fn new(fields: &Vec<&str>, is_response: bool) -> (r: Self)
        requires
            Self::fields_ok(fields.deep_view()),
        ensures
            Self::decoded(fields.deep_view(), is_response, r),
    {
        Metar { is_response, from: field(fields, 0), to: field(fields, 1), payload: field(fields, 3) }
    }
}

impl Packet for Metar {
    open spec fn accepts(f: Seq<Seq<char>>) -> bool {
        Self::fields_ok(f)
    }

    open spec fn decodes(f: Seq<Seq<char>>, p: Self) -> bool {
        Self::decoded(f, false, p)
    }

    fn from_string(fields: &Vec<&str>) -> (r: Self) {
        Metar::new(fields, false)
    }
}

#[derive(Debug, PartialEq, Clone)]
pub struct PlaneInfoRequest {
    pub from: String,
    pub to: String,
}

impl PlaneInfoRequest {
    pub fn new(fields: &Vec<&str>) -> (r: Self)
        requires
            fields@.len() >= 2,
        ensures
            <Self as Packet>::decodes(fields.deep_view(), r),
    {
        PlaneInfoRequest { from: field(fields, 0), to: field(fields, 1) }
    }
}

impl Packet for PlaneInfoRequest {
    open spec fn accepts(f: Seq<Seq<char>>) -> bool {
        f.len() >= 2
    }

    open spec fn decodes(f: Seq<Seq<char>>, p: Self) -> bool {
        p.from@ == f[0] && p.to@ == f[1]
    }

    fn from_string(fields: &Vec<&str>) -> (r: Self) {
        PlaneInfoRequest::new(fields)
    }
}


#[derive(Debug, PartialEq, Clone)]
#[allow(inconsistent_fields)]
pub enum PlaneInfoResponse {
    Legacy { csl: String, engine_type: EngineType },
    Regular {
        equipment: Option<String>,
        airline: Option<String>,
        livery: Option<String>,
        csl: Option<String>,
    },
}

/// `c` and `k` are the same letter up to ASCII case (`k` as written).
pub open spec fn same_up_to_case(c: char, k: char) -> bool {
    c == k || ('a' <= c && c <= 'z' && c as u32 == k as u32 + 32)
}

/// Whether the field `f` starts with `key`, up to ASCII case, and has at
/// least one character (the separator) after it.
pub open spec fn key_matches(f: Seq<char>, key: Seq<char>) -> bool {
    f.len() > key.len() && forall|i: int| 0 <= i < key.len() ==> same_up_to_case(#[trigger] f[i], key[i])
}

/// The value of the first field of `fields` that starts with `key`: what
/// follows the key and its separator.
pub open spec fn find_value_spec(fields: Seq<Seq<char>>, key: Seq<char>) -> Option<Seq<char>>
    decreases fields.len(),
{
    if fields.len() == 0 {
        None
    } else if key_matches(fields[0], key) {
        Some(fields[0].skip(key.len() + 1 as int))
    } else {
        find_value_spec(fields.drop_first(), key)
    }
}

fn field_has_key(f: &str, key: &str) -> (r: bool)
    ensures
        r == key_matches(f@, key@),
{
    let fc = chars_of(f);
    let kc = chars_of(key);
    if fc.len() <= kc.len() {
        return false;
    }
    let mut i: usize = 0;
    while i < kc.len()
        invariant
            fc@ == f@,
            kc@ == key@,
            kc@.len() < fc@.len(),
            i <= kc@.len(),
            forall|j: int| 0 <= j < i ==> same_up_to_case(#[trigger] fc@[j], kc@[j]),
        decreases kc.len() - i,
    {
        let c = fc[i];
        let k = kc[i];
        if !(c == k || ('a' <= c && c <= 'z' && (c as u32) - 32 == k as u32)) {
            assert(!same_up_to_case(fc@[i as int], kc@[i as int]));
            return false;
        }
        i = i + 1;
    }
    true
}

/// The value of the first field that starts with `key` (ASCII letters in
/// either case), where there is one.
pub fn find_value(fields: &Vec<&str>, key: &str) -> (r: Option<String>)
    ensures
        r.deep_view() == find_value_spec(fields.deep_view(), key@),
{
    let n = fields.len();
    let mut i: usize = 0;
    assert(fields.deep_view().skip(0) =~= fields.deep_view());
    while i < n
        invariant
            n == fields@.len(),
            i <= n,
            find_value_spec(fields.deep_view(), key@) == find_value_spec(
                fields.deep_view().skip(i as int),
                key@,
            ),
        decreases n - i,
    {
        let ghost rest = fields.deep_view().skip(i as int);
        assert(rest[0] == fields.deep_view()[i as int]);
        assert(rest.drop_first() =~= fields.deep_view().skip(i + 1));
        let f = fields[i];
        if field_has_key(f, key) {
            let len = f.unicode_len();
            let klen = key.unicode_len();
            return Some(owned(f.substring_char(klen + 1, len)));
        }
        i = i + 1;
    }
    assert(fields.deep_view().skip(n as int) =~= Seq::<Seq<char>>::empty());
    None
}

#[derive(Debug, PartialEq, Clone)]
pub struct PlaneInfo {
    pub from: String,
    pub to: String,
    pub payload: PlaneInfoResponse,
}

impl Packet for PlaneInfo {
    /// A legacy answer (`X` at index 3) has an engine number at index 5 and a
    /// model at index 6.
    open spec fn accepts(f: Seq<Seq<char>>) -> bool {
        f.len() >= 4 && (f[3] == "X"@ ==> (f.len() >= 7 && int_in_range(f[5], false, 0, 3) is Some))
    }

    open spec fn decodes(f: Seq<Seq<char>>, p: Self) -> bool {
        &&& p.from@ == f[0]
        &&& p.to@ == f[1]
        &&& if f[3] == "X"@ {
            p.payload matches PlaneInfoResponse::Legacy { csl, engine_type } && csl@ == f[6]
                && Some(engine_type) == engine_type_of(int_text(f[5], false)->0)
        } else {
            p.payload matches PlaneInfoResponse::Regular { equipment, airline, livery, csl }
                && equipment.deep_view() == find_value_spec(f, "EQUIPMENT"@)
                && airline.deep_view() == find_value_spec(f, "AIRLINE"@)
                && livery.deep_view() == find_value_spec(f, "LIVERY"@)
                && csl.deep_view() == find_value_spec(f, "CSL"@)
        }
    }

    fn from_string(fields: &Vec<&str>) -> (r: Self) {
        PlaneInfo::new(fields)
    }
}

impl PlaneInfo {
    pub fn new(fields: &Vec<&str>) -> (r: Self)
        requires
            <Self as Packet>::accepts(fields.deep_view()),
        ensures
            <Self as Packet>::decodes(fields.deep_view(), r),
    {
        let payload = if str_is(fields[3], "X") {
            let engine_type = match EngineType::from_string(fields[5]) {
                Some(e) => e,
                None => EngineType::Piston,
            };
            PlaneInfoResponse::Legacy { csl: field(fields, 6), engine_type }
        } else {
            PlaneInfoResponse::Regular {
                equipment: find_value(fields, "EQUIPMENT"),
                airline: find_value(fields, "AIRLINE"),
                livery: find_value(fields, "LIVERY"),
                csl: find_value(fields, "CSL"),
            }
        };
        PlaneInfo { from: field(fields, 0), to: field(fields, 1), payload }
    }
}

#[derive(Debug, PartialEq, Clone)]
pub struct RealNamePayload {
    pub real_name: String,
    pub facility_name: String,
    pub rating: NetworkRating,
}

impl RealNamePayload {
    /// Whether `p` holds a name, a facility and a rating number (0 to 12).
    pub open spec fn payload_ok(p: Seq<Seq<char>>) -> bool {
        p.len() >= 3 && int_in_range(p[2], false, 0, 12) is Some
    }

    pub fn from_payload(payload: &Vec<String>) -> (r: Self)
        requires
            Self::payload_ok(payload.deep_view()),
        ensures
            r.real_name@ == payload.deep_view()[0],
            r.facility_name@ == payload.deep_view()[1],
            r.rating == rating_text(payload.deep_view()[2]),
    {
        let rating = NetworkRating::from_string(payload[2].as_str());
        RealNamePayload {
            real_name: owned(payload[0].as_str()),
            facility_name: owned(payload[1].as_str()),
            rating,
        }
    }
}

/// Whether `s` is a coordinate written as floating-point text: an optional
/// sign, then `inf`, `infinity` or `nan` in any case, or a decimal with an
/// optional exponent (`e` or `E`, an optional sign, digits).
pub open spec fn is_coordinate(s: Seq<char>) -> bool {
    let t = unsigned_part(s);
    special_ok(t) || number_ok(t)
}

/// `s` without a leading sign.
pub open spec fn unsigned_part(s: Seq<char>) -> Seq<char> {
    if s.len() > 0 && (s[0] == '-' || s[0] == '+') {
        s.drop_first()
    } else {
        s
    }
}

/// Digits with at most one decimal point, at least one digit in all.
pub open spec fn decimal_ok(t: Seq<char>) -> bool {
    &&& forall|i: int| 0 <= i < t.len() ==> is_digit(#[trigger] t[i]) || t[i] == '.'
    &&& forall|i: int, j: int|
        0 <= i < j < t.len() ==> !(#[trigger] t[i] == '.' && #[trigger] t[j] == '.')
    &&& exists|i: int| 0 <= i < t.len() && is_digit(#[trigger] t[i])
}

pub open spec fn is_exp_mark(c: char) -> bool {
    c == 'e' || c == 'E'
}

/// An exponent: an optional sign, then one or more digits.
pub open spec fn exponent_ok(x: Seq<char>) -> bool {
    all_digits(unsigned_part(x))
}

/// A decimal, alone or followed by an exponent mark and an exponent.
pub open spec fn number_ok(t: Seq<char>) -> bool {
    decimal_ok(t) || exists|k: int|
        0 <= k < t.len() && is_exp_mark(#[trigger] t[k]) && decimal_ok(t.subrange(0, k))
            && exponent_ok(t.skip(k + 1))
}

/// `c` is the lower-case letter `w` in either case.
pub open spec fn letter_is(c: char, w: char) -> bool {
    c == w || ('A' <= c && c <= 'Z' && c as u32 + 32 == w as u32)
}

/// `t` is the lower-case word `w` in any case.
pub open spec fn word_is(t: Seq<char>, w: Seq<char>) -> bool {
    t.len() == w.len() && forall|i: int| 0 <= i < t.len() ==> letter_is(#[trigger] t[i], w[i])
}

/// An infinity or a not-a-number.
pub open spec fn special_ok(t: Seq<char>) -> bool {
    word_is(t, "inf"@) || word_is(t, "infinity"@) || word_is(t, "nan"@)
}

fn decimal_range(c: &Vec<char>, lo: usize, hi: usize) -> (r: bool)
    requires
        lo <= hi <= c@.len(),
    ensures
        r == decimal_ok(c@.subrange(lo as int, hi as int)),
{
    let ghost t = c@.subrange(lo as int, hi as int);
    let mut i: usize = lo;
    let mut dot: bool = false;
    let mut digit: bool = false;
    while i < hi
        invariant
            lo <= i <= hi <= c@.len(),
            t == c@.subrange(lo as int, hi as int),
            forall|k: int| 0 <= k < i - lo ==> is_digit(#[trigger] t[k]) || t[k] == '.',
            forall|k: int, j: int| 0 <= k < j < i - lo ==> !(#[trigger] t[k] == '.' && #[trigger] t[j] == '.'),
            dot <==> exists|k: int| 0 <= k < i - lo && #[trigger] t[k] == '.',
            digit <==> exists|k: int| 0 <= k < i - lo && is_digit(#[trigger] t[k]),
        decreases hi - i,
    {
        let ch = c[i];
        let ghost at = (i - lo) as int;
        assert(t[at] == ch);
        if ch == '.' {
            if dot {
                let ghost k = choose|k: int| 0 <= k < i - lo && #[trigger] t[k] == '.';
                assert(t[k] == '.' && t[at] == '.' && k < at);
                assert(!decimal_ok(t));
                return false;
            }
            dot = true;
        } else if '0' <= ch && ch <= '9' {
            digit = true;
        } else {
            assert(!(is_digit(t[at]) || t[at] == '.'));
            assert(!decimal_ok(t));
            return false;
        }
        i = i + 1;
    }
    assert(i - lo == t.len());
    assert(digit == decimal_ok(t));
    digit
}

fn exponent_range(c: &Vec<char>, lo: usize, hi: usize) -> (r: bool)
    requires
        lo <= hi <= c@.len(),
    ensures
        r == exponent_ok(c@.subrange(lo as int, hi as int)),
{
    let ghost x = c@.subrange(lo as int, hi as int);
    let start: usize = if lo < hi && (c[lo] == '+' || c[lo] == '-') {
        lo + 1
    } else {
        lo
    };
    let ghost d = c@.subrange(start as int, hi as int);
    assert(d =~= unsigned_part(x));
    if start >= hi {
        return false;
    }
    let mut i: usize = start;
    while i < hi
        invariant
            start <= i <= hi <= c@.len(),
            d == c@.subrange(start as int, hi as int),
            d == unsigned_part(x),
            x == c@.subrange(lo as int, hi as int),
            forall|k: int| 0 <= k < i - start ==> is_digit(#[trigger] d[k]),
        decreases hi - i,
    {
        if !('0' <= c[i] && c[i] <= '9') {
            assert(!is_digit(d[i - start]));
            assert(!all_digits(d));
            return false;
        }
        i = i + 1;
    }
    true
}

fn word_range(c: &Vec<char>, lo: usize, hi: usize, w: &str) -> (r: bool)
    requires
        lo <= hi <= c@.len(),
    ensures
        r == word_is(c@.subrange(lo as int, hi as int), w@),
{
    let ghost t = c@.subrange(lo as int, hi as int);
    let n = w.unicode_len();
    if hi - lo != n {
        return false;
    }
    let mut i: usize = 0;
    while i < n
        invariant
            n == w@.len() == hi - lo,
            lo <= hi <= c@.len(),
            t == c@.subrange(lo as int, hi as int),
            i <= n,
            forall|k: int| 0 <= k < i ==> letter_is(#[trigger] t[k], w@[k]),
        decreases n - i,
    {
        let a = c[lo + i];
        let b = w.get_char(i);
        assert(t[i as int] == a);
        if !(a == b || ('A' <= a && a <= 'Z' && (a as u32) + 32 == b as u32)) {
            assert(!letter_is(t[i as int], w@[i as int]));
            return false;
        }
        i = i + 1;
    }
    true
}

pub fn check_coordinate(s: &str) -> (r: bool)
    ensures
        r == is_coordinate(s@),
{
    let c = chars_of(s);
    let n = c.len();
    let start: usize = if n > 0 && (c[0] == '-' || c[0] == '+') {
        1
    } else {
        0
    };
    let ghost t = c@.subrange(start as int, n as int);
    assert(t =~= unsigned_part(s@));
    if word_range(&c, start, n, "inf") || word_range(&c, start, n, "infinity") || word_range(
        &c,
        start,
        n,
        "nan",
    ) {
        return true;
    }
    let mut k: usize = start;
    while k < n && !(c[k] == 'e' || c[k] == 'E')
        invariant
            start <= k <= n == c@.len(),
            t == c@.subrange(start as int, n as int),
            forall|j: int| 0 <= j < k - start ==> !is_exp_mark(#[trigger] t[j]),
        decreases n - k,
    {
        assert(t[k - start] == c@[k as int]);
        k = k + 1;
    }
    if k == n {
        let r = decimal_range(&c, start, n);
        assert forall|j: int| 0 <= j < t.len() && is_exp_mark(#[trigger] t[j]) implies !decimal_ok(
            t.subrange(0, j),
        ) || !exponent_ok(t.skip(j + 1)) by {}
        r
    } else {
        let ghost m = k - start;
        assert(t[m] == c@[k as int]);
        assert(c@.subrange(start as int, k as int) =~= t.subrange(0, m));
        assert(c@.subrange(k + 1, n as int) =~= t.skip(m + 1));
        let r = decimal_range(&c, start, k) && exponent_range(&c, k + 1, n);
        assert(!decimal_ok(t)) by {
            assert(!(is_digit(t[m]) || t[m] == '.'));
        }
        assert forall|j: int| 0 <= j < t.len() && is_exp_mark(#[trigger] t[j]) && j != m implies !decimal_ok(
            t.subrange(0, j),
        ) by {
            assert(j > m);
            assert(t.subrange(0, j)[m] == t[m]);
        }
        r
    }
}

#[derive(PartialEq, Debug)]
pub struct ATCPosition {
    pub freq: Frequency,
    pub facility: NetworkFacility,
    pub vis_range: u16,
    pub rating: NetworkRating,
    /// Latitude in decimal degrees, as sent.
    pub lat: String,
    /// Longitude in decimal degrees, as sent.
    pub lon: String,
    pub callsign: String,
}

impl Packet for ATCPosition {
    /// Seven fields: a frequency of at least two digits, a range from 0 to
    /// 65535 and two decimal coordinates.
    open spec fn accepts(f: Seq<Seq<char>>) -> bool {
        &&& f.len() >= 7
        &&& f[1].len() >= 2
        &&& int_in_range(f[3], false, 0, 65535) is Some
        &&& is_coordinate(f[5])
        &&& is_coordinate(f[6])
    }

    open spec fn decodes(f: Seq<Seq<char>>, p: Self) -> bool {
        &&& p.callsign@ == f[0]
        &&& p.freq.text@ == frequency_text(f[1])
        &&& p.facility == facility_text(f[2])
        &&& int_in_range(f[3], false, 0, 65535) == Some(p.vis_range as int)
        &&& p.rating == rating_text(f[4])
        &&& p.lat@ == f[5]
        &&& p.lon@ == f[6]
    }

    fn from_string(fields: &Vec<&str>) -> (r: Self) {
        let vis_range = match parse_int(&chars_of(fields[3]), false, 0, 65535) {
            Some(v) => v as u16,
            None => 0,
        };
        ATCPosition {
            callsign: field(fields, 0),
            freq: Frequency::from_packet_string(fields[1]),
            facility: NetworkFacility::from_string(fields[2]),
            vis_range,
            rating: NetworkRating::from_string(fields[4]),
            lat: field(fields, 5),
            lon: field(fields, 6),
        }
    }
}


/// Pitch, bank and heading in 1/1024ths of a full turn (one unit is 45/128
/// of a degree): pitch and bank in (-512, 512], heading in [0, 1024) for
/// attitudes of the usual 32-bit width.
#[derive(PartialEq, Eq, Structural, Debug, Clone, Copy)]
pub struct FlightSurfaces {
    pub pitch: i64,
    pub bank: i64,
    pub hdg: i64,
}

/// One pass of folding into (-512, 512]: above it down a turn, at or below
/// its lower end up a turn.
pub open spec fn wrap_signed(u: int) -> int {
    if u > 512 {
        u - 1024
    } else if u <= -512 {
        u + 1024
    } else {
        u
    }
}

/// One pass of folding into [0, 1024).
pub open spec fn wrap_unsigned(u: int) -> int {
    if u < 0 {
        u + 1024
    } else if u >= 1024 {
        u - 1024
    } else {
        u
    }
}

/// Pitch: the bits from 22 up, sign-extended, negated.
pub open spec fn pitch_units(d: i64) -> int {
    wrap_signed(-((d >> 22u64) as int))
}

/// Bank: the ten bits from 12, negated.
pub open spec fn bank_units(d: i64) -> int {
    wrap_signed(-(((d >> 12u64) & 0x3ff) as int))
}

/// Heading: the ten bits from 2.
pub open spec fn hdg_units(d: i64) -> int {
    wrap_unsigned(((d >> 2u64) & 0x3ff) as int)
}

fn fold_signed(u: i64) -> (r: i64)
    requires
        -0x100_0000_0000_0000 <= u <= 0x100_0000_0000_0000,
    ensures
        r == wrap_signed(u as int),
{
    if u > 512 {
        u - 1024
    } else if u <= -512 {
        u + 1024
    } else {
        u
    }
}

impl FlightSurfaces {
    /// Decodes a packed attitude word.
    pub fn from_encoded(data: i64) -> (r: FlightSurfaces)
        ensures
            r.pitch == pitch_units(data),
            r.bank == bank_units(data),
            r.hdg == hdg_units(data),
    {
        let p = data >> 22u64;
        assert(-0x200_0000_0000 <= p <= 0x200_0000_0000) by (bit_vector)
            requires
                p == data >> 22u64,
        ;
        let b = (data >> 12u64) & 0x3ff;
        assert(0 <= b <= 0x3ff) by (bit_vector)
            requires
                b == (data >> 12u64) & 0x3ff,
        ;
        let h = (data >> 2u64) & 0x3ff;
        assert(0 <= h <= 0x3ff) by (bit_vector)
            requires
                h == (data >> 2u64) & 0x3ff,
        ;
        let hdg = if h < 0 {
            h + 1024
        } else if h >= 1024 {
            h - 1024
        } else {
            h
        };
        FlightSurfaces { pitch: fold_signed(-p), bank: fold_signed(-b), hdg }
    }
}

#[derive(PartialEq, Debug)]
pub struct PilotPosition {
    pub callsign: String,
    pub squawk_code: u16,
    pub squawking: SquawkType,
    pub rating: NetworkRating,
    /// Latitude in decimal degrees, as sent.
    pub lat: String,
    /// Longitude in decimal degrees, as sent.
    pub lon: String,
    pub true_alt: i32,
    pub pressure_alt: i32,
    pub ground_speed: i32,
    pub pbh: FlightSurfaces,
}

/// The transponder mode that the token `t` names.
pub open spec fn squawk_text(t: Seq<char>) -> SquawkType {
    if t == "S"@ {
        SquawkType::Standby
    } else if t == "N"@ {
        SquawkType::Charlie
    } else if t == "Y"@ {
        SquawkType::Ident
    } else {
        SquawkType::Undefined
    }
}

/// The 32-bit signed integer that `t` writes.
pub open spec fn i32_text(t: Seq<char>) -> Option<int> {
    int_in_range(t, true, i32::MIN as int, i32::MAX as int)
}

impl Packet for PilotPosition {
    /// Ten fields: a squawk code from 0 to 65535, two decimal coordinates,
    /// 32-bit altitude, speed and pressure difference whose sum with the
    /// altitude fits too, and a 64-bit attitude word.
    open spec fn accepts(f: Seq<Seq<char>>) -> bool {
        &&& f.len() >= 10
        &&& int_in_range(f[2], false, 0, 65535) is Some
        &&& is_coordinate(f[4])
        &&& is_coordinate(f[5])
        &&& i32_text(f[6]) is Some
        &&& i32_text(f[7]) is Some
        &&& int_in_range(f[8], true, i64::MIN as int, i64::MAX as int) is Some
        &&& i32_text(f[9]) is Some
        &&& i32::MIN <= i32_text(f[6])->0 + i32_text(f[9])->0 <= i32::MAX
    }

    open spec fn decodes(f: Seq<Seq<char>>, p: Self) -> bool {
        &&& p.squawking == squawk_text(f[0])
        &&& p.callsign@ == f[1]
        &&& Some(p.squawk_code as int) == int_in_range(f[2], false, 0, 65535)
        &&& p.rating == rating_text(f[3])
        &&& p.lat@ == f[4]
        &&& p.lon@ == f[5]
        &&& Some(p.true_alt as int) == i32_text(f[6])
        &&& Some(p.ground_speed as int) == i32_text(f[7])
        &&& p.pressure_alt == i32_text(f[6])->0 + i32_text(f[9])->0
        &&& exists|d: i64|
            Some(d as int) == int_in_range(f[8], true, i64::MIN as int, i64::MAX as int)
                && p.pbh == FlightSurfaces {
                pitch: pitch_units(d) as i64,
                bank: bank_units(d) as i64,
                hdg: hdg_units(d) as i64,
            }
    }

    fn from_string(fields: &Vec<&str>) -> (r: Self) {
        let t = fields[0];
        let squawking = if str_is(t, "S") {
            SquawkType::Standby
        } else if str_is(t, "N") {
            SquawkType::Charlie
        } else if str_is(t, "Y") {
            SquawkType::Ident
        } else {
            SquawkType::Undefined
        };
        let code = match parse_int(&chars_of(fields[2]), false, 0, 65535) {
            Some(v) => v as u16,
            None => 0,
        };
        let lo = i32::MIN as i64;
        let hi = i32::MAX as i64;
        let alt = match parse_int(&chars_of(fields[6]), true, lo, hi) {
            Some(v) => v as i32,
            None => 0,
        };
        let speed = match parse_int(&chars_of(fields[7]), true, lo, hi) {
            Some(v) => v as i32,
            None => 0,
        };
        let delta = match parse_int(&chars_of(fields[9]), true, lo, hi) {
            Some(v) => v as i32,
            None => 0,
        };
        let word = match parse_int(&chars_of(fields[8]), true, i64::MIN, i64::MAX) {
            Some(v) => v,
            None => 0,
        };
        let pbh = FlightSurfaces::from_encoded(word);
        PilotPosition {
            callsign: field(fields, 1),
            squawk_code: code,
            squawking,
            rating: NetworkRating::from_string(fields[3]),
            lat: field(fields, 4),
            lon: field(fields, 5),
            true_alt: alt,
            pressure_alt: alt + delta,
            ground_speed: speed,
            pbh,
        }
    }
}


#[derive(Debug, PartialEq)]
pub enum ClientQueryPayload {
    /// Aircraft callsign, controller handing off.
    AcceptHandoff(String, String),
    AircraftConfiguration(Json),
    /// Callsign of the target.
    DropTrack(String),
    /// Callsign of the target.
    FlightPlan(String),
    /// Callsign of the target.
    InitiateTrack(String),
    /// Callsign of the target.
    IsValidATCQuery(Option<String>),
    /// Whether valid, callsign of the target.
    IsValidATCResponse(bool, Option<String>),
    NewATIS(String),
    NewInfo(String),
    RealName(RealNamePayload),
    /// Callsign, final altitude.
    SetFinalAltitude(String, String),
    /// Callsign, code.
    SetBeaconCode(String, String),
    /// Callsign, text.
    SetScratchpad(String, String),
    /// Callsign, altitude.
    SetTempAltitude(String, String),
    /// Callsign, voice type.
    SetVoiceType(String, String),
    Unknown(Vec<String>),
    WhoHas(String),
}

/// The pieces of `p` joined with `:` between them.
pub open spec fn join_spec(p: Seq<Seq<char>>) -> Seq<char>
    decreases p.len(),
{
    if p.len() == 0 {
        Seq::<char>::empty()
    } else if p.len() == 1 {
        p[0]
    } else {
        join_spec(p.drop_last()) + seq![':'] + p.last()
    }
}

/// The kinds whose payload is a callsign and a value.
pub open spec fn takes_pair(q: ClientQueryType) -> bool {
    q == ClientQueryType::SetBeaconCode || q == ClientQueryType::SetFinalAltitude || q
        == ClientQueryType::SetScratchpad || q == ClientQueryType::SetTempAltitude || q
        == ClientQueryType::SetVoiceType || q == ClientQueryType::AcceptHandoff
}

/// The kinds whose payload is a single string.
pub open spec fn takes_single(q: ClientQueryType) -> bool {
    q == ClientQueryType::DropTrack || q == ClientQueryType::FlightPlan || q
        == ClientQueryType::InitiateTrack || q == ClientQueryType::NewATIS || q
        == ClientQueryType::NewInfo || q == ClientQueryType::WhoHas
}

/// Whether the payload tokens `p` of a query of kind `q` can be decoded: an
/// aircraft configuration must be JSON, and a real-name answer of a single
/// token lacks its facility and rating.
pub open spec fn query_payload_ok(q: ClientQueryType, is_response: bool, p: Seq<Seq<char>>) -> bool {
    if p.len() >= 2 {
        q == ClientQueryType::AircraftConfiguration ==> json_of(join_spec(p)) is Some
    } else if p.len() == 1 {
        !(q == ClientQueryType::RealName && is_response)
    } else {
        true
    }
}

/// Whether `x` is the payload that the tokens `p` of a query of kind `q` give.
pub open spec fn query_payload_decodes(
    q: ClientQueryType,
    is_response: bool,
    p: Seq<Seq<char>>,
    x: ClientQueryPayload,
) -> bool {
    if p.len() >= 2 {
        if q == ClientQueryType::AircraftConfiguration {
            x matches ClientQueryPayload::AircraftConfiguration(j) && json_of(join_spec(p)) == Some(j)
        } else if takes_pair(q) {
            match x {
                ClientQueryPayload::SetBeaconCode(a, b) => q == ClientQueryType::SetBeaconCode
                    && a@ == p[0] && b@ == p[1],
                ClientQueryPayload::SetFinalAltitude(a, b) => q == ClientQueryType::SetFinalAltitude
                    && a@ == p[0] && b@ == p[1],
                ClientQueryPayload::SetScratchpad(a, b) => q == ClientQueryType::SetScratchpad
                    && a@ == p[0] && b@ == p[1],
                ClientQueryPayload::SetTempAltitude(a, b) => q == ClientQueryType::SetTempAltitude
                    && a@ == p[0] && b@ == p[1],
                ClientQueryPayload::SetVoiceType(a, b) => q == ClientQueryType::SetVoiceType
                    && a@ == p[0] && b@ == p[1],
                ClientQueryPayload::AcceptHandoff(a, b) => q == ClientQueryType::AcceptHandoff
                    && a@ == p[0] && b@ == p[1],
                _ => false,
            }
        } else {
            x matches ClientQueryPayload::Unknown(v) && v.deep_view() == p
        }
    } else if p.len() == 1 {
        if takes_single(q) {
            match x {
                ClientQueryPayload::DropTrack(a) => q == ClientQueryType::DropTrack && a@ == p[0],
                ClientQueryPayload::FlightPlan(a) => q == ClientQueryType::FlightPlan && a@ == p[0],
                ClientQueryPayload::InitiateTrack(a) => q == ClientQueryType::InitiateTrack && a@
                    == p[0],
                ClientQueryPayload::NewATIS(a) => q == ClientQueryType::NewATIS && a@ == p[0],
                ClientQueryPayload::NewInfo(a) => q == ClientQueryType::NewInfo && a@ == p[0],
                ClientQueryPayload::WhoHas(a) => q == ClientQueryType::WhoHas && a@ == p[0],
                _ => false,
            }
        } else if q == ClientQueryType::IsValidATC && !is_response {
            x matches ClientQueryPayload::IsValidATCQuery(Some(a)) && a@ == p[0]
        } else if q == ClientQueryType::IsValidATC && is_response {
            x == ClientQueryPayload::IsValidATCResponse(p[0] == "Y"@, None)
        } else {
            x matches ClientQueryPayload::Unknown(v) && v.deep_view() == p
        }
    } else if q == ClientQueryType::IsValidATC && !is_response {
        x == ClientQueryPayload::IsValidATCQuery(None)
    } else {
        x matches ClientQueryPayload::Unknown(v) && v.deep_view().len() == 0
    }
}

/// The tokens of `p` joined with `:` between them.
fn join_tokens(p: &Vec<String>) -> (r: String)
    requires
        p@.len() >= 1,
    ensures
        r@ == join_spec(p.deep_view()),
{
    let mut out = owned(p[0].as_str());
    let mut i: usize = 1;
    assert(p.deep_view().subrange(0, 1) =~= seq![p.deep_view()[0]]);
    while i < p.len()
        invariant
            1 <= i <= p@.len(),
            out@ == join_spec(p.deep_view().subrange(0, i as int)),
        decreases p@.len() - i,
    {
        proof {
            reveal_strlit(":");
        }
        out = out.concat(":").concat(p[i].as_str());
        assert(p.deep_view().subrange(0, i + 1).drop_last() =~= p.deep_view().subrange(0, i as int));
        i = i + 1;
    }
    assert(p.deep_view().subrange(0, p@.len() as int) =~= p.deep_view());
    out
}

#[derive(Debug, PartialEq)]
pub struct ClientQuery {
    pub is_response: bool,
    pub from: String,
    pub to: String,
    pub query_type: ClientQueryType,
    pub payload: ClientQueryPayload,
}

/// The payload tokens of a query: the fields from index 3 on.
pub open spec fn query_tokens(f: Seq<Seq<char>>) -> Seq<Seq<char>> {
    if f.len() > 3 {
        f.skip(3)
    } else {
        Seq::<Seq<char>>::empty()
    }
}

impl ClientQuery {
    /// Whether `p` is the query of kind `q` that `f` describe.
    pub open spec fn decoded(f: Seq<Seq<char>>, q: ClientQueryType, is_response: bool, p: Self) -> bool {
        &&& p.is_response == is_response
        &&& p.from@ == f[0]
        &&& p.to@ == f[1]
        &&& p.query_type == q
        &&& query_payload_decodes(q, is_response, query_tokens(f), p.payload)
    }

    /// Builds the query of kind `query_type`; `None` where its payload cannot
    /// be decoded.
    pub fn new(fields: &Vec<&str>, query_type: ClientQueryType, is_response: bool) -> (r: Option<Self>)
        requires
            fields@.len() >= 2,
        ensures
            r is Some <==> query_payload_ok(query_type, is_response, query_tokens(fields.deep_view())),
            r matches Some(p) ==> Self::decoded(fields.deep_view(), query_type, is_response, p),
    {
        let n = fields.len();
        let mut tokens: Vec<String> = Vec::new();
        if n > 3 {
            let mut i: usize = 3;
            assert(fields.deep_view().subrange(3, 3) =~= Seq::<Seq<char>>::empty());
            while i < n
                invariant
                    n == fields@.len(),
                    3 <= i <= n,
                    tokens.deep_view() == fields.deep_view().subrange(3, i as int),
                decreases n - i,
            {
                let ghost prev = tokens.deep_view();
                tokens.push(field(fields, i));
                assert(tokens.deep_view() =~= prev.push(fields.deep_view()[i as int]));
                assert(tokens.deep_view() =~= fields.deep_view().subrange(3, i + 1));
                i = i + 1;
            }
            assert(fields.deep_view().subrange(3, n as int) =~= fields.deep_view().skip(3));
        } else {
            assert(tokens.deep_view() =~= Seq::<Seq<char>>::empty());
        }
        let ghost p = tokens.deep_view();
        assert(p == query_tokens(fields.deep_view()));
        let count = tokens.len();
        let payload = if count >= 2 {
            match query_type {
                ClientQueryType::AircraftConfiguration => {
                    let text = join_tokens(&tokens);
                    match Json::parse(text.as_str()) {
                        Some(j) => ClientQueryPayload::AircraftConfiguration(j),
                        None => {
                            return None;
                        },
                    }
                },
                ClientQueryType::SetBeaconCode => ClientQueryPayload::SetBeaconCode(
                    tokens[0].clone(),
                    tokens[1].clone(),
                ),
                ClientQueryType::SetFinalAltitude => ClientQueryPayload::SetFinalAltitude(
                    tokens[0].clone(),
                    tokens[1].clone(),
                ),
                ClientQueryType::SetScratchpad => ClientQueryPayload::SetScratchpad(
                    tokens[0].clone(),
                    tokens[1].clone(),
                ),
                ClientQueryType::SetTempAltitude => ClientQueryPayload::SetTempAltitude(
                    tokens[0].clone(),
                    tokens[1].clone(),
                ),
                ClientQueryType::SetVoiceType => ClientQueryPayload::SetVoiceType(
                    tokens[0].clone(),
                    tokens[1].clone(),
                ),
                ClientQueryType::AcceptHandoff => ClientQueryPayload::AcceptHandoff(
                    tokens[0].clone(),
                    tokens[1].clone(),
                ),
                _ => ClientQueryPayload::Unknown(tokens),
            }
        } else if count == 1 {
            match query_type {
                ClientQueryType::DropTrack => ClientQueryPayload::DropTrack(tokens[0].clone()),
                ClientQueryType::FlightPlan => ClientQueryPayload::FlightPlan(tokens[0].clone()),
                ClientQueryType::InitiateTrack => ClientQueryPayload::InitiateTrack(
                    tokens[0].clone(),
                ),
                ClientQueryType::NewATIS => ClientQueryPayload::NewATIS(tokens[0].clone()),
                ClientQueryType::NewInfo => ClientQueryPayload::NewInfo(tokens[0].clone()),
                ClientQueryType::WhoHas => ClientQueryPayload::WhoHas(tokens[0].clone()),
                ClientQueryType::IsValidATC => if is_response {
                    ClientQueryPayload::IsValidATCResponse(str_is(tokens[0].as_str(), "Y"), None)
                } else {
                    ClientQueryPayload::IsValidATCQuery(Some(tokens[0].clone()))
                },
                ClientQueryType::RealName => if is_response {
                    return None;
                } else {
                    ClientQueryPayload::Unknown(tokens)
                },
                _ => ClientQueryPayload::Unknown(tokens),
            }
        } else {
            match query_type {
                ClientQueryType::IsValidATC => if is_response {
                    ClientQueryPayload::Unknown(tokens)
                } else {
                    ClientQueryPayload::IsValidATCQuery(None)
                },
                _ => ClientQueryPayload::Unknown(tokens),
            }
        };
        Some(ClientQuery { is_response, from: field(fields, 0), to: field(fields, 1), query_type, payload })
    }
}

impl Packet for ClientQuery {
    open spec fn accepts(f: Seq<Seq<char>>) -> bool {
        f.len() >= 2
    }

    open spec fn decodes(f: Seq<Seq<char>>, p: Self) -> bool {
        Self::decoded(f, ClientQueryType::Unknown, false, p)
    }

    fn from_string(fields: &Vec<&str>) -> (r: Self) {
        match ClientQuery::new(fields, ClientQueryType::Unknown, false) {
            Some(q) => q,
            None => {
                // a query of unknown kind always has a payload
                proof {
                    assert(false);
                }
                ClientQuery {
                    is_response: false,
                    from: field(fields, 0),
                    to: field(fields, 1),
                    query_type: ClientQueryType::Unknown,
                    payload: ClientQueryPayload::Unknown(Vec::new()),
                }
            },
        }
    }
}


impl Clone for NetworkClient {
    fn clone(&self) -> (r: Self)
        ensures
            r == *self,
    {
        NetworkClient {
            client_type: self.client_type,
            callsign: self.callsign.clone(),
            real_name: self.real_name.clone(),
            cid: self.cid.clone(),
            password: self.password.clone(),
            rating: self.rating,
            protocol_ver: self.protocol_ver,
        }
    }
}

impl Clone for ATCPosition {
    fn clone(&self) -> (r: Self)
        ensures
            r == *self,
    {
        ATCPosition {
            freq: self.freq.clone(),
            facility: self.facility,
            vis_range: self.vis_range,
            rating: self.rating,
            lat: self.lat.clone(),
            lon: self.lon.clone(),
            callsign: self.callsign.clone(),
        }
    }
}

impl Clone for PilotPosition {
    fn clone(&self) -> (r: Self)
        ensures
            r == *self,
    {
        PilotPosition {
            callsign: self.callsign.clone(),
            squawk_code: self.squawk_code,
            squawking: self.squawking,
            rating: self.rating,
            lat: self.lat.clone(),
            lon: self.lon.clone(),
            true_alt: self.true_alt,
            pressure_alt: self.pressure_alt,
            ground_speed: self.ground_speed,
            pbh: self.pbh,
        }
    }
}

} // verus!
