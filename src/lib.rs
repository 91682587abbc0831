//! A decoder for the FSD protocol of virtual air-traffic networks: typed
//! records for each command, a line parser, per-callsign aggregates and the
//! classification of records by the side that sent them.
use vstd::prelude::*;

pub mod fsdpackets;
pub mod json;
pub mod laws;
pub mod managers;
pub mod parser;
pub mod sniffer;
pub mod table;
pub mod text;
pub mod util;

pub use fsdpackets::{
    ATCPosition, ClientQuery, ClientQueryPayload, ClientQueryType, DeleteClient, EngineType,
    FlightPlan, FlightRules, FlightStrip, FlightSurfaces, Metar, NetworkClient, NetworkClientType,
    NetworkFacility, NetworkRating, Packet, PilotPosition, PlaneInfo, PlaneInfoRequest,
    PlaneInfoResponse, ProtocolRevision, RealNamePayload, SharedState, SharedStateType,
    SimulatorType, SquawkType, TextMessage, TextMessageReceiver, TransferControl,
    TransferControlType, find_value,
};
pub use json::Json;
pub use managers::{ATCManager, Pilot, PilotManager, ATC};
pub use parser::{PacketTypes, ParseError, Parser};
pub use sniffer::{PacketSource, Sniffer};
pub use table::StringMap;
pub use util::{AircraftConfiguration, AircraftEngine, AircraftLights, Frequency};

verus! {

} // verus!
