//! Properties that relate several operations of the library, proved over the
//! specifications that the operations' contracts use.
use crate::fsdpackets::{
    bank_units, facility_text, hdg_units, pitch_units, rating_text, ATCPosition, NetworkClient,
    NetworkFacility, NetworkRating, PilotPosition,
};
use crate::managers::{
    atc_or_empty, atcs_with_client, atcs_with_position, pilot_or_empty, pilots_with_client,
    pilots_with_config, pilots_with_position, Pilot, ATC,
};
use crate::parser::{clean_line, is_candidate, parse_spec, PacketTypes, ParseError};
use crate::sniffer::{frame_events, PacketSource};
use crate::text::int_text;
use crate::util::AircraftConfiguration;
use vstd::prelude::*;

verus! {

/// Every packed attitude whose pitch bits (from bit 22 up) lie in
/// [-1536, 1536), which includes every 32-bit word, decodes to a pitch and a
/// bank in (-180, 180] degrees and a heading in [0, 360) degrees.
pub proof fn attitude_in_range(d: i64)
    requires
        -1536 <= (d >> 22u64) < 1536,
    ensures
        -512 < pitch_units(d) <= 512,
        -512 < bank_units(d) <= 512,
        0 <= hdg_units(d) < 1024,
{
    let b = (d >> 12u64) & 0x3ff;
    assert(0 <= b <= 0x3ff) by (bit_vector)
        requires
            b == (d >> 12u64) & 0x3ff,
    ;
    let h = (d >> 2u64) & 0x3ff;
    assert(0 <= h <= 0x3ff) by (bit_vector)
        requires
            h == (d >> 2u64) & 0x3ff,
    ;
}

/// The empty string, and any number past the last rating, decode to the
/// undefined rating.
pub proof fn rating_out_of_range_is_undefined(s: Seq<char>)
    requires
        s.len() == 0 || (int_text(s, false) matches Some(n) && n > 12),
    ensures
        rating_text(s) == NetworkRating::Undefined,
{
}

/// The empty string, and any number past the last facility, decode to the
/// undefined facility.
pub proof fn facility_out_of_range_is_undefined(s: Seq<char>)
    requires
        s.len() == 0 || (int_text(s, false) matches Some(n) && n > 6),
    ensures
        facility_text(s) == NetworkFacility::Undefined,
{
}

/// One observation of a pilot.
pub enum PilotUpdate {
    Client(NetworkClient),
    Position(PilotPosition),
    Config(String, AircraftConfiguration),
}

/// The callsign that an observation is filed under.
pub open spec fn update_callsign(u: PilotUpdate) -> Seq<char> {
    match u {
        PilotUpdate::Client(c) => c.callsign@,
        PilotUpdate::Position(p) => p.callsign@,
        PilotUpdate::Config(k, _) => k@,
    }
}

/// Whether `n` is the pilots `m` after the observation `u`, as
/// `process_client`, `process_position` and `process_config` state it.
pub open spec fn pilots_updated(m: Map<Seq<char>, Pilot>, u: PilotUpdate, n: Map<Seq<char>, Pilot>) -> bool {
    match u {
        PilotUpdate::Client(c) => n == pilots_with_client(m, c),
        PilotUpdate::Position(p) => n == pilots_with_position(m, p),
        PilotUpdate::Config(k, x) => pilots_with_config(m, k@, x, n),
    }
}

/// Whether `ms` are the states that the observations `us` pass through from
/// `ms[0]`.
pub open spec fn pilots_run(us: Seq<PilotUpdate>, ms: Seq<Map<Seq<char>, Pilot>>) -> bool {
    &&& ms.len() == us.len() + 1
    &&& forall|i: int| 0 <= i < us.len() ==> pilots_updated(ms[i], #[trigger] us[i], ms[i + 1])
}

/// The last registration among `us` filed under `c`.
pub open spec fn last_client_for(us: Seq<PilotUpdate>, c: Seq<char>) -> Option<NetworkClient>
    decreases us.len(),
{
    if us.len() == 0 {
        None
    } else {
        match us.last() {
            PilotUpdate::Client(x) => if x.callsign@ == c {
                Some(x)
            } else {
                last_client_for(us.drop_last(), c)
            },
            _ => last_client_for(us.drop_last(), c),
        }
    }
}

/// The last position report among `us` filed under `c`.
pub open spec fn last_position_for(us: Seq<PilotUpdate>, c: Seq<char>) -> Option<PilotPosition>
    decreases us.len(),
{
    if us.len() == 0 {
        None
    } else {
        match us.last() {
            PilotUpdate::Position(x) => if x.callsign@ == c {
                Some(x)
            } else {
                last_position_for(us.drop_last(), c)
            },
            _ => last_position_for(us.drop_last(), c),
        }
    }
}

/// The last configuration among `us` filed under `c`.
pub open spec fn last_config_for(us: Seq<PilotUpdate>, c: Seq<char>) -> Option<AircraftConfiguration>
    decreases us.len(),
{
    if us.len() == 0 {
        None
    } else {
        match us.last() {
            PilotUpdate::Config(k, x) => if k@ == c {
                Some(x)
            } else {
                last_config_for(us.drop_last(), c)
            },
            _ => last_config_for(us.drop_last(), c),
        }
    }
}

/// The callsigns that the observations `us` are filed under.
pub open spec fn update_callsigns(us: Seq<PilotUpdate>) -> Set<Seq<char>>
    decreases us.len(),
{
    if us.len() == 0 {
        Set::empty()
    } else {
        update_callsigns(us.drop_last()).insert(update_callsign(us.last()))
    }
}

proof fn lemma_pilot_run_prefix(us: Seq<PilotUpdate>, ms: Seq<Map<Seq<char>, Pilot>>)
    requires
        pilots_run(us, ms),
        us.len() > 0,
    ensures
        pilots_run(us.drop_last(), ms.drop_last()),
        pilots_updated(ms[us.len() - 1], us.last(), ms.last()),
{
    let us2 = us.drop_last();
    let ms2 = ms.drop_last();
    assert forall|i: int| 0 <= i < us2.len() implies pilots_updated(ms2[i], #[trigger] us2[i], ms2[i + 1]) by {
        assert(us2[i] == us[i]);
        assert(pilots_updated(ms[i], us[i], ms[i + 1]));
    }
    assert(pilots_updated(ms[us.len() - 1], us[us.len() - 1], ms[us.len() as int]));
}

/// One observation leaves every callsign but its own as it was.
proof fn lemma_pilot_step_elsewhere(m: Map<Seq<char>, Pilot>, u: PilotUpdate, n: Map<Seq<char>, Pilot>, c: Seq<char>)
    requires
        pilots_updated(m, u, n),
        update_callsign(u) != c,
    ensures
        pilot_or_empty(n, c) == pilot_or_empty(m, c),
        n.dom() == m.dom().insert(update_callsign(u)),
{
    assert(n.dom() =~= m.dom().insert(update_callsign(u)));
    if let PilotUpdate::Config(k, x) = u {
        if m.dom().contains(c) {
            assert(n[c] == m[c]);
        }
    }
}

/// After any interleaving of registrations, positions and configurations,
/// whatever callsigns they carry, each slot of a callsign `c` holds the last
/// value of its kind filed under `c` (the configuration in the same state),
/// or what it held before where none came.
pub proof fn pilot_slots_hold_last_values(
    c: Seq<char>,
    us: Seq<PilotUpdate>,
    ms: Seq<Map<Seq<char>, Pilot>>,
)
    requires
        pilots_run(us, ms),
    ensures
        ({
            let m0 = ms[0];
            let m = ms.last();
            &&& pilot_or_empty(m, c).client == match last_client_for(us, c) {
                Some(x) => Some(x),
                None => pilot_or_empty(m0, c).client,
            }
            &&& pilot_or_empty(m, c).position == match last_position_for(us, c) {
                Some(x) => Some(x),
                None => pilot_or_empty(m0, c).position,
            }
            &&& match last_config_for(us, c) {
                Some(x) => pilot_or_empty(m, c).config matches Some(y) && y.same_as(x),
                None => pilot_or_empty(m, c).config == pilot_or_empty(m0, c).config,
            }
        }),
    decreases us.len(),
{
    if us.len() > 0 {
        let n = us.len() - 1;
        lemma_pilot_run_prefix(us, ms);
        pilot_slots_hold_last_values(c, us.drop_last(), ms.drop_last());
        let before = ms[n];
        let after = ms[n + 1];
        assert(ms.drop_last().last() == before);
        assert(ms.drop_last()[0] == ms[0]);
        if update_callsign(us.last()) != c {
            lemma_pilot_step_elsewhere(before, us.last(), after, c);
        }
    }
}

/// After any sequence of observations, the callsigns with an aggregate are
/// those known before together with those the observations carry, each
/// counted once: from no pilots, as many as there are distinct callsigns.
pub proof fn pilot_callsigns_counted_once(us: Seq<PilotUpdate>, ms: Seq<Map<Seq<char>, Pilot>>)
    requires
        pilots_run(us, ms),
        ms[0].dom().finite(),
    ensures
        ms.last().dom() == ms[0].dom().union(update_callsigns(us)),
        ms.last().dom().finite(),
        ms[0].dom().is_empty() ==> ms.last().len() == update_callsigns(us).len(),
    decreases us.len(),
{
    if us.len() > 0 {
        let n = us.len() - 1;
        lemma_pilot_run_prefix(us, ms);
        pilot_callsigns_counted_once(us.drop_last(), ms.drop_last());
        assert(ms.drop_last().last() == ms[n]);
        assert(ms.drop_last()[0] == ms[0]);
        let u = us.last();
        assert(ms[n + 1].dom() =~= ms[n].dom().insert(update_callsign(u)));
        assert(ms.last().dom() =~= ms[0].dom().union(update_callsigns(us)));
    } else {
        assert(ms[0].dom().union(update_callsigns(us)) =~= ms[0].dom());
    }
    if ms[0].dom().is_empty() {
        assert(ms[0].dom() =~= Set::<Seq<char>>::empty());
        assert(ms.last().dom() =~= update_callsigns(us));
    }
}

/// One observation of a controller.
pub enum AtcUpdate {
    Client(NetworkClient),
    Position(ATCPosition),
}

pub open spec fn atc_update_callsign(u: AtcUpdate) -> Seq<char> {
    match u {
        AtcUpdate::Client(c) => c.callsign@,
        AtcUpdate::Position(p) => p.callsign@,
    }
}

/// The controllers `m` after the observation `u`, as `process_client` and
/// `process_position` state it.
pub open spec fn atcs_updated(m: Map<Seq<char>, ATC>, u: AtcUpdate) -> Map<Seq<char>, ATC> {
    match u {
        AtcUpdate::Client(c) => atcs_with_client(m, c),
        AtcUpdate::Position(p) => atcs_with_position(m, p),
    }
}

/// The controllers `m` after the observations `us`, in order.
pub open spec fn atcs_after(m: Map<Seq<char>, ATC>, us: Seq<AtcUpdate>) -> Map<Seq<char>, ATC>
    decreases us.len(),
{
    if us.len() == 0 {
        m
    } else {
        atcs_updated(atcs_after(m, us.drop_last()), us.last())
    }
}

/// The last registration among `us` filed under `c`.
pub open spec fn last_atc_client_for(us: Seq<AtcUpdate>, c: Seq<char>) -> Option<NetworkClient>
    decreases us.len(),
{
    if us.len() == 0 {
        None
    } else {
        match us.last() {
            AtcUpdate::Client(x) => if x.callsign@ == c {
                Some(x)
            } else {
                last_atc_client_for(us.drop_last(), c)
            },
            _ => last_atc_client_for(us.drop_last(), c),
        }
    }
}

/// The last position report among `us` filed under `c`.
pub open spec fn last_atc_position_for(us: Seq<AtcUpdate>, c: Seq<char>) -> Option<ATCPosition>
    decreases us.len(),
{
    if us.len() == 0 {
        None
    } else {
        match us.last() {
            AtcUpdate::Position(x) => if x.callsign@ == c {
                Some(x)
            } else {
                last_atc_position_for(us.drop_last(), c)
            },
            _ => last_atc_position_for(us.drop_last(), c),
        }
    }
}

/// The callsigns that the observations `us` are filed under.
pub open spec fn atc_update_callsigns(us: Seq<AtcUpdate>) -> Set<Seq<char>>
    decreases us.len(),
{
    if us.len() == 0 {
        Set::empty()
    } else {
        atc_update_callsigns(us.drop_last()).insert(atc_update_callsign(us.last()))
    }
}

/// After any interleaving of controller registrations and positions, the two
/// slots of a callsign `c` hold the last value of each kind filed under `c`,
/// or what they held before where none came; neither overwrites the other.
pub proof fn atc_slots_hold_last_values(m: Map<Seq<char>, ATC>, us: Seq<AtcUpdate>, c: Seq<char>)
    ensures
        atc_or_empty(atcs_after(m, us), c).client == match last_atc_client_for(us, c) {
            Some(x) => Some(x),
            None => atc_or_empty(m, c).client,
        },
        atc_or_empty(atcs_after(m, us), c).position == match last_atc_position_for(us, c) {
            Some(x) => Some(x),
            None => atc_or_empty(m, c).position,
        },
    decreases us.len(),
{
    if us.len() > 0 {
        atc_slots_hold_last_values(m, us.drop_last(), c);
    }
}

/// After any sequence of controller observations, the callsigns with an
/// aggregate are those known before together with those the observations
/// carry, each counted once: from no controllers, as many as there are
/// distinct callsigns.
pub proof fn atc_callsigns_counted_once(m: Map<Seq<char>, ATC>, us: Seq<AtcUpdate>)
    requires
        m.dom().finite(),
    ensures
        atcs_after(m, us).dom() == m.dom().union(atc_update_callsigns(us)),
        atcs_after(m, us).dom().finite(),
        m.dom().is_empty() ==> atcs_after(m, us).len() == atc_update_callsigns(us).len(),
    decreases us.len(),
{
    if us.len() > 0 {
        atc_callsigns_counted_once(m, us.drop_last());
        assert(atcs_after(m, us).dom() =~= m.dom().union(atc_update_callsigns(us)));
    } else {
        assert(m.dom().union(atc_update_callsigns(us)) =~= m.dom());
    }
    if m.dom().is_empty() {
        assert(m.dom() =~= Set::<Seq<char>>::empty());
        assert(atcs_after(m, us).dom() =~= atc_update_callsigns(us));
    }
}

/// Forgetting a pilot leaves every slot of its callsign empty, whether or not
/// it was known, and forgetting it again changes nothing.
pub proof fn pilot_delete_clears(m: Map<Seq<char>, Pilot>, c: Seq<char>)
    ensures
        pilot_or_empty(m.remove(c), c) == (Pilot { client: None, config: None, position: None }),
        m.remove(c).remove(c) == m.remove(c),
{
    assert(m.remove(c).remove(c) =~= m.remove(c));
}

/// Forgetting a controller leaves both slots of its callsign empty, whether
/// or not it was known, and forgetting it again changes nothing.
pub proof fn atc_delete_clears(m: Map<Seq<char>, ATC>, c: Seq<char>)
    ensures
        atc_or_empty(m.remove(c), c) == (ATC { client: None, position: None }),
        m.remove(c).remove(c) == m.remove(c),
{
    assert(m.remove(c).remove(c) =~= m.remove(c));
}

/// A line whose lead is none of `%`, `@`, `#` and `$` gives no record.
pub proof fn unknown_prefix_is_no_packet(line: Seq<char>, r: Result<PacketTypes, ParseError>)
    requires
        ({
            let b = clean_line(line);
            b.len() == 0 || (b[0] != '%' && b[0] != '@' && b[0] != '#' && b[0] != '$')
        }),
        parse_spec(line, r),
    ensures
        r == Err::<PacketTypes, ParseError>(ParseError::NotAPacket),
{
}

/// Each lead and command yields the record kind of its table entry.
pub proof fn record_kind_follows_command(line: Seq<char>, p: PacketTypes)
    requires
        parse_spec(line, Ok(p)),
    ensures
        ({
            let b = clean_line(line);
            let cmd = b.subrange(1, 3);
            &&& is_candidate(b)
            &&& b[0] == '%' ==> p is ATCPosition
            &&& b[0] == '@' ==> p is PilotPosition
            &&& (b[0] == '#' || b[0] == '$') ==> {
                &&& (cmd == "AA"@ || cmd == "AP"@) ==> p is NetworkClient
                &&& (cmd == "DA"@ || cmd == "DP"@) ==> p is DeleteClient
                &&& cmd == "TM"@ ==> p is TextMessage
                &&& (cmd == "FP"@ || cmd == "AM"@) ==> p is FlightPlan
                &&& (cmd == "HO"@ || cmd == "HA"@) ==> p is TransferControl
                &&& (cmd == "AR"@ || cmd == "AX"@) ==> p is Metar
                &&& cmd == "PC"@ ==> (p is TransferControl || p is FlightStrip || p is SharedState)
                &&& (cmd == "CQ"@ || cmd == "CR"@) ==> p is ClientQuery
            }
        }),
{
    reveal_strlit("AA");
    assert("AA"@ =~= seq!['A', 'A']);
    reveal_strlit("AP");
    assert("AP"@ =~= seq!['A', 'P']);
    reveal_strlit("DA");
    assert("DA"@ =~= seq!['D', 'A']);
    reveal_strlit("DP");
    assert("DP"@ =~= seq!['D', 'P']);
    reveal_strlit("TM");
    assert("TM"@ =~= seq!['T', 'M']);
    reveal_strlit("FP");
    assert("FP"@ =~= seq!['F', 'P']);
    reveal_strlit("AM");
    assert("AM"@ =~= seq!['A', 'M']);
    reveal_strlit("HO");
    assert("HO"@ =~= seq!['H', 'O']);
    reveal_strlit("HA");
    assert("HA"@ =~= seq!['H', 'A']);
    reveal_strlit("AR");
    assert("AR"@ =~= seq!['A', 'R']);
    reveal_strlit("AX");
    assert("AX"@ =~= seq!['A', 'X']);
    reveal_strlit("PC");
    assert("PC"@ =~= seq!['P', 'C']);
    reveal_strlit("CQ");
    assert("CQ"@ =~= seq!['C', 'Q']);
    reveal_strlit("CR");
    assert("CR"@ =~= seq!['C', 'R']);
}

/// A frame that neither comes from nor goes to a server yields no event.
pub proof fn off_session_frames_yield_nothing(
    servers: Set<Seq<char>>,
    src: Seq<char>,
    dst: Seq<char>,
    payload: Seq<u8>,
    evs: Seq<PacketSource>,
)
    requires
        !servers.contains(src),
        !servers.contains(dst),
        frame_events(servers, src, dst, payload, evs),
    ensures
        evs.len() == 0,
{
}

} // verus!
