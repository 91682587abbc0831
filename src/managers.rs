//! Per-callsign aggregates of what has been seen of pilots and controllers.
use crate::fsdpackets::{ATCPosition, NetworkClient, PilotPosition};
use crate::table::StringMap;
use crate::util::AircraftConfiguration;
use vstd::prelude::*;

verus! {

/// What is known of one pilot: registration, last position, last
/// configuration.
#[derive(Debug)]
pub struct Pilot {
    pub client: Option<NetworkClient>,
    pub config: Option<AircraftConfiguration>,
    pub position: Option<PilotPosition>,
}

impl Default for Pilot {
    fn default() -> (r: Self)
        ensures
            r == (Pilot { client: None, config: None, position: None }),
    {
        Pilot { client: None, config: None, position: None }
    }
}

impl Pilot {
    pub open spec fn wf(&self) -> bool {
        self.config matches Some(c) ==> c.wf()
    }
}

/// The aggregate for `key` in `m`, or one with every slot empty.
pub open spec fn pilot_or_empty(m: Map<Seq<char>, Pilot>, key: Seq<char>) -> Pilot {
    if m.dom().contains(key) {
        m[key]
    } else {
        Pilot { client: None, config: None, position: None }
    }
}

/// `m` after a registration: only the registration slot of its callsign changes.
pub open spec fn pilots_with_client(m: Map<Seq<char>, Pilot>, c: NetworkClient) -> Map<Seq<char>, Pilot> {
    let prev = pilot_or_empty(m, c.callsign@);
    m.insert(c.callsign@, Pilot { client: Some(c), config: prev.config, position: prev.position })
}

/// `m` after a position report: only the position slot of its callsign changes.
pub open spec fn pilots_with_position(m: Map<Seq<char>, Pilot>, p: PilotPosition) -> Map<Seq<char>, Pilot> {
    let prev = pilot_or_empty(m, p.callsign@);
    m.insert(p.callsign@, Pilot { client: prev.client, config: prev.config, position: Some(p) })
}

/// Whether `n` is `m` after the configuration `cfg` of `key`: only that slot
/// changes, to a configuration in the same state as `cfg`.
pub open spec fn pilots_with_config(
    m: Map<Seq<char>, Pilot>,
    key: Seq<char>,
    cfg: AircraftConfiguration,
    n: Map<Seq<char>, Pilot>,
) -> bool {
    let prev = pilot_or_empty(m, key);
    &&& n.dom() == m.dom().insert(key)
    &&& forall|k: Seq<char>| k != key && #[trigger] m.dom().contains(k) ==> n[k] == m[k]
    &&& n[key].client == prev.client
    &&& n[key].position == prev.position
    &&& n[key].config matches Some(c) && c.same_as(cfg)
}

#[derive(Debug)]
pub struct PilotManager {
    pilots: StringMap<Pilot>,
}

impl View for PilotManager {
    type V = Map<Seq<char>, Pilot>;

    closed spec fn view(&self) -> Map<Seq<char>, Pilot> {
        self.pilots@
    }
}

impl PilotManager {
    pub closed spec fn wf(&self) -> bool {
        &&& self.pilots.wf()
        &&& forall|k: Seq<char>| #[trigger] self.pilots@.dom().contains(k) ==> self.pilots@[k].wf()
    }

    pub fn new() -> (r: Self)
        ensures
            r.wf(),
            r@ == Map::<Seq<char>, Pilot>::empty(),
    {
        PilotManager { pilots: StringMap::new() }
    }

    /// Takes the aggregate for `key` out, or an empty one.
    fn take_or_empty(&mut self, key: &str) -> (r: Pilot)
        requires
            old(self).wf(),
        ensures
            final(self).pilots.wf(),
            final(self)@ == old(self)@.remove(key@),
            r == pilot_or_empty(old(self)@, key@),
            r.wf(),
            forall|k: Seq<char>| #[trigger] final(self).pilots@.dom().contains(k) ==> final(self).pilots@[k].wf(),
    {
        match self.pilots.take(key) {
            Some(p) => p,
            None => Pilot { client: None, config: None, position: None },
        }
    }

    /// Records a registration under its callsign.
    pub fn process_client(&mut self, client: &NetworkClient)
        requires
            old(self).wf(),
        ensures
            final(self).wf(),
            final(self)@ == pilots_with_client(old(self)@, *client),
    {
        let mut p = self.take_or_empty(client.callsign.as_str());
        p.client = Some(client.clone());
        self.pilots.insert(client.callsign.clone(), p);
    }

    /// Records a position report under its callsign.
    pub fn process_position(&mut self, position: &PilotPosition)
        requires
            old(self).wf(),
        ensures
            final(self).wf(),
            final(self)@ == pilots_with_position(old(self)@, *position),
    {
        let mut p = self.take_or_empty(position.callsign.as_str());
        p.position = Some(position.clone());
        self.pilots.insert(position.callsign.clone(), p);
    }

    /// Records an aircraft configuration under `callsign`.
    pub fn process_config(&mut self, callsign: &String, aircraft_config: &AircraftConfiguration)
        requires
            old(self).wf(),
            aircraft_config.wf(),
        ensures
            final(self).wf(),
            pilots_with_config(old(self)@, callsign@, *aircraft_config, final(self)@),
    {
        let ghost before = self@;
        let mut p = self.take_or_empty(callsign.as_str());
        p.config = Some(aircraft_config.clone());
        self.pilots.insert(callsign.clone(), p);
        assert(self@.dom() =~= before.dom().insert(callsign@));
    }

    pub fn get_client(&self, callsign: &String) -> (r: Option<NetworkClient>)
        requires
            self.wf(),
        ensures
            r == pilot_or_empty(self@, callsign@).client,
    {
        match self.pilots.get(callsign.as_str()) {
            Some(p) => match &p.client {
                Some(c) => Some(c.clone()),
                None => None,
            },
            None => None,
        }
    }

    pub fn get_position(&self, callsign: &String) -> (r: Option<PilotPosition>)
        requires
            self.wf(),
        ensures
            r == pilot_or_empty(self@, callsign@).position,
    {
        match self.pilots.get(callsign.as_str()) {
            Some(p) => match &p.position {
                Some(c) => Some(c.clone()),
                None => None,
            },
            None => None,
        }
    }

    /// The configuration of `callsign`: a copy in the same state as the one
    /// held.
    pub fn get_config(&self, callsign: &String) -> (r: Option<AircraftConfiguration>)
        requires
            self.wf(),
        ensures
            r is Some <==> pilot_or_empty(self@, callsign@).config is Some,
            r matches Some(c) ==> c.wf() && c.same_as(pilot_or_empty(self@, callsign@).config->0),
    {
        match self.pilots.get(callsign.as_str()) {
            Some(p) => match &p.config {
                Some(c) => Some(c.clone()),
                None => None,
            },
            None => None,
        }
    }

    /// How many callsigns have an aggregate.
    pub fn number_tracked(&self) -> (r: usize)
        requires
            self.wf(),
        ensures
            self@.dom().finite(),
            r == self@.len(),
    {
        self.pilots.len()
    }

    /// Forgets `callsign` entirely.
    pub fn delete(&mut self, callsign: &String)
        requires
            old(self).wf(),
        ensures
            final(self).wf(),
            final(self)@ == old(self)@.remove(callsign@),
    {
        self.pilots.remove(callsign.as_str());
    }
}

/// What is known of one controller: registration and last position.
#[derive(Debug)]
pub struct ATC {
    pub client: Option<NetworkClient>,
    pub position: Option<ATCPosition>,
}

/// The aggregate for `key` in `m`, or one with both slots empty.
pub open spec fn atc_or_empty(m: Map<Seq<char>, ATC>, key: Seq<char>) -> ATC {
    if m.dom().contains(key) {
        m[key]
    } else {
        ATC { client: None, position: None }
    }
}

/// `m` after a registration: only the registration slot of its callsign changes.
pub open spec fn atcs_with_client(m: Map<Seq<char>, ATC>, c: NetworkClient) -> Map<Seq<char>, ATC> {
    m.insert(c.callsign@, ATC { client: Some(c), position: atc_or_empty(m, c.callsign@).position })
}

/// `m` after a position report: only the position slot of its callsign changes.
pub open spec fn atcs_with_position(m: Map<Seq<char>, ATC>, p: ATCPosition) -> Map<Seq<char>, ATC> {
    m.insert(p.callsign@, ATC { client: atc_or_empty(m, p.callsign@).client, position: Some(p) })
}

#[derive(Debug)]
pub struct ATCManager {
    atc: StringMap<ATC>,
}

impl View for ATCManager {
    type V = Map<Seq<char>, ATC>;

    closed spec fn view(&self) -> Map<Seq<char>, ATC> {
        self.atc@
    }
}

impl ATCManager {
    pub closed spec fn wf(&self) -> bool {
        self.atc.wf()
    }

    pub fn new() -> (r: Self)
        ensures
            r.wf(),
            r@ == Map::<Seq<char>, ATC>::empty(),
    {
        ATCManager { atc: StringMap::new() }
    }

    /// Records a registration under its callsign.
    pub fn process_client(&mut self, client: &NetworkClient)
        requires
            old(self).wf(),
        ensures
            final(self).wf(),
            final(self)@ == atcs_with_client(old(self)@, *client),
    {
        let position = match self.atc.take(client.callsign.as_str()) {
            Some(a) => a.position,
            None => None,
        };
        self.atc.insert(client.callsign.clone(), ATC { client: Some(client.clone()), position });
    }

    /// Records a position report under its callsign.
    pub fn process_position(&mut self, position: &ATCPosition)
        requires
            old(self).wf(),
        ensures
            final(self).wf(),
            final(self)@ == atcs_with_position(old(self)@, *position),
    {
        let client = match self.atc.take(position.callsign.as_str()) {
            Some(a) => a.client,
            None => None,
        };
        self.atc.insert(position.callsign.clone(), ATC { client, position: Some(position.clone()) });
    }

    pub fn get_client(&self, callsign: &String) -> (r: Option<NetworkClient>)
        requires
            self.wf(),
        ensures
            r == atc_or_empty(self@, callsign@).client,
    {
        match self.atc.get(callsign.as_str()) {
            Some(a) => match &a.client {
                Some(c) => Some(c.clone()),
                None => None,
            },
            None => None,
        }
    }

    pub fn get_position(&self, callsign: &String) -> (r: Option<ATCPosition>)
        requires
            self.wf(),
        ensures
            r == atc_or_empty(self@, callsign@).position,
    {
        match self.atc.get(callsign.as_str()) {
            Some(a) => match &a.position {
                Some(c) => Some(c.clone()),
                None => None,
            },
            None => None,
        }
    }

    /// How many callsigns have an aggregate.
    pub fn number_tracked(&self) -> (r: usize)
        requires
            self.wf(),
        ensures
            self@.dom().finite(),
            r == self@.len(),
    {
        self.atc.len()
    }

    /// Forgets `callsign` entirely.
    pub fn delete(&mut self, callsign: &String)
        requires
            old(self).wf(),
        ensures
            final(self).wf(),
            final(self)@ == old(self)@.remove(callsign@),
    {
        self.atc.remove(callsign.as_str());
    }
}

} // verus!
