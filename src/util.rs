//! Frequencies and the aircraft configuration that JSON patches fold into.
use vstd::prelude::*;
use vstd::string::*;
use crate::json::{as_u64_spec, get_spec, Json};
use crate::table::StringMap;

verus! {

/// A radio frequency in the form `1XX.YYY` (MHz).
#[derive(Debug, PartialEq)]
pub struct Frequency {
    pub text: String,
}

/// The text of the frequency that the on-wire digits `d` stand for: a leading
/// `1`, the first two digits, a decimal point, then the rest.
pub open spec fn frequency_text(d: Seq<char>) -> Seq<char> {
    seq!['1'] + d.subrange(0, 2) + seq!['.'] + d.skip(2)
}

impl Frequency {
    /// Decodes the compact on-wire form (`23950` is `123.950`).
    pub fn from_packet_string(data: &str) -> (r: Self)
        requires
            data@.len() >= 2,
        ensures
            r.text@ == frequency_text(data@),
    {
        let n = data.unicode_len();
        let head = data.substring_char(0, 2);
        let tail = data.substring_char(2, n);
        proof {
            reveal_strlit("1");
            reveal_strlit(".");
        }
        let text = String::from_str("1").concat(head).concat(".").concat(tail);
        assert(text@ =~= frequency_text(data@));
        Frequency { text }
    }
}


impl Clone for Frequency {
    fn clone(&self) -> (r: Self)
        ensures
            r == *self,
    {
        Frequency { text: self.text.clone() }
    }
}

#[derive(Debug, PartialEq, Eq, Structural, Clone, Copy)]
pub struct AircraftLights {
    pub strobe_on: bool,
    pub landing_on: bool,
    pub beacon_on: bool,
    pub nav_on: bool,
    pub logo_on: bool,
}

impl Default for AircraftLights {
    fn default() -> (r: Self)
        ensures
            r == (AircraftLights {
                strobe_on: false,
                landing_on: false,
                beacon_on: false,
                nav_on: false,
                logo_on: false,
            }),
    {
        AircraftLights {
            strobe_on: false,
            landing_on: false,
            beacon_on: false,
            nav_on: false,
            logo_on: false,
        }
    }
}

#[derive(Debug, PartialEq, Eq, Structural, Clone, Copy)]
pub struct AircraftEngine {
    pub on: bool,
}

impl Default for AircraftEngine {
    fn default() -> (r: Self)
        ensures
            r == (AircraftEngine { on: false }),
    {
        AircraftEngine { on: false }
    }
}

/// The live state of an aircraft: lights, engines by id, flaps, gear,
/// spoilers and whether it is on the ground.
#[derive(Debug, PartialEq)]
pub struct AircraftConfiguration {
    pub lights: AircraftLights,
    pub engines: StringMap<AircraftEngine>,
    pub flaps_pct: u64,
    pub gear_down: bool,
    pub spoilers_out: bool,
    pub on_ground: bool,
}

/// Which top-level member of the patch `v` applies: the first present of
/// `lights` (0), `engines` (1), `flaps_pct` (2), `gear_down` (3),
/// `spoilers_out` (4) and `on_ground` (5); 6 where none is.
pub open spec fn patch_kind(v: Json) -> int {
    if get_spec(v, "lights"@) is Some {
        0
    } else if get_spec(v, "engines"@) is Some {
        1
    } else if get_spec(v, "flaps_pct"@) is Some {
        2
    } else if get_spec(v, "gear_down"@) is Some {
        3
    } else if get_spec(v, "spoilers_out"@) is Some {
        4
    } else if get_spec(v, "on_ground"@) is Some {
        5
    } else {
        6
    }
}

/// The boolean that `j` is, where it is one.
pub open spec fn bool_of(j: Option<Json>) -> Option<bool> {
    match j {
        Some(Json::Bool(b)) => Some(b),
        _ => None,
    }
}

/// `b` where it is given, else `old`.
pub open spec fn or_keep(b: Option<bool>, old: bool) -> bool {
    match b {
        Some(x) => x,
        None => old,
    }
}

/// The lights after the `lights` member `l`: each of `strobe_on`,
/// `landing_on`, `beacon_on`, `nav_on` and `logo_on` that `l` gives as a
/// boolean is set; the others keep their state.
pub open spec fn lights_patched(c: AircraftLights, l: Json) -> AircraftLights {
    AircraftLights {
        strobe_on: or_keep(bool_of(get_spec(l, "strobe_on"@)), c.strobe_on),
        landing_on: or_keep(bool_of(get_spec(l, "landing_on"@)), c.landing_on),
        beacon_on: or_keep(bool_of(get_spec(l, "beacon_on"@)), c.beacon_on),
        nav_on: or_keep(bool_of(get_spec(l, "nav_on"@)), c.nav_on),
        logo_on: or_keep(bool_of(get_spec(l, "logo_on"@)), c.logo_on),
    }
}

/// The engines after the members `es` of an `engines` patch, in order: each
/// whose value has a boolean `on` sets (or adds) that engine.
pub open spec fn engines_patched(
    m: Map<Seq<char>, AircraftEngine>,
    es: Seq<(String, Json)>,
) -> Map<Seq<char>, AircraftEngine>
    decreases es.len(),
{
    if es.len() == 0 {
        m
    } else {
        let before = engines_patched(m, es.drop_last());
        match bool_of(get_spec(es.last().1, "on"@)) {
            Some(b) => before.insert(es.last().0@, AircraftEngine { on: b }),
            None => before,
        }
    }
}

/// Whether `n` is the configuration `c` after the patch `v`; a member of the
/// wrong type changes nothing.
pub open spec fn config_patched(c: AircraftConfiguration, v: Json, n: AircraftConfiguration) -> bool {
    let k = patch_kind(v);
    &&& n.lights == if k == 0 {
        lights_patched(c.lights, get_spec(v, "lights"@)->0)
    } else {
        c.lights
    }
    &&& n.engines@ == if k == 1 {
        match get_spec(v, "engines"@) {
            Some(Json::Object(es)) => engines_patched(c.engines@, es@),
            _ => c.engines@,
        }
    } else {
        c.engines@
    }
    &&& n.flaps_pct == if k == 2 {
        match as_u64_spec(get_spec(v, "flaps_pct"@)->0) {
            Some(f) => f,
            None => c.flaps_pct,
        }
    } else {
        c.flaps_pct
    }
    &&& n.gear_down == if k == 3 {
        or_keep(bool_of(get_spec(v, "gear_down"@)), c.gear_down)
    } else {
        c.gear_down
    }
    &&& n.spoilers_out == if k == 4 {
        or_keep(bool_of(get_spec(v, "spoilers_out"@)), c.spoilers_out)
    } else {
        c.spoilers_out
    }
    &&& n.on_ground == if k == 5 {
        or_keep(bool_of(get_spec(v, "on_ground"@)), c.on_ground)
    } else {
        c.on_ground
    }
}

impl Default for AircraftConfiguration {
    fn default() -> (r: Self)
        ensures
            r.wf(),
            r.lights == (AircraftLights {
                strobe_on: false,
                landing_on: false,
                beacon_on: false,
                nav_on: false,
                logo_on: false,
            }),
            r.engines@ == Map::<Seq<char>, AircraftEngine>::empty(),
            r.flaps_pct == 0,
            !r.gear_down,
            !r.spoilers_out,
            !r.on_ground,
    {
        AircraftConfiguration::new()
    }
}

impl Clone for AircraftConfiguration {
    fn clone(&self) -> (r: Self)
        ensures
            r.same_as(*self),
            self.wf() ==> r.wf(),
    {
        AircraftConfiguration {
            lights: self.lights,
            engines: self.engines.copy(),
            flaps_pct: self.flaps_pct,
            gear_down: self.gear_down,
            spoilers_out: self.spoilers_out,
            on_ground: self.on_ground,
        }
    }
}

/// The boolean member `key` of `l`, or `old` where there is none.
fn member_bool_or(l: &Json, key: &str, old: bool) -> (r: bool)
    ensures
        r == or_keep(bool_of(get_spec(*l, key@)), old),
{
    match l.get(key) {
        Some(x) => match x.as_bool() {
            Some(b) => b,
            None => old,
        },
        None => old,
    }
}

impl AircraftConfiguration {
    /// The two hold the same state.
    pub open spec fn same_as(self, o: AircraftConfiguration) -> bool {
        &&& self.lights == o.lights
        &&& self.engines@ == o.engines@
        &&& self.flaps_pct == o.flaps_pct
        &&& self.gear_down == o.gear_down
        &&& self.spoilers_out == o.spoilers_out
        &&& self.on_ground == o.on_ground
    }

    pub open spec fn wf(&self) -> bool {
        self.engines.wf()
    }

    /// All lights off, no engines, flaps up, gear up, spoilers in, airborne.
    pub fn new() -> (r: Self)
        ensures
            r.wf(),
            r.lights == (AircraftLights {
                strobe_on: false,
                landing_on: false,
                beacon_on: false,
                nav_on: false,
                logo_on: false,
            }),
            r.engines@ == Map::<Seq<char>, AircraftEngine>::empty(),
            r.flaps_pct == 0,
            !r.gear_down,
            !r.spoilers_out,
            !r.on_ground,
    {
        AircraftConfiguration {
            lights: AircraftLights::default(),
            engines: StringMap::new(),
            flaps_pct: 0,
            gear_down: false,
            spoilers_out: false,
            on_ground: false,
        }
    }

    fn patch_lights(&mut self, l: &Json)
        ensures
            final(self).lights == lights_patched(old(self).lights, *l),
            final(self).engines == old(self).engines,
            final(self).flaps_pct == old(self).flaps_pct,
            final(self).gear_down == old(self).gear_down,
            final(self).spoilers_out == old(self).spoilers_out,
            final(self).on_ground == old(self).on_ground,
    {
        let lights = AircraftLights {
            strobe_on: member_bool_or(l, "strobe_on", self.lights.strobe_on),
            landing_on: member_bool_or(l, "landing_on", self.lights.landing_on),
            beacon_on: member_bool_or(l, "beacon_on", self.lights.beacon_on),
            nav_on: member_bool_or(l, "nav_on", self.lights.nav_on),
            logo_on: member_bool_or(l, "logo_on", self.lights.logo_on),
        };
        self.lights = lights;
    }

    fn patch_engines(&mut self, es: &Vec<(String, Json)>)
        requires
            old(self).wf(),
        ensures
            final(self).wf(),
            final(self).engines@ == engines_patched(old(self).engines@, es@),
            final(self).lights == old(self).lights,
            final(self).flaps_pct == old(self).flaps_pct,
            final(self).gear_down == old(self).gear_down,
            final(self).spoilers_out == old(self).spoilers_out,
            final(self).on_ground == old(self).on_ground,
    {
        let n = es.len();
        let mut i: usize = 0;
        let ghost start = self.engines@;
        assert(es@.subrange(0, 0) =~= Seq::<(String, Json)>::empty());
        while i < n
            invariant
                n == es@.len(),
                i <= n,
                self.wf(),
                self.engines@ == engines_patched(start, es@.subrange(0, i as int)),
                start == old(self).engines@,
                self.lights == old(self).lights,
                self.flaps_pct == old(self).flaps_pct,
                self.gear_down == old(self).gear_down,
                self.spoilers_out == old(self).spoilers_out,
                self.on_ground == old(self).on_ground,
            decreases n - i,
        {
            let e = &es[i];
            assert(es@.subrange(0, i + 1).drop_last() =~= es@.subrange(0, i as int));
            assert(es@.subrange(0, i + 1).last() == es@[i as int]);
            if let Some(x) = e.1.get("on") {
                if let Some(b) = x.as_bool() {
                    self.engines.insert(e.0.clone(), AircraftEngine { on: b });
                }
            }
            i = i + 1;
        }
        assert(es@.subrange(0, n as int) =~= es@);
    }

    /// Applies the first matching top-level member of the patch `v`.
    pub fn update_from_json(&mut self, v: &Json)
        requires
            old(self).wf(),
        ensures
            final(self).wf(),
            config_patched(*old(self), *v, *final(self)),
    {
        if let Some(l) = v.get("lights") {
            self.patch_lights(l);
        } else if let Some(e) = v.get("engines") {
            match e {
                Json::Object(es) => self.patch_engines(es),
                _ => {},
            }
        } else if let Some(f) = v.get("flaps_pct") {
            if let Some(n) = f.as_u64() {
                self.flaps_pct = n;
            }
        } else if let Some(g) = v.get("gear_down") {
            if let Some(b) = g.as_bool() {
                self.gear_down = b;
            }
        } else if let Some(x) = v.get("spoilers_out") {
            if let Some(b) = x.as_bool() {
                self.spoilers_out = b;
            }
        } else if let Some(x) = v.get("on_ground") {
            if let Some(b) = x.as_bool() {
                self.on_ground = b;
            }
        }
    }
}

} // verus!
