use fsdparser::{AircraftConfiguration, AircraftEngine, AircraftLights, Json};

#[test]
fn parse_aircraft_configuration() {
    let mut config: AircraftConfiguration = AircraftConfiguration::new();

    let data_string: Json =
        Json::parse("{\"config\":{\"lights\":{\"beacon_on\":true}, \"gear_down\": true}}").unwrap();
    config.update_from_json(data_string.get("config").unwrap());
    let mut expected = AircraftConfiguration::new();
    expected.lights = AircraftLights { beacon_on: true, ..Default::default() };
    assert_eq!(config, expected);
    config.update_from_json(&Json::parse("{\"gear_down\": true}").unwrap());
    expected.gear_down = true;
    assert_eq!(config, expected);
}

#[test]
fn engines_flaps_and_wrong_types() {
    let mut config = AircraftConfiguration::new();
    config.update_from_json(&Json::parse("{\"engines\": {\"1\": {\"on\": true}, \"2\": {\"on\": false}}}").unwrap());
    assert_eq!(config.engines.get("1"), Some(&AircraftEngine { on: true }));
    assert_eq!(config.engines.get("2"), Some(&AircraftEngine { on: false }));
    config.update_from_json(&Json::parse("{\"engines\": {\"2\": {\"on\": true}}}").unwrap());
    assert_eq!(config.engines.get("2"), Some(&AircraftEngine { on: true }));
    assert_eq!(config.engines.len(), 2);
    config.update_from_json(&Json::parse("{\"flaps_pct\": 25}").unwrap());
    assert_eq!(config.flaps_pct, 25);
    config.update_from_json(&Json::parse("{\"flaps_pct\": 2.5}").unwrap());
    assert_eq!(config.flaps_pct, 25);
    config.update_from_json(&Json::parse("{\"on_ground\": \"yes\"}").unwrap());
    assert!(!config.on_ground);
    config.update_from_json(&Json::parse("{\"spoilers_out\": true, \"on_ground\": true}").unwrap());
    assert!(config.spoilers_out);
    assert!(!config.on_ground);
    config.update_from_json(&Json::parse("{\"lights\": {\"strobe_on\": true, \"nav_on\": true}}").unwrap());
    assert!(config.lights.strobe_on);
    assert!(config.lights.nav_on);
    assert!(!config.lights.beacon_on);
    config.update_from_json(&Json::parse("{\"lights\": {\"strobe_on\": false, \"beacon_on\": true, \"logo_on\": 1}}").unwrap());
    assert!(!config.lights.strobe_on);
    assert!(config.lights.beacon_on);
    assert!(config.lights.nav_on);
    assert!(!config.lights.logo_on);
    assert_eq!(AircraftEngine::default(), AircraftEngine { on: false });
}
