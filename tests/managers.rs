use fsdparser::{
    ATCManager, ATCPosition, AircraftConfiguration, Frequency, FlightSurfaces, Json,
    NetworkClient, NetworkClientType, NetworkFacility, NetworkRating, PilotManager,
    PilotPosition, SquawkType,
};

fn test_pilot() -> NetworkClient {
    NetworkClient {
        client_type: NetworkClientType::Pilot,
        callsign: "DAL512".to_string(),
        real_name: "Test".to_string(),
        cid: "3210".to_string(),
        password: "".to_string(),
        rating: NetworkRating::OBS,
        protocol_ver: 100,
    }
}

fn test_position(callsign: &str, alt: i32) -> PilotPosition {
    PilotPosition {
        callsign: callsign.to_string(),
        squawk_code: 1200,
        squawking: SquawkType::Charlie,
        rating: NetworkRating::OBS,
        lat: "42.0".to_string(),
        lon: "-71.0".to_string(),
        true_alt: alt,
        pressure_alt: alt,
        ground_speed: 100,
        pbh: FlightSurfaces { pitch: 0, bank: 0, hdg: 0 },
    }
}

#[test]
fn test_pilot_client() {
    let mut manager = PilotManager::new();
    let pilot = test_pilot();
    manager.process_client(&pilot);
    assert!(manager.number_tracked() > 0);
    let result = manager.get_client(&pilot.callsign).unwrap();
    assert_eq!(result.rating, NetworkRating::OBS);

    assert_eq!(manager.get_client(&"www".to_string()), None);
}

#[test]
fn test_pilot_remove() {
    let mut manager = PilotManager::new();
    let pilot = test_pilot();
    manager.process_client(&pilot);
    manager.delete(&pilot.callsign);
    assert_eq!(manager.get_client(&pilot.callsign), None);
}

#[test]
fn interleaved_observations_keep_last_of_each_kind() {
    let mut manager = PilotManager::new();
    let cs = "DAL512".to_string();
    manager.process_position(&test_position("DAL512", 1000));
    manager.process_client(&test_pilot());
    manager.process_position(&test_position("DAL512", 2000));
    let mut config = AircraftConfiguration::new();
    config.update_from_json(&Json::parse("{\"gear_down\": true}").unwrap());
    manager.process_config(&cs, &config);
    let mut other = test_pilot();
    other.real_name = "Second".to_string();
    manager.process_client(&other);
    assert_eq!(manager.get_client(&cs).unwrap().real_name, "Second");
    assert_eq!(manager.get_position(&cs).unwrap().true_alt, 2000);
    assert_eq!(manager.get_config(&cs).unwrap(), config);
    assert_eq!(manager.number_tracked(), 1);
    manager.process_position(&test_position("N1", 500));
    assert_eq!(manager.number_tracked(), 2);
    assert_eq!(manager.get_client(&"N1".to_string()), None);
    assert_eq!(manager.get_config(&"N1".to_string()), None);
}

#[test]
fn delete_is_idempotent_and_unconditional() {
    let mut manager = PilotManager::new();
    let cs = "DAL512".to_string();
    manager.delete(&cs);
    assert_eq!(manager.number_tracked(), 0);
    manager.process_position(&test_position("DAL512", 1000));
    manager.delete(&cs);
    manager.delete(&cs);
    assert_eq!(manager.get_client(&cs), None);
    assert_eq!(manager.get_position(&cs), None);
    assert_eq!(manager.get_config(&cs), None);
    assert_eq!(manager.number_tracked(), 0);
}

#[test]
fn controller_aggregates() {
    let mut manager = ATCManager::new();
    let position = ATCPosition {
        freq: Frequency { text: "133.000".to_string() },
        facility: NetworkFacility::APP,
        vis_range: 150,
        rating: NetworkRating::C1,
        lat: "42.35745".to_string(),
        lon: "-70.98955".to_string(),
        callsign: "BOS_APP".to_string(),
    };
    manager.process_position(&position);
    let cs = "BOS_APP".to_string();
    assert_eq!(manager.get_client(&cs), None);
    assert_eq!(manager.get_position(&cs), Some(position.clone()));
    let mut client = test_pilot();
    client.callsign = cs.clone();
    client.client_type = NetworkClientType::ATC;
    manager.process_client(&client);
    assert_eq!(manager.get_client(&cs), Some(client));
    assert_eq!(manager.get_position(&cs), Some(position));
    assert_eq!(manager.number_tracked(), 1);
    manager.delete(&cs);
    assert_eq!(manager.get_position(&cs), None);
    assert_eq!(manager.number_tracked(), 0);
}

#[test]
fn interleaving_across_callsigns_counts_each_once() {
    let mut manager = PilotManager::new();
    let mut a = test_pilot();
    a.callsign = "A1".to_string();
    manager.process_client(&a);
    manager.process_position(&test_position("B2", 300));
    manager.process_position(&test_position("A1", 100));
    manager.process_config(&"C3".to_string(), &AircraftConfiguration::new());
    manager.process_position(&test_position("B2", 400));
    manager.process_position(&test_position("A1", 200));
    assert_eq!(manager.number_tracked(), 3);
    assert_eq!(manager.get_client(&"A1".to_string()), Some(a));
    assert_eq!(manager.get_position(&"A1".to_string()).unwrap().true_alt, 200);
    assert_eq!(manager.get_position(&"B2".to_string()).unwrap().true_alt, 400);
    assert_eq!(manager.get_client(&"B2".to_string()), None);
    assert_eq!(manager.get_position(&"C3".to_string()), None);
}
