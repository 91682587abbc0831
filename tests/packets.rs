use fsdparser::{
    find_value, EngineType, FlightRules, FlightSurfaces, Frequency, Json, NetworkFacility,
    NetworkRating, Packet, PlaneInfo, PlaneInfoRequest, PlaneInfoResponse, ProtocolRevision,
    RealNamePayload, TextMessage, TextMessageReceiver,
};

#[test]
fn test_rating_convert() {
    assert_eq!(NetworkRating::from_string(""), NetworkRating::Undefined);
    assert_eq!(NetworkRating::from_string("30"), NetworkRating::Undefined);
    assert_eq!(NetworkRating::from_string("1"), NetworkRating::OBS);
}

#[test]
fn test_facility_convert() {
    assert_eq!(NetworkFacility::from_string(""), NetworkFacility::Undefined);
    assert_eq!(NetworkFacility::from_string("30"), NetworkFacility::Undefined);
    assert_eq!(NetworkFacility::from_string("1"), NetworkFacility::FSS);
}

#[test]
fn rating_and_facility_edges() {
    assert_eq!(NetworkRating::from_string("12"), NetworkRating::ADM);
    assert_eq!(NetworkRating::from_string("13"), NetworkRating::Undefined);
    assert_eq!(NetworkRating::from_string("0"), NetworkRating::Undefined);
    assert_eq!(NetworkRating::from_string("+5"), NetworkRating::C1);
    assert_eq!(NetworkRating::from_string("-1"), NetworkRating::Undefined);
    assert_eq!(NetworkRating::from_string("abc"), NetworkRating::Undefined);
    assert_eq!(NetworkRating::from_string("99999999999999999999999"), NetworkRating::Undefined);
    assert_eq!(NetworkFacility::from_string("0"), NetworkFacility::OBS);
    assert_eq!(NetworkFacility::from_string("6"), NetworkFacility::CTR);
    assert_eq!(NetworkFacility::from_string("7"), NetworkFacility::Undefined);
    assert_eq!(NetworkRating::C3.name(), "C3");
}

#[test]
fn test_parse_packet_frequency() {
    let freq = Frequency::from_packet_string(&"23950".to_string());
    assert_eq!(freq.text, "123.950");
}

#[test]
fn frequency_layout_for_other_digits() {
    assert_eq!(Frequency::from_packet_string("18000").text, "118.000");
    assert_eq!(Frequency::from_packet_string("35975").text, "135.975");
}

#[test]
fn attitude_word_decodes_to_units() {
    let pbh = FlightSurfaces::from_encoded(4282386784);
    assert_eq!((pbh.pitch, pbh.bank, pbh.hdg), (3, 0, 600));
    let zero = FlightSurfaces::from_encoded(0);
    assert_eq!((zero.pitch, zero.bank, zero.hdg), (0, 0, 0));
    // bank bits 512 give -512 units, folded up to 512 (180 degrees)
    let bank = FlightSurfaces::from_encoded(512 << 12);
    assert_eq!(bank.bank, 512);
    // pitch bits 1 give -1 unit
    let pitch = FlightSurfaces::from_encoded(1 << 22);
    assert_eq!(pitch.pitch, -1);
    let hdg = FlightSurfaces::from_encoded(1023 << 2);
    assert_eq!(hdg.hdg, 1023);
    for word in [0i64, 1, 0xFFFF_FFFF, 0x8000_0000, 0x7FFF_FFFF, 4282386784, 123456789] {
        let f = FlightSurfaces::from_encoded(word);
        assert!(-512 < f.pitch && f.pitch <= 512);
        assert!(-512 < f.bank && f.bank <= 512);
        assert!(0 <= f.hdg && f.hdg < 1024);
    }
}

#[test]
fn text_message_from_fields() {
    let m = TextMessage::from_string(&vec!["A", "@22800", "hello"]);
    assert_eq!(m.sender, "A");
    assert_eq!(m.text, "hello");
    assert_eq!(m.receiver, TextMessageReceiver::Radio(Frequency { text: "122.800".to_string() }));
}

#[test]
fn flight_rules_both_forms() {
    assert_eq!(FlightRules::from_string("I"), FlightRules::IFR);
    assert_eq!(FlightRules::from_string("DVFR"), FlightRules::DVFR);
    assert_eq!(FlightRules::from_string("S"), FlightRules::SVFR);
    assert_eq!(FlightRules::from_string("X"), FlightRules::Undefined);
}

#[test]
fn plane_info_forms() {
    let legacy = PlaneInfo::new(&vec!["N1", "BOS_APP", "PI", "X", "0", "1", "B738"]);
    assert_eq!(legacy.payload, PlaneInfoResponse::Legacy { csl: "B738".to_string(), engine_type: EngineType::Jet });
    let regular = PlaneInfo::new(&vec!["N1", "BOS_APP", "PI", "GEN", "equipment=B738", "AIRLINE=SWA", "CSL"]);
    assert_eq!(
        regular.payload,
        PlaneInfoResponse::Regular {
            equipment: Some("B738".to_string()),
            airline: Some("SWA".to_string()),
            livery: None,
            csl: None,
        }
    );
    assert_eq!(find_value(&vec!["a", "Livery=X"], "LIVERY"), Some("X".to_string()));
    let req = PlaneInfoRequest::new(&vec!["N1", "BOS_APP"]);
    assert_eq!((req.from.as_str(), req.to.as_str()), ("N1", "BOS_APP"));
    assert_eq!(EngineType::from_string("2"), Some(EngineType::NoEngine));
    assert_eq!(EngineType::from_string("4"), None);
}

#[test]
fn real_name_payload() {
    let p = RealNamePayload::from_payload(&vec!["Jane".to_string(), "BOS".to_string(), "5".to_string()]);
    assert_eq!(p.real_name, "Jane");
    assert_eq!(p.facility_name, "BOS");
    assert_eq!(p.rating, NetworkRating::C1);
}

#[test]
fn protocol_numbers() {
    assert_eq!(ProtocolRevision::Classic.number(), 9);
    assert_eq!(ProtocolRevision::VatsimAuth.number(), 100);
}

#[test]
fn json_reading() {
    let j = Json::parse("{\"b\": [1, 2.5, \"x\", null], \"a\": 18446744073709551615}").unwrap();
    assert_eq!(j.get("a").unwrap().as_u64(), Some(u64::MAX));
    match j.get("b").unwrap() {
        Json::Array(items) => {
            assert_eq!(items[0].as_u64(), Some(1));
            assert_eq!(items[1].as_u64(), None);
            assert_eq!(items[2], Json::Str("x".to_string()));
            assert_eq!(items[3], Json::Null);
        }
        _ => panic!("not an array"),
    }
    assert!(Json::parse("{oops").is_none());
    assert!(j.get("c").is_none());
}
