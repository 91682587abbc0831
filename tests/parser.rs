use fsdparser::{
    ClientQueryPayload, ClientQueryType, FlightRules, NetworkClientType, NetworkFacility,
    NetworkRating, PacketTypes, ParseError, Parser, SharedStateType, SquawkType,
    TextMessageReceiver, TransferControlType,
};

fn receiver_of(line: &str) -> TextMessageReceiver {
    match Parser::parse(line).unwrap() {
        PacketTypes::TextMessage(message) => message.receiver,
        _ => panic!("Not the right packet type!"),
    }
}

#[test]
fn test_freq_text_message() {
    let tm = Parser::parse("#TMNY_CAM_APP:@28120:EK188,turnrightheading310");
    match tm.unwrap() {
        PacketTypes::TextMessage(message) => {
            assert_eq!(message.sender, "NY_CAM_APP".to_string(), "Sender: {}", message.sender);
            assert_eq!(message.text, "EK188,turnrightheading310");
            match message.receiver {
                TextMessageReceiver::Radio(freq) => {
                    assert_eq!(freq.text, "128.120")
                }
                _ => panic!("Not the right receiver type!"),
            }
        }
        _ => panic!("Not the right packet type!"),
    }
}

#[test]
fn test_atc_text_message() {
    match receiver_of("#TMA:@49999:") {
        TextMessageReceiver::ATC => (),
        _ => panic!("Not the right receiver type!"),
    }
}

#[test]
fn test_broadcast_text_message() {
    match receiver_of("#TMA:*:") {
        TextMessageReceiver::Broadcast => (),
        _ => panic!("Not the right receiver type!"),
    }
}

#[test]
fn test_wallop_text_message() {
    match receiver_of("#TMA:*S:") {
        TextMessageReceiver::Wallop => (),
        _ => panic!("Not the right receiver type!"),
    }
}

#[test]
fn test_private_text_message() {
    match receiver_of("#TMA:SWA283:") {
        TextMessageReceiver::PrivateMessage => (),
        _ => panic!("Not the right receiver type!"),
    }
}

#[test]
fn test_atc_position() {
    match Parser::parse("%BOS_APP:33000:5:150:5:42.35745:-70.98955:0").unwrap() {
        PacketTypes::ATCPosition(pos) => {
            assert_eq!(pos.facility, NetworkFacility::APP);
            assert_eq!(pos.freq.text, "133.000");
            assert_eq!(pos.lat.parse::<f32>().unwrap(), 42.35745);
            assert_eq!(pos.lon.parse::<f32>().unwrap(), -70.98955);
            assert_eq!(pos.callsign, "BOS_APP");
            assert_eq!(pos.rating, NetworkRating::C1);
            assert_eq!(pos.vis_range, 150);
        }
        _ => panic!("Not the right packet type!"),
    }
}

fn degrees(units: i64) -> f64 {
    units as f64 * 360.0 / 1024.0
}

#[test]
fn test_pilot_position() {
    match Parser::parse("@S:N513PW:4717:1:41.93848:-72.69294:174:0:4282386784:61").unwrap() {
        PacketTypes::PilotPosition(pos) => {
            assert_eq!(pos.callsign, "N513PW");
            assert_eq!(pos.ground_speed, 0);
            assert_eq!(pos.squawking, SquawkType::Standby);
            assert_eq!(pos.squawk_code, 4717);
            assert_eq!(pos.rating, NetworkRating::OBS);
            assert_eq!(pos.lat.parse::<f32>().unwrap(), 41.93848);
            assert_eq!(pos.lon.parse::<f32>().unwrap(), -72.69294);
            assert_eq!(degrees(pos.pbh.pitch).round(), 1.0);
            assert_eq!(degrees(pos.pbh.bank).round(), 0.0);
            assert_eq!(degrees(pos.pbh.hdg).round(), 211.0);
            assert_eq!(pos.true_alt, 174);
            assert_eq!(pos.pressure_alt, 235);
        }
        _ => panic!("Not the right packet type!"),
    }
}

#[test]
fn test_flight_plan() {
    match Parser::parse("$FPSWA1895:*A:I:B738/L:461:KBNA:1835:1835:35000:KRDU:1:14:3:4:KIAD:GFOSTER85PBN/A1B1C1D1S1S2NAV/RNVD1E2A1REG/N8310CEET/KZTL0012KZDC0044SEL/GPCSRMK/SIMBRIEFAIRAC/2009CHARTSONBOARD:TAZMO3BURMEVXVKPASSALDAN2").unwrap() {
        PacketTypes::FlightPlan(plan) => {
            assert_eq!(plan.callsign, "SWA1895");
            assert_eq!(plan.rule, FlightRules::IFR);
            assert_eq!(plan.equipment, "B738/L");
            assert_eq!(plan.tas, "461");
            assert_eq!(plan.origin, "KBNA");
            assert_eq!(plan.dep_time, "1835");
            assert_eq!(plan.actual_dep_time, "1835");
            assert_eq!(plan.cruise_alt, "35000");
            assert_eq!(plan.dest, "KRDU");
            assert_eq!(plan.hours_enroute, "1");
            assert_eq!(plan.minutes_enroute, "14");
            assert_eq!(plan.fuel_avail_hours, "3");
            assert_eq!(plan.fuel_avail_minutes, "4");
            assert_eq!(plan.alternate, "KIAD");
            assert_eq!(plan.remarks, "GFOSTER85PBN/A1B1C1D1S1S2NAV/RNVD1E2A1REG/N8310CEET/KZTL0012KZDC0044SEL/GPCSRMK/SIMBRIEFAIRAC/2009CHARTSONBOARD");
            assert_eq!(plan.route, "TAZMO3BURMEVXVKPASSALDAN2");
            assert_eq!(plan.amended_by, None);
        }
        _ => panic!("Not the right packet type!"),
    }
}

#[test]
fn test_metar() {
    match Parser::parse("$AXBOS_GND:SERVER:METAR:KBOS").unwrap() {
        PacketTypes::Metar(metar) => {
            assert_eq!(metar.from, "BOS_GND");
            assert_eq!(metar.to, "SERVER");
            assert_eq!(metar.is_response, false);
            assert_eq!(metar.payload, "KBOS");
        }
        _ => panic!("Not the right packet type!"),
    }

    match Parser::parse("$ARSERVER:BOS_GND:METAR:KBOS 180154Z 02011KT 10SM SCT060 OVC250 18/13 A3000 RMK AO2 SLP159 T01780128").unwrap() {
        PacketTypes::Metar(metar) => {
            assert_eq!(metar.to, "BOS_GND");
            assert_eq!(metar.from, "SERVER");
            assert_eq!(metar.is_response, true);
            assert_eq!(metar.payload, "KBOS 180154Z 02011KT 10SM SCT060 OVC250 18/13 A3000 RMK AO2 SLP159 T01780128");
        }
        _ => panic!("Not the right packet type!"),
    }
}

#[test]
fn surrounding_whitespace_and_trailing_nul_are_dropped() {
    match Parser::parse("  $AXBOS_GND:SERVER:METAR:KBOS\0\r\n").unwrap() {
        PacketTypes::Metar(metar) => assert_eq!(metar.payload, "KBOS"),
        _ => panic!("Not the right packet type!"),
    }
    match Parser::parse("  $AXBOS_GND:SERVER:METAR:KBOS\0").unwrap() {
        PacketTypes::Metar(metar) => assert_eq!(metar.payload, "KBOS"),
        _ => panic!("Not the right packet type!"),
    }
}

#[test]
fn coordinates_take_floating_point_text() {
    match Parser::parse("%X:33000:5:150:5:4.2e1:-INF:0").unwrap() {
        PacketTypes::ATCPosition(pos) => {
            assert_eq!(pos.lat.parse::<f32>().unwrap(), 42.0);
            assert_eq!(pos.lon.parse::<f32>().unwrap(), f32::NEG_INFINITY);
        }
        _ => panic!("Not the right packet type!"),
    }
    match Parser::parse("@N:N1:1200:1:NaN:+1.E-2:100:0:0:0").unwrap() {
        PacketTypes::PilotPosition(pos) => {
            assert!(pos.lat.parse::<f32>().unwrap().is_nan());
            assert_eq!(pos.lon.parse::<f32>().unwrap(), 0.01);
        }
        _ => panic!("Not the right packet type!"),
    }
    assert!(Parser::parse("%X:33000:5:150:5:infinity:.5:0").is_some());
    assert_eq!(Parser::parse_line("%X:33000:5:150:5:1e:0:0"), Err(ParseError::Malformed));
    assert_eq!(Parser::parse_line("%X:33000:5:150:5:.:0:0"), Err(ParseError::Malformed));
    assert_eq!(Parser::parse_line("%X:33000:5:150:5:infin:0:0"), Err(ParseError::Malformed));
}

#[test]
fn lines_that_are_no_command() {
    assert_eq!(Parser::parse_line(""), Err(ParseError::NotAPacket));
    assert_eq!(Parser::parse_line("#TMA"), Err(ParseError::NotAPacket));
    assert_eq!(Parser::parse_line("!AB:CD:EF"), Err(ParseError::NotAPacket));
    assert_eq!(Parser::parse_line("#ZZA:B:C"), Err(ParseError::NotAPacket));
    assert_eq!(Parser::parse_line("é#TM:A:B"), Err(ParseError::NotAPacket));
    assert_eq!(Parser::parse_line("#PCA:B:CCP:XX:T"), Err(ParseError::NotAPacket));
    assert_eq!(Parser::parse_line("#:"), Err(ParseError::NotAPacket));
    assert!(Parser::parse("hello world").is_none());
}

#[test]
fn malformed_fields_of_known_commands() {
    assert_eq!(Parser::parse_line("%X:1"), Err(ParseError::Malformed));
    assert_eq!(Parser::parse_line("%X:33000:5:abc:5:0:0"), Err(ParseError::Malformed));
    assert_eq!(Parser::parse_line("%X:33000:5:70000:5:0:0"), Err(ParseError::Malformed));
    assert_eq!(Parser::parse_line("%X:33000:5:150:5:north:0"), Err(ParseError::Malformed));
    assert_eq!(Parser::parse_line("@S:N1:4717:1:0:0:2147483647:0:0:1"), Err(ParseError::Malformed));
    assert_eq!(Parser::parse_line("#TMA:@5:hi"), Err(ParseError::Malformed));
    assert_eq!(Parser::parse_line("$FPA:B"), Err(ParseError::Malformed));
    assert_eq!(Parser::parse_line("#PCA:B"), Err(ParseError::Malformed));
    assert_eq!(Parser::parse_line("$CQA:B"), Err(ParseError::Malformed));
    assert_eq!(Parser::parse_line("$CRA:B:RN:Name"), Err(ParseError::Malformed));
    assert_eq!(Parser::parse_line("$CQA:B:ACC:{broken:json"), Err(ParseError::Malformed));
}

#[test]
fn registrations_and_deletions() {
    match Parser::parse("#AABOS_TWR:SERVER:John Doe:1234567:secret:5").unwrap() {
        PacketTypes::NetworkClient(c) => {
            assert_eq!(c.client_type, NetworkClientType::ATC);
            assert_eq!(c.callsign, "BOS_TWR");
            assert_eq!(c.real_name, "John Doe");
            assert_eq!(c.cid, "1234567");
            assert_eq!(c.password, "secret");
            assert_eq!(c.rating, NetworkRating::C1);
            assert_eq!(c.protocol_ver, 0);
        }
        _ => panic!("Not the right packet type!"),
    }
    match Parser::parse("#APDAL512:SERVER:3210:pw:1:100:2:Jane Roe").unwrap() {
        PacketTypes::NetworkClient(c) => {
            assert_eq!(c.client_type, NetworkClientType::Pilot);
            assert_eq!(c.cid, "3210");
            assert_eq!(c.password, "pw");
            assert_eq!(c.rating, NetworkRating::OBS);
            assert_eq!(c.protocol_ver, 100);
            assert_eq!(c.real_name, "Jane Roe");
        }
        _ => panic!("Not the right packet type!"),
    }
    match Parser::parse("#DPDAL512:3210").unwrap() {
        PacketTypes::DeleteClient(d) => {
            assert_eq!(d.client_type, NetworkClientType::Pilot);
            assert_eq!(d.callsign, "DAL512");
            assert_eq!(d.cid, "3210");
        }
        _ => panic!("Not the right packet type!"),
    }
    match Parser::parse("#DABOS_TWR:1234567").unwrap() {
        PacketTypes::DeleteClient(d) => assert_eq!(d.client_type, NetworkClientType::ATC),
        _ => panic!("Not the right packet type!"),
    }
}

#[test]
fn amended_plan_names_its_amender() {
    match Parser::parse("$AMA:B:V:C172:100:KBOS:1200:1200:5500:KPVD:0:45:2:0:KBDL:rmk:route:BOS_CTR").unwrap() {
        PacketTypes::FlightPlan(plan) => {
            assert_eq!(plan.callsign, "A");
            assert_eq!(plan.rule, FlightRules::VFR);
            assert_eq!(plan.amended_by, Some("BOS_CTR".to_string()));
        }
        _ => panic!("Not the right packet type!"),
    }
}

#[test]
fn handoffs_and_pc_subcommands() {
    match Parser::parse("$HOBOS_APP:BOS_CTR:N513PW").unwrap() {
        PacketTypes::TransferControl(t) => {
            assert_eq!(t.transfer_type, TransferControlType::Received);
            assert_eq!(t.target, "N513PW");
        }
        _ => panic!("Not the right packet type!"),
    }
    match Parser::parse("$HABOS_CTR:BOS_APP:N513PW").unwrap() {
        PacketTypes::TransferControl(t) => assert_eq!(t.transfer_type, TransferControlType::Accepted),
        _ => panic!("Not the right packet type!"),
    }
    match Parser::parse("#PCBOS_APP:BOS_CTR:CCP:PT:N513PW").unwrap() {
        PacketTypes::TransferControl(t) => {
            assert_eq!(t.transfer_type, TransferControlType::Pointout);
            assert_eq!(t.from, "BOS_APP");
            assert_eq!(t.to, "BOS_CTR");
            assert_eq!(t.target, "N513PW");
        }
        _ => panic!("Not the right packet type!"),
    }
    match Parser::parse("#PCBOS_APP:BOS_CTR:CCP:SC:N513PW:HI").unwrap() {
        PacketTypes::SharedState(s) => {
            assert_eq!(s.shared_type, SharedStateType::Scratchpad);
            assert_eq!(s.target, "N513PW");
            assert_eq!(s.value, "HI");
        }
        _ => panic!("Not the right packet type!"),
    }
    match Parser::parse("#PCBOS_APP:BOS_CTR:CCP:ST:N513PW:1:a:b").unwrap() {
        PacketTypes::FlightStrip(s) => {
            assert_eq!(s.target, "N513PW");
            assert_eq!(s.format_id, "1");
            assert_eq!(s.annotations, vec!["a".to_string(), "b".to_string()]);
        }
        _ => panic!("Not the right packet type!"),
    }
    match Parser::parse("#PCBOS_APP:BOS_CTR:CCP:ST:N513PW").unwrap() {
        PacketTypes::FlightStrip(s) => {
            assert_eq!(s.format_id, "");
            assert!(s.annotations.is_empty());
        }
        _ => panic!("Not the right packet type!"),
    }
}

#[test]
fn client_queries() {
    match Parser::parse("$CQBOS_APP:SERVER:ATC:BOS_CTR").unwrap() {
        PacketTypes::ClientQuery(q) => {
            assert!(!q.is_response);
            assert_eq!(q.query_type, ClientQueryType::IsValidATC);
            assert_eq!(q.payload, ClientQueryPayload::IsValidATCQuery(Some("BOS_CTR".to_string())));
        }
        _ => panic!("Not the right packet type!"),
    }
    match Parser::parse("$CRSERVER:BOS_APP:ATC:Y").unwrap() {
        PacketTypes::ClientQuery(q) => {
            assert!(q.is_response);
            assert_eq!(q.payload, ClientQueryPayload::IsValidATCResponse(true, None));
        }
        _ => panic!("Not the right packet type!"),
    }
    match Parser::parse("$CQBOS_APP:SERVER:ATC").unwrap() {
        PacketTypes::ClientQuery(q) => assert_eq!(q.payload, ClientQueryPayload::IsValidATCQuery(None)),
        _ => panic!("Not the right packet type!"),
    }
    match Parser::parse("$CQBOS_APP:@94835:BC:N513PW:4717").unwrap() {
        PacketTypes::ClientQuery(q) => {
            assert_eq!(q.query_type, ClientQueryType::SetBeaconCode);
            assert_eq!(q.payload, ClientQueryPayload::SetBeaconCode("N513PW".to_string(), "4717".to_string()));
        }
        _ => panic!("Not the right packet type!"),
    }
    match Parser::parse("$CQBOS_APP:@94835:WH:N513PW").unwrap() {
        PacketTypes::ClientQuery(q) => assert_eq!(q.payload, ClientQueryPayload::WhoHas("N513PW".to_string())),
        _ => panic!("Not the right packet type!"),
    }
    match Parser::parse("$CQBOS_APP:N513PW:CAPS").unwrap() {
        PacketTypes::ClientQuery(q) => {
            assert_eq!(q.query_type, ClientQueryType::Capabilities);
            assert_eq!(q.payload, ClientQueryPayload::Unknown(vec![]));
        }
        _ => panic!("Not the right packet type!"),
    }
    match Parser::parse("$CQBOS_APP:N513PW:XYZ:a:b").unwrap() {
        PacketTypes::ClientQuery(q) => {
            assert_eq!(q.query_type, ClientQueryType::Unknown);
            assert_eq!(q.payload, ClientQueryPayload::Unknown(vec!["a".to_string(), "b".to_string()]));
        }
        _ => panic!("Not the right packet type!"),
    }
}

#[test]
fn aircraft_configuration_query_carries_json() {
    match Parser::parse("$CQN513PW:@94836:ACC:{\"config\":{\"gear_down\":true}}").unwrap() {
        PacketTypes::ClientQuery(q) => {
            assert_eq!(q.query_type, ClientQueryType::AircraftConfiguration);
            match q.payload {
                ClientQueryPayload::AircraftConfiguration(j) => {
                    let inner = j.get("config").unwrap();
                    assert_eq!(inner.get("gear_down").unwrap().as_bool(), Some(true));
                }
                _ => panic!("Not the right payload!"),
            }
        }
        _ => panic!("Not the right packet type!"),
    }
}
