use fsdparser::{NetworkFacility, PacketSource, PacketTypes, Sniffer, TextMessageReceiver};

#[test]
fn frames_from_a_server_are_tagged_server() {
    let mut s = Sniffer::new();
    s.add_server_ip("1.2.3.4".to_string());
    assert!(s.is_server_ip("1.2.3.4"));
    s.accept_frame("1.2.3.4", "9.9.9.9", b"#TMA:*:\n%X:33000:5:150:5:0:0:0");
    match s.pop_event() {
        Some(PacketSource::Server(PacketTypes::TextMessage(m))) => {
            assert_eq!(m.receiver, TextMessageReceiver::Broadcast)
        }
        _ => panic!("expected a server text message"),
    }
    match s.pop_event() {
        Some(PacketSource::Server(PacketTypes::ATCPosition(p))) => {
            assert_eq!(p.callsign, "X");
            assert_eq!(p.facility, NetworkFacility::APP);
        }
        _ => panic!("expected a server controller position"),
    }
    assert!(s.pop_event().is_none());
}

#[test]
fn frames_to_a_server_are_tagged_client() {
    let mut s = Sniffer::new();
    s.add_server_ip("1.2.3.4".to_string());
    s.accept_frame("9.9.9.9", "1.2.3.4", b"garbage\r\n$AXBOS_GND:SERVER:METAR:KBOS\r\n");
    assert!(s.has_pending());
    match s.pop_event() {
        Some(PacketSource::Client(PacketTypes::Metar(m))) => assert_eq!(m.payload, "KBOS"),
        _ => panic!("expected a client metar request"),
    }
    assert!(!s.has_pending());
}

#[test]
fn frames_off_the_session_yield_nothing() {
    let mut s = Sniffer::new();
    s.add_server_ip("1.2.3.4".to_string());
    s.accept_frame("5.6.7.8", "9.9.9.9", b"#TMA:*:\n%X:33000:5:150:5:0:0:0");
    assert!(!s.has_pending());
    assert!(s.pop_event().is_none());
    let mut empty = Sniffer::new();
    empty.accept_frame("1.2.3.4", "9.9.9.9", b"#TMA:*:");
    assert!(empty.pop_event().is_none());
}
