use osc_keys::config::{Config, EventKeyMapping, ServerConfig, DEFAULT_PORT};
use osc_keys::dispatch::{handle_packet, on_datagram, Step};
use osc_keys::keys::{resolve_key, to_fkey, Key, KeyError};
use osc_keys::packet::{decode_packet, Arg, Message, Packet};
use osc_keys::table::{build_event_key_map, EventCache, EventKeyMap};

fn mapping(event: &str, key: &str, value: Option<&str>) -> EventKeyMapping {
    EventKeyMapping {
        event: event.to_string(),
        key: key.to_string(),
        value: value.map(|v| v.to_string()),
    }
}

fn message(addr: &str, args: Vec<Arg>) -> Packet {
    Packet::Message(Message { addr: addr.to_string(), args })
}

fn text(s: &str) -> Arg {
    Arg::Str(s.to_string())
}

fn trigger_table() -> EventKeyMap {
    build_event_key_map(&vec![mapping("/trigger", "F1", Some("go"))]).unwrap()
}

fn encode(addr: &str, args: Vec<rosc::OscType>) -> Vec<u8> {
    let packet = rosc::OscPacket::Message(rosc::OscMessage { addr: addr.to_string(), args });
    rosc::encoder::encode(&packet).unwrap()
}

#[test]
fn test_to_fkey() {
    assert_eq!(to_fkey("F1"), Some(Key::Function(1)));
    assert_eq!(to_fkey("F2"), Some(Key::Function(2)));
    assert_eq!(to_fkey("F25"), None);
}

#[test]
fn every_function_key_name_resolves() {
    for n in 1u8..=24 {
        let name = format!("F{}", n);
        assert_eq!(to_fkey(&name), Some(Key::Function(n)));
        assert_eq!(resolve_key(&name), Ok(Key::Function(n)));
    }
}

#[test]
fn near_function_key_names_are_not_function_keys() {
    assert_eq!(to_fkey("F0"), None);
    assert_eq!(to_fkey("F25"), None);
    assert_eq!(to_fkey("f1"), None);
    assert_eq!(to_fkey("F01"), None);
    assert_eq!(to_fkey("F"), None);
    assert_eq!(to_fkey("F100"), None);
    assert_eq!(to_fkey(""), None);
}

#[test]
fn single_characters_resolve_to_their_key() {
    for c in ['a', 'Z', '1', ' ', 'F', '/'] {
        assert_eq!(resolve_key(&c.to_string()), Ok(Key::Char(c)));
    }
}

#[test]
fn other_names_resolve_by_first_character() {
    assert_eq!(resolve_key("Shift"), Ok(Key::Char('S')));
    assert_eq!(resolve_key("f1"), Ok(Key::Char('f')));
    assert_eq!(resolve_key("F25"), Ok(Key::Char('F')));
}

#[test]
fn empty_name_is_unresolved() {
    assert_eq!(resolve_key(""), Err(KeyError::UnresolvedKey(String::new())));
}

#[test]
fn later_mapping_overwrites_earlier() {
    let table = build_event_key_map(&vec![mapping("/a", "F1", None), mapping("/a", "F2", None)]).unwrap();
    let cache = table.get(&"/a".to_string()).unwrap();
    assert_eq!(cache.key, Key::Function(2));
    assert_eq!(cache.value, None);
}

#[test]
fn build_keeps_guard_values() {
    let table = build_event_key_map(&vec![mapping("/x", "q", Some("on")), mapping("/y", "F3", None)]).unwrap();
    let x = table.get(&"/x".to_string()).unwrap();
    assert_eq!(x.key, Key::Char('q'));
    assert_eq!(x.value, Some("on".to_string()));
    assert_eq!(table.get(&"/y".to_string()).unwrap().key, Key::Function(3));
    assert!(table.get(&"/z".to_string()).is_none());
}

#[test]
fn unresolved_key_aborts_build() {
    let r = build_event_key_map(&vec![mapping("/a", "F1", None), mapping("/b", "", None)]);
    assert_eq!(r.unwrap_err(), KeyError::UnresolvedKey(String::new()));
}

#[test]
fn guard_passes_only_one_matching_string() {
    let table = trigger_table();
    assert_eq!(handle_packet(&message("/trigger", vec![text("go")]), &table), Some(Key::Function(1)));
    assert_eq!(handle_packet(&message("/trigger", vec![text("stop")]), &table), None);
    assert_eq!(handle_packet(&message("/trigger", vec![text("go"), text("go")]), &table), None);
    assert_eq!(handle_packet(&message("/trigger", vec![]), &table), None);
    assert_eq!(handle_packet(&message("/trigger", vec![Arg::Other]), &table), None);
}

#[test]
fn unguarded_mapping_ignores_arguments() {
    let table = build_event_key_map(&vec![mapping("/a", "k", None)]).unwrap();
    assert_eq!(handle_packet(&message("/a", vec![]), &table), Some(Key::Char('k')));
    assert_eq!(handle_packet(&message("/a", vec![Arg::Other, text("x")]), &table), Some(Key::Char('k')));
}

#[test]
fn unknown_address_is_ignored() {
    let table = trigger_table();
    assert_eq!(handle_packet(&message("/other", vec![text("go")]), &table), None);
    assert_eq!(handle_packet(&message("/other", vec![]), &EventKeyMap::new()), None);
}

#[test]
fn bundle_is_ignored() {
    let table = build_event_key_map(&vec![mapping("/a", "F1", None)]).unwrap();
    assert_eq!(handle_packet(&Packet::Bundle, &table), None);
}

#[test]
fn same_message_taps_each_time() {
    let table = trigger_table();
    let p = message("/trigger", vec![text("go")]);
    assert_eq!(handle_packet(&p, &table), Some(Key::Function(1)));
    assert_eq!(handle_packet(&p, &table), Some(Key::Function(1)));
    let d = encode("/trigger", vec![rosc::OscType::String("go".to_string())]);
    assert!(matches!(on_datagram(&table, &d), Step::Tap(Key::Function(1))));
    assert!(matches!(on_datagram(&table, &d), Step::Tap(Key::Function(1))));
}

#[test]
fn default_config_gives_empty_table_and_default_port() {
    let config = Config::default_config();
    assert_eq!(config.port(), 9001);
    assert_eq!(DEFAULT_PORT, 9001);
    let table = build_event_key_map(&config.mappings).unwrap();
    assert!(table.is_empty());
}

#[test]
fn missing_server_section_gets_default_port() {
    let mut config = Config { server: None, mappings: vec![mapping("/a", "F1", None)] };
    assert_eq!(config.port(), 9001);
    config.fill_defaults();
    assert_eq!(config.server, Some(ServerConfig { port: 9001 }));
    assert_eq!(config.mappings.len(), 1);
    let mut other = Config { server: Some(ServerConfig { port: 1234 }), mappings: vec![] };
    other.fill_defaults();
    assert_eq!(other.port(), 1234);
}

#[test]
fn table_insert_and_get() {
    let mut table = EventKeyMap::new();
    assert!(table.is_empty());
    table.insert("/a".to_string(), EventCache { value: None, key: Key::Char('a') });
    table.insert("/a".to_string(), EventCache { value: None, key: Key::Char('b') });
    assert!(!table.is_empty());
    assert_eq!(table.get(&"/a".to_string()).unwrap().key, Key::Char('b'));
}

#[test]
fn decodes_string_arguments() {
    let d = encode("/fader/1", vec![rosc::OscType::Int(3), rosc::OscType::String("up".to_string())]);
    match decode_packet(&d).unwrap() {
        Packet::Message(m) => {
            assert_eq!(m.addr, "/fader/1");
            assert_eq!(m.args.len(), 2);
            assert!(matches!(m.args[0], Arg::Other));
            assert!(matches!(&m.args[1], Arg::Str(s) if s == "up"));
        }
        Packet::Bundle => panic!("expected a message"),
    }
}

#[test]
fn datagram_steps() {
    let table = trigger_table();
    let stop = encode("/trigger", vec![rosc::OscType::String("stop".to_string())]);
    assert!(matches!(on_datagram(&table, &stop), Step::Ignore));
    let unknown = encode("/nope", vec![]);
    assert!(matches!(on_datagram(&table, &unknown), Step::Ignore));
    let bundle = rosc::encoder::encode(&rosc::OscPacket::Bundle(rosc::OscBundle {
        timetag: rosc::OscTime { seconds: 0, fractional: 1 },
        content: vec![rosc::OscPacket::Message(rosc::OscMessage {
            addr: "/trigger".to_string(),
            args: vec![rosc::OscType::String("go".to_string())],
        })],
    }))
    .unwrap();
    assert!(matches!(on_datagram(&table, &bundle), Step::Ignore));
}

#[test]
fn malformed_datagram_stops() {
    let table = trigger_table();
    assert!(matches!(on_datagram(&table, &[1u8, 2, 3]), Step::Stop(_)));
    assert!(decode_packet(&[]).is_err());
}
