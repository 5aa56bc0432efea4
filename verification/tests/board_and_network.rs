use charly::board::{tray_action, ConnData, TrayAction};
use charly::ids::new_image_file_name;
use charly::watcher::new_text_capture;
use charly::json::JsonValue;
use charly::network::{bind_address, health_url, status_peer_addresses, tailscale_peers_of_status, PeerInfo};
use charly::pairing::{new_pairing_code, pairing_code_accepted, pairing_code_text};
use charly::relay::{relay_step, RelayAction, RelayEvent};

#[test]
fn tray_entries() {
    assert_eq!(tray_action("show"), TrayAction::ShowWindow);
    assert_eq!(tray_action("quit"), TrayAction::Quit);
    assert_eq!(tray_action("Show"), TrayAction::Nothing);
    assert_eq!(tray_action(""), TrayAction::Nothing);
}

#[test]
fn connection_record_holds_its_fields() {
    let c = ConnData {
        id: "c1".to_string(),
        from_note_id: "a".to_string(),
        to_note_id: "b".to_string(),
        color: "#FF6B6B".to_string(),
    };
    let d = c.clone();
    assert_eq!(d.from_note_id, "a");
    assert_eq!(d.to_note_id, "b");
    assert_eq!(d.color, "#FF6B6B");
}

#[test]
fn server_addresses() {
    assert_eq!(bind_address(8080), "0.0.0.0:8080");
    assert_eq!(bind_address(0), "0.0.0.0:0");
    assert_eq!(health_url("100.64.0.1", 3000), "http://100.64.0.1:3000/api/health");
    assert_eq!(health_url("fd7a::1", 65535), "http://fd7a::1:65535/api/health");
    let p = PeerInfo { ip: "100.64.0.2".to_string(), port: 7777 };
    assert_eq!(health_url(&p.ip, p.port), "http://100.64.0.2:7777/api/health");
}

fn text(t: &str) -> JsonValue {
    JsonValue::Text(t.to_string())
}

fn object(members: Vec<(&str, JsonValue)>) -> JsonValue {
    JsonValue::Object(members.into_iter().map(|(k, v)| (k.to_string(), v)).collect())
}

#[test]
fn peer_addresses_keep_string_items_in_order() {
    let status = object(vec![
        ("Self", object(vec![("TailscaleIPs", JsonValue::Array(vec![text("100.9.9.9")]))])),
        ("Peer", object(vec![
            ("p1", object(vec![("TailscaleIPs", JsonValue::Array(vec![
                text("100.1.1.1"),
                JsonValue::Null,
                JsonValue::Number("5".to_string()),
                text("fd7a::1"),
            ]))])),
            ("p2", object(vec![("TailscaleIPs", text("100.3.3.3"))])),
            ("p3", JsonValue::Array(vec![text("100.4.4.4")])),
            ("p4", object(vec![("TailscaleIPs", JsonValue::Array(vec![]))])),
            ("p5", object(vec![("HostName", text("x")), ("TailscaleIPs", JsonValue::Array(vec![text("100.2.2.2")]))])),
        ])),
    ]);
    assert_eq!(status_peer_addresses(&status), vec!["100.1.1.1", "fd7a::1", "100.2.2.2"]);
    assert!(status_peer_addresses(&object(vec![("Peer", JsonValue::Array(vec![]))])).is_empty());
    assert!(status_peer_addresses(&JsonValue::Array(vec![object(vec![("Peer", object(vec![]))])])).is_empty());
    assert!(status_peer_addresses(&JsonValue::Null).is_empty());
}

#[test]
fn pairing_code_is_zero_padded() {
    assert_eq!(pairing_code_text(42), "000042");
    assert_eq!(pairing_code_text(0), "000000");
    assert_eq!(pairing_code_text(999_999), "999999");
}

#[test]
fn new_pairing_codes_are_six_digits() {
    for _ in 0..50 {
        let code = new_pairing_code().expect("random source");
        assert_eq!(code.len(), 6);
        assert!(code.chars().all(|c| c.is_ascii_digit()));
        let n: u32 = code.parse().unwrap();
        assert!(n < 1_000_000);
    }
}

#[test]
fn only_the_current_code_joins() {
    assert!(pairing_code_accepted(Some("123456"), "123456"));
    assert!(!pairing_code_accepted(Some("123457"), "123456"));
    assert!(!pairing_code_accepted(None, "123456"));
    assert!(!pairing_code_accepted(Some(""), "123456"));
    assert!(pairing_code_accepted(None, ""));
}

#[test]
fn relay_decisions() {
    assert!(matches!(relay_step(RelayEvent::Broadcast(Some("hi".to_string()))), RelayAction::Deliver(t) if t == "hi"));
    assert!(matches!(relay_step(RelayEvent::Broadcast(None)), RelayAction::Wait));
    assert!(matches!(relay_step(RelayEvent::Delivered(true)), RelayAction::Wait));
    assert!(matches!(relay_step(RelayEvent::Delivered(false)), RelayAction::Stop));
    assert!(matches!(relay_step(RelayEvent::ClientText("x".to_string())), RelayAction::Publish(t) if t == "x"));
    assert!(matches!(relay_step(RelayEvent::ClientClosed), RelayAction::Stop));
    assert!(matches!(relay_step(RelayEvent::ClientOther), RelayAction::Stop));
}

fn assert_uuid_v4(s: &str) {
    assert_eq!(s.len(), 36);
    let parsed = uuid::Uuid::parse_str(s).expect("a UUID");
    assert_eq!(parsed.get_version_num(), 4);
    assert_eq!(parsed.to_string(), s);
    for (i, c) in s.chars().enumerate() {
        if [8, 13, 18, 23].contains(&i) {
            assert_eq!(c, '-');
        } else {
            assert!(c.is_ascii_hexdigit() && !c.is_ascii_uppercase());
        }
    }
}

#[test]
fn uuids_are_version_four_lower_case() {
    let a = new_text_capture("a".to_string()).expect("clock after the epoch").note.id;
    let b = new_text_capture("b".to_string()).expect("clock after the epoch").note.id;
    assert_uuid_v4(&a);
    assert_uuid_v4(&b);
    assert_ne!(a, b);
}

#[test]
fn image_file_names_are_uuid_png() {
    let name = new_image_file_name().expect("random source");
    assert_eq!(name.len(), 40);
    assert!(name.ends_with(".png"));
    assert_uuid_v4(&name[..36]);
}

#[test]
fn status_output_gives_peer_addresses_in_key_order() {
    let out = br#"{"Self": {"TailscaleIPs": ["100.9.9.9"]},
        "Peer": {"b": {"TailscaleIPs": ["100.1.1.1", 5, "fd7a::1"]},
                 "a": {"TailscaleIPs": "100.3.3.3"},
                 "c": {},
                 "d": {"TailscaleIPs": ["100.2.2.2"]}}}"#;
    assert_eq!(tailscale_peers_of_status(out), vec!["100.1.1.1", "fd7a::1", "100.2.2.2"]);
}

#[test]
fn status_output_without_peers_or_not_json_gives_nothing() {
    assert!(tailscale_peers_of_status(br#"{"Peer": []}"#).is_empty());
    assert!(tailscale_peers_of_status(br#"{}"#).is_empty());
    assert!(tailscale_peers_of_status(b"not json").is_empty());
    assert!(tailscale_peers_of_status(b"").is_empty());
}

#[test]
fn member_lookup_finds_the_named_member_of_an_object() {
    let v = object(vec![("a", JsonValue::Bool(true)), ("b", text("x"))]);
    assert!(matches!(charly::json::get_member(&v, "b"), Some(JsonValue::Text(t)) if t == "x"));
    assert!(charly::json::get_member(&v, "c").is_none());
    assert!(charly::json::get_member(&JsonValue::Array(vec![v]), "a").is_none());
}
