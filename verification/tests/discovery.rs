use airplay::base::device::{Device, DeviceId, Version};
use airplay::base::features::Features;
use airplay::base::net::{select_best_address, IpAddress};
use airplay::discovery::browser::{
    airplay_txt_safe, extract_device_id_from_removal, parse_service_event, raop_txt_safe, removal_safe,
    service_name, DeviceRegistry,
};
use airplay::discovery::parser::TxtRecordParser;

fn pairs(items: &[(&str, &str)]) -> Vec<(String, String)> {
    items.iter().map(|(k, v)| (k.to_string(), v.to_string())).collect()
}

fn airplay_txt() -> Vec<(String, String)> {
    pairs(&[
        ("deviceid", "AA:BB:CC:DD:EE:FF"),
        ("features", "0x4A7FDFD5,0x3C155FDE"),
        ("model", "AudioAccessory5,1"),
        ("srcvers", "770.8.1"),
        ("flags", "0x4"),
        ("pw", "false"),
        ("manufacturer", "Apple Inc."),
    ])
}

fn living_room() -> Device {
    TxtRecordParser::parse_airplay_txt("Living Room", &airplay_txt(), vec![IpAddress::V4(0xC0A8_0102)], 7000).unwrap()
}

#[test]
fn airplay_record_reads_into_device() {
    let d = living_room();
    assert_eq!(d.id.0, [0xAA, 0xBB, 0xCC, 0xDD, 0xEE, 0xFF]);
    assert_eq!(d.name, "Living Room");
    assert_eq!(d.model, "AudioAccessory5,1");
    assert_eq!(d.features.0, (0x3C155FDEu64 << 32) | 0x4A7FDFD5);
    assert_eq!(d.source_version.major, 770);
    assert_eq!(d.source_version.minor, 8);
    assert_eq!(d.source_version.patch, 1);
    assert_eq!(d.status_flags, 4);
    assert!(!d.requires_password);
    assert_eq!(d.manufacturer.as_deref(), Some("Apple Inc."));
    assert!(d.supports_airplay2());
    assert_eq!(d.raop_port, None);
}

#[test]
fn airplay_record_without_device_id_is_refused() {
    let txt = pairs(&[("model", "X")]);
    assert!(TxtRecordParser::parse_airplay_txt("X", &txt, vec![], 7000).is_err());
}

#[test]
fn raop_record_reads_mac_and_name() {
    let txt = pairs(&[("am", "AirPort10,115"), ("vs", "366.0"), ("et", "0,3,5"), ("cn", "0,1"), ("tp", "UDP")]);
    let d = TxtRecordParser::parse_raop_txt("A1B2C3D4E5F6@Kitchen", &txt, vec![IpAddress::V4(0x0A00_0005)], 5000).unwrap();
    assert_eq!(d.id.0, [0xA1, 0xB2, 0xC3, 0xD4, 0xE5, 0xF6]);
    assert_eq!(d.name, "Kitchen");
    assert_eq!(d.model, "AirPort10,115");
    assert_eq!(d.raop_port, Some(5000));
    assert_eq!(d.raop_encryption_types, Some(vec![0, 3, 5]));
    assert_eq!(d.raop_codecs, Some(vec![0, 1]));
    assert_eq!(d.raop_transport.as_deref(), Some("UDP"));
    assert!(TxtRecordParser::parse_raop_txt("no-at-sign", &txt, vec![], 5000).is_err());
}

#[test]
fn merge_prefers_airplay_and_unites_addresses() {
    let a = living_room();
    let txt = pairs(&[("am", "Other"), ("vs", "366.0")]);
    let r = TxtRecordParser::parse_raop_txt(
        "AABBCCDDEEFF@Living Room",
        &txt,
        vec![IpAddress::V4(0xC0A8_0102), IpAddress::V6(0xfe80 << 112)],
        5000,
    )
    .unwrap();
    let m = TxtRecordParser::merge_device_info(&a, &r);
    assert_eq!(m.model, "AudioAccessory5,1");
    assert_eq!(m.addresses, vec![IpAddress::V4(0xC0A8_0102), IpAddress::V6(0xfe80 << 112)]);
    assert_eq!(m.raop_port, Some(5000));
    assert_eq!(m.port, 7000);
}

#[test]
fn public_key_must_be_64_hex_digits() {
    let hex = "00112233445566778899aabbccddeeff00112233445566778899aabbccddeeff";
    let k = TxtRecordParser::parse_public_key(hex).unwrap();
    assert_eq!(k[1], 0x11);
    assert!(TxtRecordParser::parse_public_key("abcd").is_err());
    assert!(TxtRecordParser::parse_public_key(&"zz".repeat(32)).is_err());
}

#[test]
fn legacy_features_read_hex_or_decimal() {
    assert_eq!(TxtRecordParser::parse_legacy_features("0x44").unwrap().0, 0x44);
    assert_eq!(TxtRecordParser::parse_legacy_features("17").unwrap().0, 17);
    assert!(TxtRecordParser::parse_legacy_features("nope").is_err());
}

#[test]
fn service_names_and_removals() {
    assert_eq!(service_name("Kitchen._airplay._tcp.local."), "Kitchen");
    assert_eq!(service_name("plain"), "plain");
    let full = "A1B2C3D4E5F6@Kitchen._raop._tcp.local.";
    assert!(removal_safe(full));
    let id = extract_device_id_from_removal(full, true).unwrap();
    assert_eq!(id.0, [0xA1, 0xB2, 0xC3, 0xD4, 0xE5, 0xF6]);
    assert!(extract_device_id_from_removal(full, false).is_none());
    assert!(extract_device_id_from_removal("bad@x._raop._tcp.local.", true).is_none());
}

#[test]
fn service_event_needs_addresses() {
    let txt = airplay_txt();
    assert!(airplay_txt_safe(&txt));
    assert!(parse_service_event("Den._airplay._tcp.local.", 7000, vec![], &txt, false).is_none());
    let d = parse_service_event("Den._airplay._tcp.local.", 7000, vec![IpAddress::V4(1)], &txt, false).unwrap();
    assert_eq!(d.name, "Den");
    let raop = pairs(&[("vs", "1.0")]);
    assert!(raop_txt_safe("A1B2C3D4E5F6@Den", &raop));
}

#[test]
fn registry_adds_updates_and_removes() {
    let mut reg = DeviceRegistry::new();
    let ev = reg.resolved(living_room(), false);
    assert!(ev.is_added());
    let raop_txt = pairs(&[("am", "Other"), ("tp", "UDP")]);
    let raop = TxtRecordParser::parse_raop_txt("AABBCCDDEEFF@Living Room", &raop_txt, vec![IpAddress::V4(7)], 5000).unwrap();
    let ev = reg.resolved(raop, true);
    assert!(ev.is_updated());
    let merged = ev.device().unwrap();
    assert_eq!(merged.raop_transport.as_deref(), Some("UDP"));
    assert_eq!(merged.model, "AudioAccessory5,1");
    assert_eq!(reg.get_all_devices().len(), 1);
    let id = DeviceId::from_bytes([0xAA, 0xBB, 0xCC, 0xDD, 0xEE, 0xFF]);
    assert_eq!(reg.get_device(&id).unwrap().addresses.len(), 2);
    let gone = reg.removed(id.clone()).unwrap();
    assert!(gone.is_removed());
    assert_eq!(gone.device_id().0, [0xAA, 0xBB, 0xCC, 0xDD, 0xEE, 0xFF]);
    assert!(reg.get_device(&id).is_none());
    assert!(reg.removed(id.clone()).is_none());
}

#[test]
fn mac_and_version_and_features_text() {
    let id = DeviceId::from_mac_string("aa-bb-cc-dd-ee-ff").unwrap();
    assert_eq!(id.to_mac_string(), "AA:BB:CC:DD:EE:FF");
    assert!(DeviceId::from_mac_string("AA:BB").is_err());
    let v = Version::parse("366.0").unwrap();
    assert_eq!(v.to_version_string(), "366.0.0");
    assert!(v.at_least(&Version::new(366, 0, 0)));
    assert!(!v.at_least(&Version::new(366, 0, 1)));
    assert!(Version::parse("x.1").is_err());
    let f = Features::from_txt_value("0x5A7FFFF7,0x1E").unwrap();
    assert_eq!(f.0, (0x1Eu64 << 32) | 0x5A7FFFF7);
    assert_eq!(f.to_txt_value(), "0x5A7FFFF7,0x1E");
    assert!(f.supports_audio());
}

#[test]
fn best_address_prefers_ipv4_then_global_ipv6() {
    let v6_link = IpAddress::V6(0xfe80 << 112 | 1);
    let v6_global = IpAddress::V6(0x2001 << 112 | 1);
    assert_eq!(select_best_address(&[v6_link, IpAddress::V4(5), v6_global]), Some(1));
    assert_eq!(select_best_address(&[v6_link, v6_global]), Some(1));
    assert_eq!(select_best_address(&[v6_link]), Some(0));
    assert_eq!(select_best_address(&[]), None);
}
