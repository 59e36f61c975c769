//! Reading the TXT records of `_airplay._tcp` and `_raop._tcp` services into devices.
use crate::base::device::{
    hex_pairs_no_panic, lemma_hex_pairs_len, mac_no_panic, opt_str, parse_hex_pairs, spec_hex_pairs, spec_mac, spec_version,
    Device, DeviceId, DeviceV, Version,
};
use crate::base::error::{ParseError, ParseErrorV};
use crate::base::features::{spec_features_from_txt, Features};
use crate::base::net::IpAddress;
use crate::text::{
    dec, find_char, find_char_exec, parse_unsigned, parse_unsigned_chars, push_all, push_radix,
    push_str, split_chars, split_on, starts_with, str_chars, string_from_chars, sub_chars, trim_chars,
    trimmed, utf8_total, utf8_total_exec, views,
};
use vstd::prelude::*;

verus! {

/// TXT records as (key, value) pairs.
pub open spec fn txt_view(txt: Seq<(String, String)>) -> Seq<(Seq<char>, Seq<char>)> {
    txt.map_values(|p: (String, String)| (p.0@, p.1@))
}

/// The value of the first record with key `k`.
pub open spec fn txt_get(t: Seq<(Seq<char>, Seq<char>)>, k: Seq<char>) -> Option<Seq<char>>
    decreases t.len(),
{
    if t.len() == 0 {
        None
    } else if t[0].0 == k {
        Some(t[0].1)
    } else {
        txt_get(t.drop_first(), k)
    }
}

/// A flag value: `"true"` or `"1"`.
pub open spec fn is_true(v: Seq<char>) -> bool {
    v == "true"@ || v == "1"@
}

/// A flag that is set when present and true.
pub open spec fn flag(t: Seq<(Seq<char>, Seq<char>)>, k: Seq<char>) -> bool {
    match txt_get(t, k) {
        Some(v) => is_true(v),
        None => false,
    }
}

/// What `Uuid::parse_str` gives for a string: the 16 bytes of the UUID it reads.
pub uninterp spec fn uuid_parse_str(s: Seq<char>) -> Option<Seq<u8>>;

/// `uuid::Uuid::parse_str(s)`, as bytes. Claims: the result is the named parse of `s`.
#[verifier::external_body]
fn uuid_parse(s: &str) -> (r: Option<[u8; 16]>)
    ensures
        match r {
            Some(b) => uuid_parse_str(s@) == Some(b@),
            None => uuid_parse_str(s@) is None,
        },
{
    match uuid::Uuid::parse_str(s) {
        Ok(u) => Some(u.into_bytes()),
        Err(_) => None,
    }
}

/// The part of a group identifier before its first `+`.
pub open spec fn before_plus(v: Seq<char>) -> Seq<char> {
    match find_char(v, '+') {
        Some(i) => v.take(i as int),
        None => v,
    }
}

/// A group identifier: the UUID before the first `+`.
pub open spec fn spec_uuid_prefix(v: Seq<char>) -> Result<Seq<u8>, ParseErrorV> {
    match uuid_parse_str(before_plus(v)) {
        Some(b) => Ok(b),
        None => Err(ParseErrorV::InvalidValue("invalid UUID: "@ + v)),
    }
}

/// A public key: 64 hexadecimal characters (after trimming) read as 32 bytes.
pub open spec fn spec_public_key(s: Seq<char>) -> Result<Seq<u8>, ParseErrorV> {
    let t = trimmed(s);
    if utf8_total(t) != 64 {
        Err(ParseErrorV::InvalidFormat("public key must be 64 hex characters, got "@ + dec(utf8_total(t))))
    } else {
        spec_hex_pairs(t, 32)
    }
}

/// The inputs on which reading a public key stays on character boundaries.
pub open spec fn pk_no_panic(s: Seq<char>) -> bool {
    utf8_total(trimmed(s)) != 64 || hex_pairs_no_panic(trimmed(s), 32)
}

/// `0x`/`0X` followed by hexadecimal, else decimal; 0 when it does not parse.
pub open spec fn spec_hex_or_decimal(s: Seq<char>) -> u64 {
    let t = trimmed(s);
    if starts_with(t, "0x"@) || starts_with(t, "0X"@) {
        match parse_unsigned(t.skip(2), 16, u64::MAX as nat) {
            Some(v) => v as u64,
            None => 0,
        }
    } else {
        match parse_unsigned(t, 10, u64::MAX as nat) {
            Some(v) => v as u64,
            None => 0,
        }
    }
}

/// Every character is an ASCII digit.
pub open spec fn all_ascii_digits(t: Seq<char>) -> bool {
    forall|i: int| 0 <= i < t.len() ==> '0' <= #[trigger] t[i] && t[i] <= '9'
}

/// Legacy status flags as features: `0x` hexadecimal, all-digit decimal, else bare
/// hexadecimal.
pub open spec fn spec_legacy_features(s: Seq<char>) -> Result<u64, ParseErrorV> {
    let t = trimmed(s);
    if starts_with(t, "0x"@) || starts_with(t, "0X"@) {
        match parse_unsigned(t.skip(2), 16, u64::MAX as nat) {
            Some(v) => Ok(v as u64),
            None => Err(ParseErrorV::InvalidHex(t)),
        }
    } else if all_ascii_digits(t) {
        match parse_unsigned(t, 10, u64::MAX as nat) {
            Some(v) => Ok(v as u64),
            None => Err(ParseErrorV::InvalidValue("invalid decimal: "@ + t)),
        }
    } else {
        match parse_unsigned(t, 16, u64::MAX as nat) {
            Some(v) => Ok(v as u64),
            None => Err(ParseErrorV::InvalidHex(t)),
        }
    }
}

/// The bytes of a comma-separated list, skipping items that are not numbers below 256.
pub open spec fn u8_items(parts: Seq<Seq<char>>) -> Seq<u8>
    decreases parts.len(),
{
    if parts.len() == 0 {
        Seq::empty()
    } else {
        u8_items(parts.drop_last()) + match parse_unsigned(trimmed(parts.last()), 10, 255) {
            Some(v) => seq![v as u8],
            None => Seq::<u8>::empty(),
        }
    }
}

pub open spec fn u8_list(s: Seq<char>) -> Seq<u8> {
    u8_items(split_on(s, ','))
}

/// The value of a key, as an optional string.
pub open spec fn opt_u8_list(o: Option<Seq<char>>) -> Option<Seq<u8>> {
    match o {
        Some(v) => Some(u8_list(v)),
        None => None,
    }
}

/// The fields of an AirPlay record that can fail, read in order: device id, features,
/// source version, public key, required sender features and the three group UUIDs.
pub type AirplayCore = (Seq<u8>, u64, (u32, u32, u32), Option<Seq<u8>>, Option<u64>, Option<Seq<u8>>, Option<Seq<u8>>, Option<Seq<u8>>);

pub open spec fn opt_features_txt(t: Seq<(Seq<char>, Seq<char>)>, k: Seq<char>) -> Result<Option<u64>, ParseErrorV> {
    match txt_get(t, k) {
        Some(f) => match spec_features_from_txt(f) {
            Ok(v) => Ok(Some(v)),
            Err(e) => Err(e),
        },
        None => Ok(None),
    }
}

pub open spec fn airplay_core(t: Seq<(Seq<char>, Seq<char>)>) -> Result<AirplayCore, ParseErrorV> {
    match txt_get(t, "deviceid"@) {
        None => Err(ParseErrorV::MissingField("deviceid"@)),
        Some(did) => match spec_mac(did) {
            Err(e) => Err(e),
            Ok(id) => match opt_features_txt(t, "features"@) {
                Err(e) => Err(e),
                Ok(features) => match (match txt_get(t, "srcvers"@) {
                    Some(v) => spec_version(v),
                    None => Ok((0u32, 0u32, 0u32)),
                }) {
                    Err(e) => Err(e),
                    Ok(sv) => match (match txt_get(t, "pk"@) {
                        Some(pk) => match spec_public_key(pk) {
                            Ok(k) => Ok(Some(k)),
                            Err(e) => Err(e),
                        },
                        None => Ok(None),
                    }) {
                        Err(e) => Err(e),
                        Ok(public_key) => match opt_features_txt(t, "rsf"@) {
                            Err(e) => Err(e),
                            Ok(rsf) => match uuid_field(t, "gid"@) {
                                Err(e) => Err(e),
                                Ok(gid) => match uuid_field(t, "pgid"@) {
                                    Err(e) => Err(e),
                                    Ok(pgid) => match uuid_field(t, "tsid"@) {
                                        Err(e) => Err(e),
                                        Ok(tsid) => Ok(
                                            (
                                                id,
                                                match features {
                                                    Some(f) => f,
                                                    None => 0u64,
                                                },
                                                sv,
                                                public_key,
                                                rsf,
                                                gid,
                                                pgid,
                                                tsid,
                                            ),
                                        ),
                                    },
                                },
                            },
                        },
                    },
                },
            },
        },
    }
}

/// Status flags: `flags`, else `sf`, as hexadecimal or decimal.
pub open spec fn status_flags_of(t: Seq<(Seq<char>, Seq<char>)>) -> u64 {
    match txt_get(t, "flags"@) {
        Some(f) => spec_hex_or_decimal(f),
        None => match txt_get(t, "sf"@) {
            Some(f) => spec_hex_or_decimal(f),
            None => 0,
        },
    }
}

/// The access control level, when it is a number below 256.
pub open spec fn acl_of(t: Seq<(Seq<char>, Seq<char>)>) -> Option<u8> {
    match txt_get(t, "acl"@) {
        Some(v) => match parse_unsigned(v, 10, 255) {
            Some(n) => Some(n as u8),
            None => None,
        },
        None => None,
    }
}

/// The device an AirPlay record describes, once its fallible fields are read.
pub open spec fn airplay_device(name: Seq<char>, t: Seq<(Seq<char>, Seq<char>)>, addresses: Seq<IpAddress>, port: u16, c: AirplayCore) -> DeviceV {
    DeviceV {
        id: c.0,
        name,
        model: match txt_get(t, "model"@) {
            Some(m) => m,
            None => Seq::empty(),
        },
        manufacturer: txt_get(t, "manufacturer"@),
        serial_number: txt_get(t, "serialNumber"@),
        addresses,
        port,
        features: c.1,
        required_sender_features: c.4,
        public_key: c.3,
        source_version: Version { major: c.2.0, minor: c.2.1, patch: c.2.2 },
        firmware_version: txt_get(t, "fv"@),
        os_version: txt_get(t, "osvers"@),
        protocol_version: txt_get(t, "protovers"@),
        requires_password: flag(t, "pw"@),
        status_flags: status_flags_of(t),
        access_control: acl_of(t),
        pairing_identity: txt_get(t, "pi"@),
        system_pairing_identity: txt_get(t, "psi"@),
        bluetooth_address: txt_get(t, "btaddr"@),
        homekit_home_id: txt_get(t, "hkid"@),
        group_id: c.5,
        is_group_leader: flag(t, "igl"@),
        group_public_name: txt_get(t, "gpn"@),
        group_contains_discoverable_leader: flag(t, "gcgl"@),
        home_group_id: txt_get(t, "hgid"@),
        household_id: txt_get(t, "hmid"@),
        parent_group_id: c.6,
        parent_group_contains_discoverable_leader: flag(t, "pgcgl"@),
        tight_sync_id: c.7,
        raop_port: None,
        raop_encryption_types: None,
        raop_codecs: None,
        raop_transport: None,
        raop_metadata_types: None,
        raop_digest_auth: false,
        vodka_version: None,
    }
}

/// The `_airplay._tcp` record parse; the errors come in the order the fields are read.
pub open spec fn airplay_spec(name: Seq<char>, t: Seq<(Seq<char>, Seq<char>)>, addresses: Seq<IpAddress>, port: u16) -> Result<
    DeviceV,
    ParseErrorV,
> {
    match airplay_core(t) {
        Err(e) => Err(e),
        Ok(c) => Ok(airplay_device(name, t, addresses, port, c)),
    }
}

/// An optional UUID field.
pub open spec fn uuid_field(t: Seq<(Seq<char>, Seq<char>)>, k: Seq<char>) -> Result<Option<Seq<u8>>, ParseErrorV> {
    match txt_get(t, k) {
        Some(v) => match spec_uuid_prefix(v) {
            Ok(b) => Ok(Some(b)),
            Err(e) => Err(e),
        },
        None => Ok(None),
    }
}

/// The inputs of an AirPlay record on which parsing stays on character boundaries.
pub open spec fn airplay_no_panic(t: Seq<(Seq<char>, Seq<char>)>) -> bool {
    &&& (txt_get(t, "deviceid"@) matches Some(d) ==> mac_no_panic(d))
    &&& (txt_get(t, "pk"@) matches Some(pk) ==> pk_no_panic(pk))
}

/// The fields of a RAOP record that can fail, read in order: device id, features,
/// source version and public key.
pub type RaopCore = (Seq<u8>, u64, (u32, u32, u32), Option<Seq<u8>>);

/// The first of two keys that is present.
pub open spec fn txt_get_either(t: Seq<(Seq<char>, Seq<char>)>, a: Seq<char>, b: Seq<char>) -> Option<Seq<char>> {
    match txt_get(t, a) {
        Some(v) => Some(v),
        None => txt_get(t, b),
    }
}

/// The `_raop._tcp` service name splits at its first `@` into MAC address and name.
pub open spec fn raop_name_split(name: Seq<char>) -> Option<(Seq<char>, Seq<char>)> {
    match find_char(name, '@') {
        Some(i) => Some((name.take(i as int), name.skip(i + 1int))),
        None => None,
    }
}

pub open spec fn raop_core(name: Seq<char>, t: Seq<(Seq<char>, Seq<char>)>) -> Result<RaopCore, ParseErrorV> {
    match raop_name_split(name) {
        None => Err(ParseErrorV::InvalidFormat("RAOP name must contain '@'"@)),
        Some((mac, _)) => match spec_mac(mac) {
            Err(e) => Err(e),
            Ok(id) => match (match txt_get(t, "ft"@) {
                Some(ft) => spec_features_from_txt(ft),
                None => match txt_get(t, "sf"@) {
                    Some(sf) => spec_legacy_features(sf),
                    None => Ok(0u64),
                },
            }) {
                Err(e) => Err(e),
                Ok(features) => match (match txt_get_either(t, "vs"@, "vn"@) {
                    Some(v) => spec_version(v),
                    None => Ok((0u32, 0u32, 0u32)),
                }) {
                    Err(e) => Err(e),
                    Ok(sv) => match (match txt_get(t, "pk"@) {
                        Some(pk) => match spec_public_key(pk) {
                            Ok(k) => Ok(Some(k)),
                            Err(e) => Err(e),
                        },
                        None => Ok(None),
                    }) {
                        Err(e) => Err(e),
                        Ok(public_key) => Ok((id, features, sv, public_key)),
                    },
                },
            },
        },
    }
}

/// The device a RAOP record describes, once its fallible fields are read.
pub open spec fn raop_device(dname: Seq<char>, t: Seq<(Seq<char>, Seq<char>)>, addresses: Seq<IpAddress>, port: u16, c: RaopCore) -> DeviceV {
    DeviceV {
        id: c.0,
        name: dname,
        model: match txt_get_either(t, "am"@, "model"@) {
            Some(m) => m,
            None => Seq::empty(),
        },
        manufacturer: None,
        serial_number: None,
        addresses,
        port,
        features: c.1,
        required_sender_features: None,
        public_key: c.3,
        source_version: Version { major: c.2.0, minor: c.2.1, patch: c.2.2 },
        firmware_version: txt_get(t, "fv"@),
        os_version: txt_get(t, "ov"@),
        protocol_version: None,
        requires_password: flag(t, "pw"@),
        status_flags: match txt_get(t, "sf"@) {
            Some(f) => spec_hex_or_decimal(f),
            None => 0,
        },
        access_control: None,
        pairing_identity: None,
        system_pairing_identity: None,
        bluetooth_address: None,
        homekit_home_id: None,
        group_id: None,
        is_group_leader: false,
        group_public_name: None,
        group_contains_discoverable_leader: false,
        home_group_id: None,
        household_id: None,
        parent_group_id: None,
        parent_group_contains_discoverable_leader: false,
        tight_sync_id: None,
        raop_port: Some(port),
        raop_encryption_types: opt_u8_list(txt_get(t, "et"@)),
        raop_codecs: opt_u8_list(txt_get(t, "cn"@)),
        raop_transport: txt_get(t, "tp"@),
        raop_metadata_types: opt_u8_list(txt_get(t, "md"@)),
        raop_digest_auth: flag(t, "da"@),
        vodka_version: txt_get(t, "vv"@),
    }
}

/// The `_raop._tcp` record parse; the errors come in the order the fields are read.
pub open spec fn raop_spec(name: Seq<char>, t: Seq<(Seq<char>, Seq<char>)>, addresses: Seq<IpAddress>, port: u16) -> Result<
    DeviceV,
    ParseErrorV,
> {
    match raop_core(name, t) {
        Err(e) => Err(e),
        Ok(c) => Ok(raop_device(raop_name_split(name).unwrap().1, t, addresses, port, c)),
    }
}

/// The inputs of a RAOP record on which parsing stays on character boundaries.
pub open spec fn raop_no_panic(name: Seq<char>, t: Seq<(Seq<char>, Seq<char>)>) -> bool {
    &&& (raop_name_split(name) matches Some((mac, _)) ==> mac_no_panic(mac))
    &&& (txt_get(t, "pk"@) matches Some(pk) ==> pk_no_panic(pk))
}

/// The addresses of `a`, then those of `b` not yet present.
pub open spec fn merge_addresses(a: Seq<IpAddress>, b: Seq<IpAddress>) -> Seq<IpAddress>
    decreases b.len(),
{
    if b.len() == 0 {
        a
    } else {
        let m = merge_addresses(a, b.drop_last());
        if m.contains(b.last()) {
            m
        } else {
            m.push(b.last())
        }
    }
}

/// The merge of the AirPlay and RAOP views of one receiver: the AirPlay record's fields,
/// filled in from the RAOP record where AirPlay left a model, public key, source version,
/// firmware or OS version, or status flags out; either record's password flag; the
/// addresses of both; and the RAOP-only fields from the RAOP record.
pub open spec fn merge_spec(a: DeviceV, r: DeviceV) -> DeviceV {
    DeviceV {
        id: a.id,
        name: a.name,
        model: if a.model.len() == 0 {
            r.model
        } else {
            a.model
        },
        manufacturer: a.manufacturer,
        serial_number: a.serial_number,
        addresses: merge_addresses(a.addresses, r.addresses),
        port: a.port,
        features: a.features,
        required_sender_features: a.required_sender_features,
        public_key: match a.public_key {
            Some(k) => Some(k),
            None => r.public_key,
        },
        source_version: if a.source_version == (Version { major: 0, minor: 0, patch: 0 }) {
            r.source_version
        } else {
            a.source_version
        },
        firmware_version: match a.firmware_version {
            Some(v) => Some(v),
            None => r.firmware_version,
        },
        os_version: match a.os_version {
            Some(v) => Some(v),
            None => r.os_version,
        },
        protocol_version: a.protocol_version,
        requires_password: a.requires_password || r.requires_password,
        status_flags: if a.status_flags != 0 {
            a.status_flags
        } else {
            r.status_flags
        },
        access_control: a.access_control,
        pairing_identity: a.pairing_identity,
        system_pairing_identity: a.system_pairing_identity,
        bluetooth_address: a.bluetooth_address,
        homekit_home_id: a.homekit_home_id,
        group_id: a.group_id,
        is_group_leader: a.is_group_leader,
        group_public_name: a.group_public_name,
        group_contains_discoverable_leader: a.group_contains_discoverable_leader,
        home_group_id: a.home_group_id,
        household_id: a.household_id,
        parent_group_id: a.parent_group_id,
        parent_group_contains_discoverable_leader: a.parent_group_contains_discoverable_leader,
        tight_sync_id: a.tight_sync_id,
        raop_port: r.raop_port,
        raop_encryption_types: r.raop_encryption_types,
        raop_codecs: r.raop_codecs,
        raop_transport: r.raop_transport,
        raop_metadata_types: r.raop_metadata_types,
        raop_digest_auth: r.raop_digest_auth,
        vodka_version: r.vodka_version,
    }
}

/// A copy of an optional string.
fn clone_opt_str(o: &Option<String>) -> (r: Option<String>)
    ensures
        opt_str(r) == opt_str(*o),
{
    match o {
        Some(s) => Some(s.clone()),
        None => None,
    }
}

/// A copy of optional bytes.
fn clone_opt_bytes(o: &Option<Vec<u8>>) -> (r: Option<Vec<u8>>)
    ensures
        crate::base::device::opt_bytes(r) == crate::base::device::opt_bytes(*o),
{
    match o {
        Some(v) => {
            let mut c: Vec<u8> = Vec::new();
            crate::bytes::put_all(&mut c, v.as_slice());
            Some(c)
        },
        None => None,
    }
}

/// The first of two optional strings that is present, copied.
fn or_else_str(a: &Option<String>, b: &Option<String>) -> (r: Option<String>)
    ensures
        opt_str(r) == match opt_str(*a) {
            Some(v) => Some(v),
            None => opt_str(*b),
        },
{
    match a {
        Some(s) => Some(s.clone()),
        None => clone_opt_str(b),
    }
}

/// The value of the first of two keys that is present.
fn get_either<'a>(txt: &'a [(String, String)], a: &str, b: &str) -> (r: Option<&'a String>)
    ensures
        match r {
            Some(v) => txt_get_either(txt_view(txt@), a@, b@) == Some(v@),
            None => txt_get_either(txt_view(txt@), a@, b@) is None,
        },
{
    match get(txt, a) {
        Some(v) => Some(v),
        None => get(txt, b),
    }
}

/// An optional comma-separated byte list under key `k`.
fn opt_u8_list_exec(txt: &[(String, String)], k: &str) -> (r: Option<Vec<u8>>)
    ensures
        crate::base::device::opt_bytes(r) == opt_u8_list(txt_get(txt_view(txt@), k@)),
{
    match get(txt, k) {
        Some(v) => Some(u8_list_exec(v.as_str())),
        None => None,
    }
}

/// The fallible fields of a RAOP record, in the order they are read.
fn raop_core_exec(name: &str, txt: &[(String, String)]) -> (r: Result<(DeviceId, Features, Version, Option<[u8; 32]>, String), ParseError>)
    requires
        raop_no_panic(name@, txt_view(txt@)),
    ensures
        match r {
            Ok(c) => raop_core(name@, txt_view(txt@)) == Ok::<RaopCore, ParseErrorV>(
                (c.0.0@, c.1.0, (c.2.major, c.2.minor, c.2.patch), crate::base::device::opt_arr32(c.3)),
            ) && (raop_name_split(name@) matches Some((_, dn)) && c.4@ == dn),
            Err(e) => raop_core(name@, txt_view(txt@)) == Err::<RaopCore, ParseErrorV>(e@),
        },
{
    let cs = str_chars(name);
    let at_pos = match find_char_exec(&cs, '@') {
        Some(i) => i,
        None => {
            return Err(ParseError::InvalidFormat("RAOP name must contain '@'".to_owned()));
        },
    };
    let n = cs.len();
    assert(at_pos < n);
    let mac_hex = sub_chars(&cs, 0, at_pos);
    let device_name = sub_chars(&cs, at_pos + 1, n);
    assert(mac_hex@ =~= name@.take(at_pos as int));
    assert(device_name@ =~= name@.skip(at_pos + 1int));
    let mac_s = string_from_chars(&mac_hex);
    let id = DeviceId::from_mac_string(mac_s.as_str())?;
    let features = match get(txt, "ft") {
        Some(ft) => Features::from_txt_value(ft.as_str())?,
        None => match get(txt, "sf") {
            Some(sf) => TxtRecordParser::parse_legacy_features(sf.as_str())?,
            None => Features(0),
        },
    };
    let source_version = match get_either(txt, "vs", "vn") {
        Some(v) => Version::parse(v.as_str())?,
        None => Version { major: 0, minor: 0, patch: 0 },
    };
    let public_key = match get(txt, "pk") {
        Some(pk) => Some(TxtRecordParser::parse_public_key(pk.as_str())?),
        None => None,
    };
    Ok((id, features, source_version, public_key, string_from_chars(&device_name)))
}

/// A copy of a device.
pub fn copy_device(d: &Device) -> (r: Device)
    ensures
        r@ == d@,
{
    let mut addresses: Vec<IpAddress> = Vec::new();
    let mut i: usize = 0;
    while i < d.addresses.len()
        invariant
            i <= d.addresses@.len(),
            addresses@ == d.addresses@.take(i as int),
        decreases d.addresses@.len() - i,
    {
        addresses.push(d.addresses[i]);
        i += 1;
        assert(d.addresses@.take(i as int) =~= d.addresses@.take(i - 1).push(d.addresses@[i - 1]));
    }
    assert(d.addresses@.take(i as int) =~= d.addresses@);
    Device {
        id: DeviceId(d.id.0),
        name: d.name.clone(),
        model: d.model.clone(),
        manufacturer: clone_opt_str(&d.manufacturer),
        serial_number: clone_opt_str(&d.serial_number),
        addresses,
        port: d.port,
        features: d.features,
        required_sender_features: d.required_sender_features,
        public_key: d.public_key,
        source_version: d.source_version,
        firmware_version: clone_opt_str(&d.firmware_version),
        os_version: clone_opt_str(&d.os_version),
        protocol_version: clone_opt_str(&d.protocol_version),
        requires_password: d.requires_password,
        status_flags: d.status_flags,
        access_control: d.access_control,
        pairing_identity: clone_opt_str(&d.pairing_identity),
        system_pairing_identity: clone_opt_str(&d.system_pairing_identity),
        bluetooth_address: clone_opt_str(&d.bluetooth_address),
        homekit_home_id: clone_opt_str(&d.homekit_home_id),
        group_id: d.group_id,
        is_group_leader: d.is_group_leader,
        group_public_name: clone_opt_str(&d.group_public_name),
        group_contains_discoverable_leader: d.group_contains_discoverable_leader,
        home_group_id: clone_opt_str(&d.home_group_id),
        household_id: clone_opt_str(&d.household_id),
        parent_group_id: d.parent_group_id,
        parent_group_contains_discoverable_leader: d.parent_group_contains_discoverable_leader,
        tight_sync_id: d.tight_sync_id,
        raop_port: d.raop_port,
        raop_encryption_types: clone_opt_bytes(&d.raop_encryption_types),
        raop_codecs: clone_opt_bytes(&d.raop_codecs),
        raop_transport: clone_opt_str(&d.raop_transport),
        raop_metadata_types: clone_opt_bytes(&d.raop_metadata_types),
        raop_digest_auth: d.raop_digest_auth,
        vodka_version: clone_opt_str(&d.vodka_version),
    }
}

pub struct TxtRecordParser;

/// The value of the first record with key `k`.
pub(crate) fn get<'a>(txt: &'a [(String, String)], k: &str) -> (r: Option<&'a String>)
    ensures
        match r {
            Some(v) => txt_get(txt_view(txt@), k@) == Some(v@),
            None => txt_get(txt_view(txt@), k@) is None,
        },
{
    let ghost tv = txt_view(txt@);
    let ks = k.to_owned();
    let mut i: usize = 0;
    assert(tv.skip(0) =~= tv);
    while i < txt.len()
        invariant
            i <= txt@.len(),
            tv == txt_view(txt@),
            ks@ == k@,
            txt_get(tv, k@) == txt_get(tv.skip(i as int), k@),
        decreases txt@.len() - i,
    {
        let ghost rest = tv.skip(i as int);
        assert(rest.drop_first() =~= tv.skip(i + 1));
        assert(rest[0] == tv[i as int]);
        if txt[i].0 == ks {
            return Some(&txt[i].1);
        }
        i += 1;
    }
    None
}

/// A copy of the value of key `k`.
fn get_cloned(txt: &[(String, String)], k: &str) -> (r: Option<String>)
    ensures
        opt_str(r) == txt_get(txt_view(txt@), k@),
{
    match get(txt, k) {
        Some(v) => Some(v.clone()),
        None => None,
    }
}

/// Whether `v` is `"true"` or `"1"`.
fn is_true_exec(v: &String) -> (r: bool)
    ensures
        r == is_true(v@),
{
    let t = "true".to_owned();
    let one = "1".to_owned();
    *v == t || *v == one
}

fn flag_exec(txt: &[(String, String)], k: &str) -> (r: bool)
    ensures
        r == flag(txt_view(txt@), k@),
{
    match get(txt, k) {
        Some(v) => is_true_exec(v),
        None => false,
    }
}

/// Whether `t` starts with `0x` or `0X`.
fn hex_prefixed(t: &[char]) -> (r: bool)
    ensures
        r == (starts_with(t@, "0x"@) || starts_with(t@, "0X"@)),
        r ==> t@.len() >= 2,
{
    proof {
        reveal_strlit("0x");
        reveal_strlit("0X");
    }
    let r = t.len() >= 2 && t[0] == '0' && (t[1] == 'x' || t[1] == 'X');
    assert(r ==> (t@.take(2) =~= "0x"@ || t@.take(2) =~= "0X"@));
    assert(starts_with(t@, "0x"@) ==> t@.take(2)[0] == '0' && t@.take(2)[1] == 'x');
    assert(starts_with(t@, "0X"@) ==> t@.take(2)[0] == '0' && t@.take(2)[1] == 'X');
    r
}

/// The list items of a comma-separated value that are numbers below 256.
fn u8_list_exec(s: &str) -> (r: Vec<u8>)
    ensures
        r@ == u8_list(s@),
{
    let cs = str_chars(s);
    let parts = split_chars(&cs, ',');
    let mut out: Vec<u8> = Vec::new();
    let mut i: usize = 0;
    assert(views(parts@).take(0) =~= Seq::<Seq<char>>::empty());
    while i < parts.len()
        invariant
            i <= parts@.len(),
            views(parts@) == split_on(s@, ','),
            cs@ == s@,
            out@ == u8_items(views(parts@).take(i as int)),
        decreases parts@.len() - i,
    {
        let ghost vs = views(parts@);
        assert(vs.take(i + 1).drop_last() =~= vs.take(i as int));
        assert(vs.take(i + 1).last() == parts@[i as int]@);
        let t = trim_chars(&parts[i]);
        match parse_unsigned_chars(&t, 10, 255) {
            Some(v) => {
                out.push(v as u8);
            },
            None => {},
        }
        i += 1;
    }
    assert(views(parts@).take(i as int) =~= views(parts@));
    out
}

/// An optional UUID field, read from the part before the first `+`.
fn parse_uuid_field(txt: &[(String, String)], k: &str) -> (r: Result<Option<[u8; 16]>, ParseError>)
    ensures
        match r {
            Ok(Some(b)) => uuid_field(txt_view(txt@), k@) == Ok::<Option<Seq<u8>>, ParseErrorV>(Some(b@)),
            Ok(None) => uuid_field(txt_view(txt@), k@) == Ok::<Option<Seq<u8>>, ParseErrorV>(None),
            Err(e) => uuid_field(txt_view(txt@), k@) == Err::<Option<Seq<u8>>, ParseErrorV>(e@),
        },
{
    match get(txt, k) {
        Some(v) => {
            let b = TxtRecordParser::parse_uuid_prefix(v.as_str())?;
            Ok(Some(b))
        },
        None => Ok(None),
    }
}

/// Status flags: `flags`, else `sf`.
fn status_flags_exec(txt: &[(String, String)]) -> (r: u64)
    ensures
        r == status_flags_of(txt_view(txt@)),
{
    match get(txt, "flags") {
        Some(f) => TxtRecordParser::parse_hex_or_decimal(f.as_str()),
        None => match get(txt, "sf") {
            Some(f) => TxtRecordParser::parse_hex_or_decimal(f.as_str()),
            None => 0,
        },
    }
}

/// The access control level.
fn acl_exec(txt: &[(String, String)]) -> (r: Option<u8>)
    ensures
        r == acl_of(txt_view(txt@)),
{
    match get(txt, "acl") {
        Some(v) => {
            let vc = str_chars(v.as_str());
            match parse_unsigned_chars(&vc, 10, 255) {
                Some(n) => Some(n as u8),
                None => None,
            }
        },
        None => None,
    }
}

/// Optional features under key `k`.
fn opt_features_exec(txt: &[(String, String)], k: &str) -> (r: Result<Option<Features>, ParseError>)
    ensures
        match r {
            Ok(Some(f)) => opt_features_txt(txt_view(txt@), k@) == Ok::<Option<u64>, ParseErrorV>(Some(f.0)),
            Ok(None) => opt_features_txt(txt_view(txt@), k@) == Ok::<Option<u64>, ParseErrorV>(None),
            Err(e) => opt_features_txt(txt_view(txt@), k@) == Err::<Option<u64>, ParseErrorV>(e@),
        },
{
    match get(txt, k) {
        Some(f) => Ok(Some(Features::from_txt_value(f.as_str())?)),
        None => Ok(None),
    }
}

/// The fallible fields of an AirPlay record, in the order they are read.
fn airplay_core_exec(txt: &[(String, String)]) -> (r: Result<
    (DeviceId, Features, Version, Option<[u8; 32]>, Option<Features>, Option<[u8; 16]>, Option<[u8; 16]>, Option<[u8; 16]>),
    ParseError,
>)
    requires
        airplay_no_panic(txt_view(txt@)),
    ensures
        match r {
            Ok(c) => airplay_core(txt_view(txt@)) == Ok::<AirplayCore, ParseErrorV>(
                (
                    c.0.0@,
                    c.1.0,
                    (c.2.major, c.2.minor, c.2.patch),
                    crate::base::device::opt_arr32(c.3),
                    crate::base::device::opt_features(c.4),
                    crate::base::device::opt_arr16(c.5),
                    crate::base::device::opt_arr16(c.6),
                    crate::base::device::opt_arr16(c.7),
                ),
            ),
            Err(e) => airplay_core(txt_view(txt@)) == Err::<AirplayCore, ParseErrorV>(e@),
        },
{
    let device_id_str = match get(txt, "deviceid") {
        Some(d) => d,
        None => {
            return Err(ParseError::MissingField("deviceid"));
        },
    };
    let id = DeviceId::from_mac_string(device_id_str.as_str())?;
    let features = match opt_features_exec(txt, "features")? {
        Some(f) => f,
        None => Features(0),
    };
    let source_version = match get(txt, "srcvers") {
        Some(v) => Version::parse(v.as_str())?,
        None => Version { major: 0, minor: 0, patch: 0 },
    };
    let public_key = match get(txt, "pk") {
        Some(pk) => Some(TxtRecordParser::parse_public_key(pk.as_str())?),
        None => None,
    };
    let required_sender_features = opt_features_exec(txt, "rsf")?;
    let group_id = parse_uuid_field(txt, "gid")?;
    let parent_group_id = parse_uuid_field(txt, "pgid")?;
    let tight_sync_id = parse_uuid_field(txt, "tsid")?;
    Ok((id, features, source_version, public_key, required_sender_features, group_id, parent_group_id, tight_sync_id))
}

impl TxtRecordParser {
    /// Reads an `_airplay._tcp` TXT record.
    pub fn parse_airplay_txt(name: &str, txt: &[(String, String)], addresses: Vec<IpAddress>, port: u16) -> (r: Result<
        Device,
        ParseError,
    >)
        requires
            airplay_no_panic(txt_view(txt@)),
        ensures
            match r {
                Ok(d) => airplay_spec(name@, txt_view(txt@), addresses@, port) == Ok::<DeviceV, ParseErrorV>(d@),
                Err(e) => airplay_spec(name@, txt_view(txt@), addresses@, port) == Err::<DeviceV, ParseErrorV>(e@),
            },
    {
        let (id, features, source_version, public_key, required_sender_features, group_id, parent_group_id, tight_sync_id) =
            airplay_core_exec(txt)?;
        let model = match get(txt, "model") {
            Some(m) => m.clone(),
            None => String::new(),
        };
        let d = Device {
            id,
            name: name.to_owned(),
            model,
            manufacturer: get_cloned(txt, "manufacturer"),
            serial_number: get_cloned(txt, "serialNumber"),
            addresses,
            port,
            features,
            required_sender_features,
            public_key,
            source_version,
            firmware_version: get_cloned(txt, "fv"),
            os_version: get_cloned(txt, "osvers"),
            protocol_version: get_cloned(txt, "protovers"),
            requires_password: flag_exec(txt, "pw"),
            status_flags: status_flags_exec(txt),
            access_control: acl_exec(txt),
            pairing_identity: get_cloned(txt, "pi"),
            system_pairing_identity: get_cloned(txt, "psi"),
            bluetooth_address: get_cloned(txt, "btaddr"),
            homekit_home_id: get_cloned(txt, "hkid"),
            group_id,
            is_group_leader: flag_exec(txt, "igl"),
            group_public_name: get_cloned(txt, "gpn"),
            group_contains_discoverable_leader: flag_exec(txt, "gcgl"),
            home_group_id: get_cloned(txt, "hgid"),
            household_id: get_cloned(txt, "hmid"),
            parent_group_id,
            parent_group_contains_discoverable_leader: flag_exec(txt, "pgcgl"),
            tight_sync_id,
            raop_port: None,
            raop_encryption_types: None,
            raop_codecs: None,
            raop_transport: None,
            raop_metadata_types: None,
            raop_digest_auth: false,
            vodka_version: None,
        };
        Ok(d)
    }

    /// Reads a `_raop._tcp` TXT record; the service name is `MAC@name`.
    pub fn parse_raop_txt(name: &str, txt: &[(String, String)], addresses: Vec<IpAddress>, port: u16) -> (r: Result<
        Device,
        ParseError,
    >)
        requires
            raop_no_panic(name@, txt_view(txt@)),
        ensures
            match r {
                Ok(d) => raop_spec(name@, txt_view(txt@), addresses@, port) == Ok::<DeviceV, ParseErrorV>(d@),
                Err(e) => raop_spec(name@, txt_view(txt@), addresses@, port) == Err::<DeviceV, ParseErrorV>(e@),
            },
    {
        let (id, features, source_version, public_key, device_name) = raop_core_exec(name, txt)?;
        let model = match get_either(txt, "am", "model") {
            Some(m) => m.clone(),
            None => String::new(),
        };
        let status_flags = match get(txt, "sf") {
            Some(f) => Self::parse_hex_or_decimal(f.as_str()),
            None => 0,
        };
        let d = Device {
            id,
            name: device_name,
            model,
            manufacturer: None,
            serial_number: None,
            addresses,
            port,
            features,
            required_sender_features: None,
            public_key,
            source_version,
            firmware_version: get_cloned(txt, "fv"),
            os_version: get_cloned(txt, "ov"),
            protocol_version: None,
            requires_password: flag_exec(txt, "pw"),
            status_flags,
            access_control: None,
            pairing_identity: None,
            system_pairing_identity: None,
            bluetooth_address: None,
            homekit_home_id: None,
            group_id: None,
            is_group_leader: false,
            group_public_name: None,
            group_contains_discoverable_leader: false,
            home_group_id: None,
            household_id: None,
            parent_group_id: None,
            parent_group_contains_discoverable_leader: false,
            tight_sync_id: None,
            raop_port: Some(port),
            raop_encryption_types: opt_u8_list_exec(txt, "et"),
            raop_codecs: opt_u8_list_exec(txt, "cn"),
            raop_transport: get_cloned(txt, "tp"),
            raop_metadata_types: opt_u8_list_exec(txt, "md"),
            raop_digest_auth: flag_exec(txt, "da"),
            vodka_version: get_cloned(txt, "vv"),
        };
        Ok(d)
    }

    /// Merges the AirPlay and RAOP records of one receiver (see `merge_spec`).
    pub fn merge_device_info(airplay: &Device, raop: &Device) -> (r: Device)
        ensures
            r@ == merge_spec(airplay@, raop@),
    {
        let mut addresses: Vec<IpAddress> = Vec::new();
        let mut i: usize = 0;
        while i < airplay.addresses.len()
            invariant
                i <= airplay.addresses@.len(),
                addresses@ == airplay.addresses@.take(i as int),
            decreases airplay.addresses@.len() - i,
        {
            addresses.push(airplay.addresses[i]);
            i += 1;
            assert(airplay.addresses@.take(i as int) =~= airplay.addresses@.take(i - 1).push(airplay.addresses@[i - 1]));
        }
        assert(airplay.addresses@.take(i as int) =~= airplay.addresses@);
        assert(raop.addresses@.take(0) =~= Seq::<IpAddress>::empty());
        let mut k: usize = 0;
        while k < raop.addresses.len()
            invariant
                k <= raop.addresses@.len(),
                addresses@ == merge_addresses(airplay.addresses@, raop.addresses@.take(k as int)),
            decreases raop.addresses@.len() - k,
        {
            let a = raop.addresses[k];
            let ghost tk = raop.addresses@.take(k + 1);
            assert(tk.drop_last() =~= raop.addresses@.take(k as int));
            assert(tk.last() == a);
            let mut present = false;
            let mut j: usize = 0;
            while j < addresses.len()
                invariant
                    j <= addresses@.len(),
                    present == (exists|x: int| 0 <= x < j && addresses@[x] == a),
                decreases addresses@.len() - j,
            {
                if addresses[j] == a {
                    present = true;
                }
                j += 1;
            }
            assert(present == addresses@.contains(a));
            if !present {
                addresses.push(a);
            }
            k += 1;
        }
        assert(raop.addresses@.take(k as int) =~= raop.addresses@);
        let is_default = airplay.source_version.major == 0 && airplay.source_version.minor == 0
            && airplay.source_version.patch == 0;
        Device {
            id: DeviceId(airplay.id.0),
            name: airplay.name.clone(),
            model: if airplay.model.as_str().is_empty() {
                raop.model.clone()
            } else {
                airplay.model.clone()
            },
            manufacturer: clone_opt_str(&airplay.manufacturer),
            serial_number: clone_opt_str(&airplay.serial_number),
            addresses,
            port: airplay.port,
            features: airplay.features,
            required_sender_features: airplay.required_sender_features,
            public_key: match airplay.public_key {
                Some(k) => Some(k),
                None => raop.public_key,
            },
            source_version: if is_default {
                raop.source_version
            } else {
                airplay.source_version
            },
            firmware_version: or_else_str(&airplay.firmware_version, &raop.firmware_version),
            os_version: or_else_str(&airplay.os_version, &raop.os_version),
            protocol_version: clone_opt_str(&airplay.protocol_version),
            requires_password: airplay.requires_password || raop.requires_password,
            status_flags: if airplay.status_flags != 0 {
                airplay.status_flags
            } else {
                raop.status_flags
            },
            access_control: airplay.access_control,
            pairing_identity: clone_opt_str(&airplay.pairing_identity),
            system_pairing_identity: clone_opt_str(&airplay.system_pairing_identity),
            bluetooth_address: clone_opt_str(&airplay.bluetooth_address),
            homekit_home_id: clone_opt_str(&airplay.homekit_home_id),
            group_id: airplay.group_id,
            is_group_leader: airplay.is_group_leader,
            group_public_name: clone_opt_str(&airplay.group_public_name),
            group_contains_discoverable_leader: airplay.group_contains_discoverable_leader,
            home_group_id: clone_opt_str(&airplay.home_group_id),
            household_id: clone_opt_str(&airplay.household_id),
            parent_group_id: airplay.parent_group_id,
            parent_group_contains_discoverable_leader: airplay.parent_group_contains_discoverable_leader,
            tight_sync_id: airplay.tight_sync_id,
            raop_port: raop.raop_port,
            raop_encryption_types: clone_opt_bytes(&raop.raop_encryption_types),
            raop_codecs: clone_opt_bytes(&raop.raop_codecs),
            raop_transport: clone_opt_str(&raop.raop_transport),
            raop_metadata_types: clone_opt_bytes(&raop.raop_metadata_types),
            raop_digest_auth: raop.raop_digest_auth,
            vodka_version: clone_opt_str(&raop.vodka_version),
        }
    }

    /// Reads a public key: 64 hexadecimal characters.
    pub fn parse_public_key(hex: &str) -> (r: Result<[u8; 32], ParseError>)
        requires
            pk_no_panic(hex@),
        ensures
            match r {
                Ok(k) => spec_public_key(hex@) == Ok::<Seq<u8>, ParseErrorV>(k@),
                Err(e) => spec_public_key(hex@) == Err::<Seq<u8>, ParseErrorV>(e@),
            },
    {
        let cs = str_chars(hex);
        let t = trim_chars(&cs);
        let n = utf8_total_exec(&t);
        if n != 64 {
            let mut m: Vec<char> = Vec::new();
            push_str(&mut m, "public key must be 64 hex characters, got ");
            push_radix(&mut m, n, 10);
            return Err(ParseError::InvalidFormat(string_from_chars(&m)));
        }
        assert(t@.skip(0) =~= t@);
        let bytes = parse_hex_pairs(&t, 0, 32)?;
        proof {
            lemma_hex_pairs_len(t@, 32);
        }
        let mut arr = [0u8; 32];
        let mut i: usize = 0;
        while i < 32
            invariant
                i <= 32,
                bytes@.len() == 32,
                forall|j: int| 0 <= j < i ==> arr@[j] == bytes@[j],
            decreases 32 - i,
        {
            arr[i] = bytes[i];
            i += 1;
        }
        assert(arr@ =~= bytes@);
        Ok(arr)
    }

    /// Reads a group identifier: the UUID before the first `+`.
    fn parse_uuid_prefix(value: &str) -> (r: Result<[u8; 16], ParseError>)
        ensures
            match r {
                Ok(b) => spec_uuid_prefix(value@) == Ok::<Seq<u8>, ParseErrorV>(b@),
                Err(e) => spec_uuid_prefix(value@) == Err::<Seq<u8>, ParseErrorV>(e@),
            },
    {
        let cs = str_chars(value);
        let prefix: Vec<char> = match find_char_exec(&cs, '+') {
            Some(i) => {
                let p = sub_chars(&cs, 0, i);
                assert(p@ =~= cs@.take(i as int));
                p
            },
            None => cs,
        };
        let ps = string_from_chars(&prefix);
        match uuid_parse(ps.as_str()) {
            Some(b) => Ok(b),
            None => {
                let mut m: Vec<char> = Vec::new();
                push_str(&mut m, "invalid UUID: ");
                push_str(&mut m, value);
                Err(ParseError::InvalidValue(string_from_chars(&m)))
            },
        }
    }

    /// `0x`/`0X` hexadecimal or decimal, 0 when it does not parse.
    fn parse_hex_or_decimal(s: &str) -> (r: u64)
        ensures
            r == spec_hex_or_decimal(s@),
    {
        let cs = str_chars(s);
        let t = trim_chars(&cs);
        if hex_prefixed(&t) {
            let rest = sub_chars(&t, 2, t.len());
            assert(rest@ =~= t@.skip(2));
            match parse_unsigned_chars(&rest, 16, u64::MAX) {
                Some(v) => v,
                None => 0,
            }
        } else {
            match parse_unsigned_chars(&t, 10, u64::MAX) {
                Some(v) => v,
                None => 0,
            }
        }
    }

    /// Reads legacy status flags as features.
    pub fn parse_legacy_features(sf: &str) -> (r: Result<Features, ParseError>)
        ensures
            match r {
                Ok(f) => spec_legacy_features(sf@) == Ok::<u64, ParseErrorV>(f.0),
                Err(e) => spec_legacy_features(sf@) == Err::<u64, ParseErrorV>(e@),
            },
    {
        let cs = str_chars(sf);
        let t = trim_chars(&cs);
        let value: u64 = if hex_prefixed(&t) {
            let rest = sub_chars(&t, 2, t.len());
            assert(rest@ =~= t@.skip(2));
            match parse_unsigned_chars(&rest, 16, u64::MAX) {
                Some(v) => v,
                None => {
                    return Err(ParseError::InvalidHex(string_from_chars(&t)));
                },
            }
        } else {
            let mut all = true;
            let mut i: usize = 0;
            while i < t.len()
                invariant
                    i <= t@.len(),
                    all == (forall|j: int| 0 <= j < i ==> '0' <= #[trigger] t@[j] && t@[j] <= '9'),
                decreases t@.len() - i,
            {
                if !('0' <= t[i] && t[i] <= '9') {
                    all = false;
                }
                i += 1;
            }
            if all {
                match parse_unsigned_chars(&t, 10, u64::MAX) {
                    Some(v) => v,
                    None => {
                        let mut m: Vec<char> = Vec::new();
                        push_str(&mut m, "invalid decimal: ");
                        push_all(&mut m, &t);
                        return Err(ParseError::InvalidValue(string_from_chars(&m)));
                    },
                }
            } else {
                match parse_unsigned_chars(&t, 16, u64::MAX) {
                    Some(v) => v,
                    None => {
                        return Err(ParseError::InvalidHex(string_from_chars(&t)));
                    },
                }
            }
        };
        Ok(Features::from_raw(value))
    }
}

/// The first record under key `k` is at `i` and holds `v`.
proof fn lemma_txt_get_first(t: Seq<(Seq<char>, Seq<char>)>, k: Seq<char>)
    ensures
        match txt_get(t, k) {
            Some(v) => exists|i: int|
                0 <= i < t.len() && t[i].0 == k && t[i].1 == v && (forall|j: int| 0 <= j < i ==> t[j].0 != k),
            None => forall|i: int| 0 <= i < t.len() ==> t[i].0 != k,
        },
    decreases t.len(),
{
    if t.len() > 0 && t[0].0 != k {
        let r = t.drop_first();
        lemma_txt_get_first(r, k);
        match txt_get(r, k) {
            Some(v) => {
                let i = choose|i: int|
                    0 <= i < r.len() && r[i].0 == k && r[i].1 == v && (forall|j: int| 0 <= j < i ==> r[j].0 != k);
                assert(t[i + 1] == r[i]);
                assert forall|j: int| 0 <= j < i + 1 implies t[j].0 != k by {
                    if j > 0 {
                        assert(t[j] == r[j - 1]);
                    }
                }
            },
            None => {
                assert forall|i: int| 0 <= i < t.len() implies t[i].0 != k by {
                    if i > 0 {
                        assert(t[i] == r[i - 1]);
                    }
                }
            },
        }
    }
}

/// A receiver asks for a password exactly when the first record under key `pw` holds
/// `true` or `1`, in an AirPlay record and in a RAOP record alike; a missing `pw`, or any
/// other value, means no password.
pub proof fn law_password_flag(name: Seq<char>, t: Seq<(Seq<char>, Seq<char>)>, addresses: Seq<IpAddress>, port: u16)
    ensures
        airplay_spec(name, t, addresses, port) matches Ok(d) ==> (d.requires_password <==> exists|i: int|
            0 <= i < t.len() && t[i].0 == "pw"@ && (t[i].1 == "true"@ || t[i].1 == "1"@) && (forall|j: int|
                0 <= j < i ==> t[j].0 != "pw"@)),
        raop_spec(name, t, addresses, port) matches Ok(d) ==> (d.requires_password <==> exists|i: int|
            0 <= i < t.len() && t[i].0 == "pw"@ && (t[i].1 == "true"@ || t[i].1 == "1"@) && (forall|j: int|
                0 <= j < i ==> t[j].0 != "pw"@)),
{
    lemma_txt_get_first(t, "pw"@);
    let first = exists|i: int|
        0 <= i < t.len() && t[i].0 == "pw"@ && (t[i].1 == "true"@ || t[i].1 == "1"@) && (forall|j: int|
            0 <= j < i ==> t[j].0 != "pw"@);
    assert(flag(t, "pw"@) <==> first) by {
        match txt_get(t, "pw"@) {
            Some(v) => {
                let i = choose|i: int|
                    0 <= i < t.len() && t[i].0 == "pw"@ && t[i].1 == v && (forall|j: int| 0 <= j < i ==> t[j].0 != "pw"@);
                if first {
                    let i2 = choose|i2: int|
                        0 <= i2 < t.len() && t[i2].0 == "pw"@ && (t[i2].1 == "true"@ || t[i2].1 == "1"@) && (forall|j: int|
                            0 <= j < i2 ==> t[j].0 != "pw"@);
                    assert(i2 == i) by {
                        if i2 < i {
                            assert(t[i2].0 != "pw"@);
                        } else if i < i2 {
                            assert(t[i].0 != "pw"@);
                        }
                    }
                }
            },
            None => {},
        }
    }
}

} // verus!
