//! What service discovery does with what it hears: which records can be read safely, the
//! device each resolved service describes, and the table of known devices with the events
//! its changes produce. The mDNS daemon stays with the caller.
use crate::base::device::{hex_pairs_safe, mac_no_panic, mac_parse_safe, Device, DeviceId, DeviceV};
use crate::base::net::IpAddress;
use crate::discovery::parser::{airplay_no_panic, airplay_spec, copy_device, get, merge_spec, pk_no_panic, raop_no_panic, raop_spec, txt_view, TxtRecordParser};
use crate::discovery::traits::BrowseEvent;
use crate::text::{find_char, find_char_exec, str_chars, string_from_chars, sub_chars, trim_chars, utf8_total_exec};
use vstd::prelude::*;

verus! {

/// Reading `s` as a public key does not fail on a character boundary.
pub fn pk_parse_safe(s: &str) -> (r: bool)
    ensures
        r == pk_no_panic(s@),
{
    let cs = str_chars(s);
    let t = trim_chars(&cs);
    if utf8_total_exec(&t) != 64 {
        return true;
    }
    assert(t@.skip(0) =~= t@);
    hex_pairs_safe(&t, 0, 32)
}

/// An `_airplay._tcp` record can be read safely (see `airplay_no_panic`).
pub fn airplay_txt_safe(txt: &[(String, String)]) -> (r: bool)
    ensures
        r == airplay_no_panic(txt_view(txt@)),
{
    let id_ok = match get(txt, "deviceid") {
        Some(d) => mac_parse_safe(d.as_str()),
        None => true,
    };
    let pk_ok = match get(txt, "pk") {
        Some(pk) => pk_parse_safe(pk.as_str()),
        None => true,
    };
    id_ok && pk_ok
}

/// A `_raop._tcp` record under service name `name` can be read safely (see
/// `raop_no_panic`).
pub fn raop_txt_safe(name: &str, txt: &[(String, String)]) -> (r: bool)
    ensures
        r == raop_no_panic(name@, txt_view(txt@)),
{
    let cs = str_chars(name);
    let mac_ok = match find_char_exec(&cs, '@') {
        Some(i) => {
            let mac = sub_chars(&cs, 0, i);
            assert(mac@ =~= name@.take(i as int));
            mac_parse_safe(string_from_chars(&mac).as_str())
        },
        None => true,
    };
    let pk_ok = match get(txt, "pk") {
        Some(pk) => pk_parse_safe(pk.as_str()),
        None => true,
    };
    mac_ok && pk_ok
}

/// The service name in a full mDNS name: the text before the first `.`.
pub open spec fn service_name_of(full: Seq<char>) -> Seq<char> {
    match find_char(full, '.') {
        Some(i) => full.take(i as int),
        None => full,
    }
}

pub fn service_name(fullname: &str) -> (r: String)
    ensures
        r@ == service_name_of(fullname@),
{
    let cs = str_chars(fullname);
    match find_char_exec(&cs, '.') {
        Some(i) => {
            let s = sub_chars(&cs, 0, i);
            assert(s@ =~= fullname@.take(i as int));
            string_from_chars(&s)
        },
        None => fullname.to_owned(),
    }
}

/// The device a resolved service describes: none without addresses or when its record
/// does not read; else the record read under the service name.
pub open spec fn service_device(
    fullname: Seq<char>,
    port: u16,
    addresses: Seq<IpAddress>,
    t: Seq<(Seq<char>, Seq<char>)>,
    is_raop: bool,
) -> Option<DeviceV> {
    if addresses.len() == 0 {
        None
    } else {
        let r = if is_raop {
            raop_spec(service_name_of(fullname), t, addresses, port)
        } else {
            airplay_spec(service_name_of(fullname), t, addresses, port)
        };
        match r {
            Ok(d) => Some(d),
            Err(_) => None,
        }
    }
}

/// The record of a service can be read safely.
pub open spec fn service_safe(fullname: Seq<char>, t: Seq<(Seq<char>, Seq<char>)>, is_raop: bool) -> bool {
    if is_raop {
        raop_no_panic(service_name_of(fullname), t)
    } else {
        airplay_no_panic(t)
    }
}

pub fn parse_service_event(
    fullname: &str,
    port: u16,
    addresses: Vec<IpAddress>,
    txt: &[(String, String)],
    is_raop: bool,
) -> (r: Option<Device>)
    requires
        service_safe(fullname@, txt_view(txt@), is_raop),
    ensures
        match service_device(fullname@, port, addresses@, txt_view(txt@), is_raop) {
            Some(d) => r matches Some(x) && x@ == d,
            None => r is None,
        },
{
    if addresses.len() == 0 {
        return None;
    }
    let name = service_name(fullname);
    let result = if is_raop {
        TxtRecordParser::parse_raop_txt(name.as_str(), txt, addresses, port)
    } else {
        TxtRecordParser::parse_airplay_txt(name.as_str(), txt, addresses, port)
    };
    match result {
        Ok(device) => Some(device),
        Err(_) => None,
    }
}

/// The device a removed RAOP service named: the MAC address before the `@` of its service
/// name; nothing for AirPlay services or a name that does not read.
pub fn extract_device_id_from_removal(fullname: &str, is_raop: bool) -> (r: Option<DeviceId>)
    requires
        is_raop ==> mac_no_panic(removal_mac_text(fullname@)),
    ensures
        !is_raop ==> r is None,
        is_raop ==> match crate::base::device::spec_mac(removal_mac_text(fullname@)) {
            Ok(b) => r matches Some(id) && id.0@ == b,
            Err(_) => r is None,
        },
{
    if !is_raop {
        return None;
    }
    let name = service_name(fullname);
    let cs = str_chars(name.as_str());
    let mac = match find_char_exec(&cs, '@') {
        Some(i) => {
            let m = sub_chars(&cs, 0, i);
            assert(m@ =~= name@.take(i as int));
            m
        },
        None => cs,
    };
    let text = string_from_chars(&mac);
    match DeviceId::from_mac_string(text.as_str()) {
        Ok(id) => Some(id),
        Err(_) => None,
    }
}

/// The MAC text of a removed RAOP service: its service name up to the first `@`.
pub open spec fn removal_mac_text(fullname: Seq<char>) -> Seq<char> {
    let n = service_name_of(fullname);
    match find_char(n, '@') {
        Some(i) => n.take(i as int),
        None => n,
    }
}

pub fn removal_safe(fullname: &str) -> (r: bool)
    ensures
        r == mac_no_panic(removal_mac_text(fullname@)),
{
    let name = service_name(fullname);
    let cs = str_chars(name.as_str());
    let mac = match find_char_exec(&cs, '@') {
        Some(i) => {
            let m = sub_chars(&cs, 0, i);
            assert(m@ =~= name@.take(i as int));
            m
        },
        None => cs,
    };
    mac_parse_safe(string_from_chars(&mac).as_str())
}

/// The known devices, at most one per id.
pub struct DeviceRegistry {
    devices: Vec<Device>,
}

/// Where the device with id `id` is in `s`.
pub open spec fn id_index(s: Seq<DeviceV>, id: Seq<u8>) -> Option<int> {
    if exists|i: int| 0 <= i < s.len() && s[i].id == id {
        Some(choose|i: int| 0 <= i < s.len() && s[i].id == id)
    } else {
        None
    }
}

/// No id occurs twice.
pub open spec fn ids_unique(s: Seq<DeviceV>) -> bool {
    forall|i: int, j: int| 0 <= i < s.len() && 0 <= j < s.len() && i != j ==> s[i].id != s[j].id
}

/// Two device ids are the same bytes.
fn same_id(a: &DeviceId, b: &DeviceId) -> (r: bool)
    ensures
        r == (a.0@ == b.0@),
{
    let mut i: usize = 0;
    while i < 6
        invariant
            i <= 6,
            forall|k: int| 0 <= k < i ==> a.0@[k] == b.0@[k],
        decreases 6 - i,
    {
        if a.0[i] != b.0[i] {
            return false;
        }
        i += 1;
    }
    assert(a.0@ =~= b.0@);
    true
}

impl DeviceRegistry {
    /// The known devices.
    pub closed spec fn view_devices(&self) -> Seq<DeviceV> {
        self.devices@.map_values(|d: Device| d@)
    }

    pub closed spec fn wf(&self) -> bool {
        ids_unique(self.view_devices())
    }

    pub fn new() -> (r: Self)
        ensures
            r.wf(),
            r.view_devices().len() == 0,
    {
        let r = DeviceRegistry { devices: Vec::new() };
        assert(r.view_devices() =~= Seq::<DeviceV>::empty());
        r
    }

    /// Where the device with id `id` is.
    fn find(&self, id: &DeviceId) -> (r: Option<usize>)
        requires
            self.wf(),
        ensures
            match r {
                Some(i) => i < self.view_devices().len() && self.view_devices()[i as int].id == id.0@
                    && id_index(self.view_devices(), id.0@) == Some(i as int),
                None => id_index(self.view_devices(), id.0@) is None,
            },
    {
        let ghost v = self.view_devices();
        let mut i: usize = 0;
        while i < self.devices.len()
            invariant
                i <= self.devices@.len(),
                v == self.view_devices(),
                ids_unique(v),
                v.len() == self.devices@.len(),
                forall|k: int| 0 <= k < i ==> v[k].id != id.0@,
            decreases self.devices@.len() - i,
        {
            assert(v[i as int] == self.devices@[i as int]@);
            if same_id(&self.devices[i].id, id) {
                assert(v[i as int].id == id.0@);
                assert(id_index(v, id.0@) == Some(i as int)) by {
                    let j = choose|j: int| 0 <= j < v.len() && v[j].id == id.0@;
                    assert(j == i as int);
                }
                return Some(i);
            }
            i += 1;
        }
        None
    }

    /// Takes in a resolved service's device: a new id is added; a known one is merged with
    /// what is known, the AirPlay record winning over the RAOP one.
    pub fn resolved(&mut self, device: Device, is_raop: bool) -> (r: BrowseEvent)
        requires
            old(self).wf(),
        ensures
            final(self).wf(),
            id_index(final(self).view_devices(), device.id.0@) is Some,
            final(self).view_devices().len() >= old(self).view_devices().len(),
            match id_index(old(self).view_devices(), device.id.0@) {
                None => final(self).view_devices() == old(self).view_devices().push(device@) && (r matches BrowseEvent::Added(
                    d,
                ) && d@ == device@),
                Some(i) => {
                    let merged = if is_raop {
                        merge_spec(old(self).view_devices()[i], device@)
                    } else {
                        merge_spec(device@, old(self).view_devices()[i])
                    };
                    final(self).view_devices() == old(self).view_devices().update(i, merged) && (r matches BrowseEvent::Updated(
                        d,
                    ) && d@ == merged)
                },
            },
    {
        let ghost v = self.view_devices();
        match self.find(&device.id) {
            None => {
                let stored = copy_device(&device);
                self.devices.push(stored);
                assert(self.view_devices() =~= v.push(device@));
                assert forall|i: int, j: int|
                    0 <= i < self.view_devices().len() && 0 <= j < self.view_devices().len() && i != j implies self.view_devices()[i].id
                    != self.view_devices()[j].id by {
                    if i == v.len() as int {
                        assert(!(0 <= j < v.len() && v[j].id == device.id.0@));
                    } else if j == v.len() as int {
                        assert(!(0 <= i < v.len() && v[i].id == device.id.0@));
                    }
                }
                assert(self.view_devices()[v.len() as int].id == device.id.0@);
                BrowseEvent::Added(device)
            },
            Some(i) => {
                let merged = if is_raop {
                    TxtRecordParser::merge_device_info(&self.devices[i], &device)
                } else {
                    TxtRecordParser::merge_device_info(&device, &self.devices[i])
                };
                let stored = copy_device(&merged);
                self.devices.set(i, stored);
                assert(self.view_devices() =~= v.update(i as int, merged@));
                assert(merged@.id == v[i as int].id);
                assert(self.view_devices()[i as int].id == device.id.0@);
                BrowseEvent::Updated(merged)
            },
        }
    }

    /// Forgets the device with id `id`; an event when it was known.
    pub fn removed(&mut self, id: DeviceId) -> (r: Option<BrowseEvent>)
        requires
            old(self).wf(),
        ensures
            final(self).wf(),
            id_index(final(self).view_devices(), id.0@) is None,
            match id_index(old(self).view_devices(), id.0@) {
                None => r is None && final(self).view_devices() == old(self).view_devices(),
                Some(i) => final(self).view_devices() == old(self).view_devices().remove(i) && (r matches Some(
                    BrowseEvent::Removed(x),
                ) && x == id),
            },
    {
        let ghost v = self.view_devices();
        match self.find(&id) {
            None => None,
            Some(i) => {
                let _gone = self.devices.remove(i);
                assert(self.view_devices() =~= v.remove(i as int));
                assert forall|k: int| 0 <= k < self.view_devices().len() implies self.view_devices()[k].id != id.0@ by {
                    if k < i {
                        assert(self.view_devices()[k] == v[k]);
                    } else {
                        assert(self.view_devices()[k] == v[k + 1]);
                    }
                }
                Some(BrowseEvent::Removed(id))
            },
        }
    }

    /// A copy of the device with id `id`, if known.
    pub fn get_device(&self, id: &DeviceId) -> (r: Option<Device>)
        requires
            self.wf(),
        ensures
            match id_index(self.view_devices(), id.0@) {
                Some(i) => r matches Some(d) && d@ == self.view_devices()[i],
                None => r is None,
            },
    {
        match self.find(id) {
            Some(i) => Some(copy_device(&self.devices[i])),
            None => None,
        }
    }

    /// Copies of all known devices.
    pub fn get_all_devices(&self) -> (r: Vec<Device>)
        ensures
            r@.map_values(|d: Device| d@) == self.view_devices(),
    {
        let mut out: Vec<Device> = Vec::new();
        let mut i: usize = 0;
        while i < self.devices.len()
            invariant
                i <= self.devices@.len(),
                out@.map_values(|d: Device| d@) == self.view_devices().take(i as int),
            decreases self.devices@.len() - i,
        {
            let ghost before = out@.map_values(|d: Device| d@);
            let c = copy_device(&self.devices[i]);
            out.push(c);
            assert(out@.map_values(|d: Device| d@) =~= before.push(self.view_devices()[i as int]));
            assert(self.view_devices().take(i + 1) =~= self.view_devices().take(i as int).push(self.view_devices()[i as int]));
            i += 1;
        }
        assert(self.view_devices().take(i as int) =~= self.view_devices());
        out
    }
}

} // verus!
