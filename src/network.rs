//! Network telemetry: contacted MAC counts reported by the loader, and the
//! choice of the host's active interface.

use crate::report::{dec_text, le32_at, mac_text, mac_to_string, until_nul};
use vstd::prelude::*;
use vstd::string::StringExecFns;

verus! {

/// Room for one name in the loader's contact table, NUL included.
pub const MAX_NETWORK_RECORD_NAME_LENGTH: usize = 18;

/// Rows of the loader's contact table.
pub const MAX_NETWORK_RECORDS: usize = 64;

/// Size in bytes of a `NetworkInfo` in the loader's layout.
pub const NETWORK_INFO_SIZE: usize = 1412;

/// The loader's contact table: NUL-padded names and their counts.
pub struct NetworkContacts {
    pub names: Vec<[u8; 18]>,
    pub counts: Vec<u32>,
    pub current_size: u32,
}

pub struct NetworkInfo {
    pub mac_contacts: NetworkContacts,
}

impl NetworkInfo {
    pub open spec fn wf(&self) -> bool {
        self.mac_contacts.names@.len() == MAX_NETWORK_RECORDS && self.mac_contacts.counts@.len()
            == MAX_NETWORK_RECORDS
    }

    /// How many rows are in use: `current_size`, at most the table.
    pub open spec fn rows(&self) -> nat {
        if self.mac_contacts.current_size as nat <= MAX_NETWORK_RECORDS as nat {
            self.mac_contacts.current_size as nat
        } else {
            MAX_NETWORK_RECORDS as nat
        }
    }

    /// The name of row `i`: its bytes before the first NUL.
    pub open spec fn name_at(&self, i: int) -> Seq<u8> {
        until_nul(self.mac_contacts.names@[i]@)
    }

    /// The count of row `i`, as a signed 32-bit number.
    pub open spec fn count_at(&self, i: int) -> i32 {
        self.mac_contacts.counts@[i] as i32
    }

    /// Reads the table from its layout; nothing where the data is shorter.
    pub fn from_bytes(data: &[u8]) -> (r: Option<NetworkInfo>)
        ensures
            data@.len() < NETWORK_INFO_SIZE ==> r.is_none(),
            data@.len() >= NETWORK_INFO_SIZE ==> r.is_some() && r.unwrap().wf()
                && r.unwrap().mac_contacts.current_size == le32_at(data@, 1408),
            data@.len() >= NETWORK_INFO_SIZE ==> forall|i: int|
                0 <= i < MAX_NETWORK_RECORDS ==> (#[trigger] r.unwrap().mac_contacts.names@[i])@
                    == data@.subrange(18 * i, 18 * i + 18),
            data@.len() >= NETWORK_INFO_SIZE ==> forall|i: int|
                0 <= i < MAX_NETWORK_RECORDS ==> #[trigger] r.unwrap().mac_contacts.counts@[i]
                    == le32_at(data@, 1152 + 4 * i),
    {
        if data.len() < NETWORK_INFO_SIZE {
            return None;
        }
        let mut names: Vec<[u8; 18]> = Vec::new();
        let mut counts: Vec<u32> = Vec::new();
        let mut i: usize = 0;
        while i < MAX_NETWORK_RECORDS
            invariant
                data@.len() >= NETWORK_INFO_SIZE,
                i <= MAX_NETWORK_RECORDS,
                names@.len() == i,
                counts@.len() == i,
                forall|j: int|
                    0 <= j < i ==> (#[trigger] names@[j])@ == data@.subrange(18 * j, 18 * j + 18),
                forall|j: int| 0 <= j < i ==> #[trigger] counts@[j] == le32_at(data@, 1152 + 4 * j),
            decreases MAX_NETWORK_RECORDS - i,
        {
            let mut name = [0u8; 18];
            let mut k: usize = 0;
            while k < 18
                invariant
                    data@.len() >= NETWORK_INFO_SIZE,
                    i < MAX_NETWORK_RECORDS,
                    k <= 18,
                    forall|j: int| 0 <= j < k ==> name@[j] == data@[18 * i + j],
                decreases 18 - k,
            {
                name[k] = data[18 * i + k];
                k += 1;
            }
            assert(name@ =~= data@.subrange(18 * i as int, 18 * i + 18));
            names.push(name);
            let o = 1152 + 4 * i;
            let c = (data[o] as u32) | ((data[o + 1] as u32) << 8u32) | ((data[o + 2] as u32)
                << 16u32) | ((data[o + 3] as u32) << 24u32);
            counts.push(c);
            i += 1;
        }
        let o: usize = 1408;
        let size = (data[o] as u32) | ((data[o + 1] as u32) << 8u32) | ((data[o + 2] as u32)
            << 16u32) | ((data[o + 3] as u32) << 24u32);
        let r = NetworkInfo { mac_contacts: NetworkContacts { names, counts, current_size: size } };
        Some(r)
    }
}

/// Contacts with `name` get `c` more; a name not there yet is appended.
pub open spec fn add_contact(e: Seq<(Seq<u8>, i32)>, name: Seq<u8>, c: i32) -> Seq<(Seq<u8>, i32)> {
    if exists|j: int| 0 <= j < e.len() && (#[trigger] e[j]).0 == name {
        Seq::new(
            e.len(),
            |j: int|
                if e[j].0 == name {
                    (e[j].0, e[j].1.wrapping_add(c))
                } else {
                    e[j]
                },
        )
    } else {
        e.push((name, c))
    }
}

/// The contacts after adding the first `k` rows of a table.
pub open spec fn merged(e: Seq<(Seq<u8>, i32)>, info: &NetworkInfo, k: int) -> Seq<(Seq<u8>, i32)>
    decreases k,
{
    if k <= 0 {
        e
    } else {
        add_contact(merged(e, info, k - 1), info.name_at(k - 1), info.count_at(k - 1))
    }
}

/// How many times each MAC was contacted, one entry per name.
pub struct NetworkDetails {
    contacted_macs: Vec<(Vec<u8>, i32)>,
}

impl View for NetworkDetails {
    type V = Seq<(Seq<u8>, i32)>;

    closed spec fn view(&self) -> Seq<(Seq<u8>, i32)> {
        self.contacted_macs@.map_values(|p: (Vec<u8>, i32)| (p.0@, p.1))
    }
}

/// No name appears twice.
pub open spec fn names_unique(e: Seq<(Seq<u8>, i32)>) -> bool {
    forall|a: int, b: int| 0 <= a < b < e.len() ==> (#[trigger] e[a]).0 != (#[trigger] e[b]).0
}

impl NetworkDetails {
    pub open spec fn wf(&self) -> bool {
        names_unique(self@)
    }

    pub fn new() -> (r: Self)
        ensures
            r@.len() == 0,
            r.wf(),
    {
        let r = NetworkDetails { contacted_macs: Vec::new() };
        assert(r@ =~= Seq::<(Seq<u8>, i32)>::empty());
        r
    }

    pub fn len(&self) -> (r: usize)
        ensures
            r == self@.len(),
    {
        self.contacted_macs.len()
    }

    /// The name and count of entry `i`.
    pub fn entry(&self, i: usize) -> (r: (Vec<u8>, i32))
        requires
            i < self@.len(),
        ensures
            r.0@ == self@[i as int].0,
            r.1 == self@[i as int].1,
    {
        let name = crate::fields::copy_bytes(self.contacted_macs[i].0.as_slice());
        (name, self.contacted_macs[i].1)
    }

    pub fn clear(&mut self)
        ensures
            final(self)@.len() == 0,
            final(self).wf(),
    {
        self.contacted_macs = Vec::new();
        assert(self@ =~= Seq::<(Seq<u8>, i32)>::empty());
    }

    /// Adds `count` contacts with `name`.
    pub fn add(&mut self, name: Vec<u8>, count: i32)
        requires
            old(self).wf(),
        ensures
            final(self)@ == add_contact(old(self)@, name@, count),
            final(self).wf(),
    {
        let ghost e = self@;
        let n = self.contacted_macs.len();
        let mut i: usize = 0;
        while i < n
            invariant
                n == self.contacted_macs@.len(),
                e == self@,
                e == old(self)@,
                names_unique(e),
                i <= n,
                forall|j: int| 0 <= j < i ==> e[j].0 != name@,
            decreases n - i,
        {
            if crate::text::bytes_eq(self.contacted_macs[i].0.as_slice(), name.as_slice()) {
                let old_count = self.contacted_macs[i].1;
                let key = crate::fields::copy_bytes(name.as_slice());
                let ghost prev = self.contacted_macs@;
                self.contacted_macs.set(i, (key, old_count.wrapping_add(count)));
                proof {
                    assert(e[i as int].0 == name@);
                    assert(e[i as int].1 == old_count);
                    assert(self.contacted_macs@ == prev.update(i as int, (key, old_count.wrapping_add(count))));
                    assert(exists|j: int| 0 <= j < e.len() && (#[trigger] e[j]).0 == name@);
                    assert forall|j: int| 0 <= j < e.len() && j != i implies e[j].0 != name@ by {
                        if j < i {
                        } else {
                            assert(e[i as int].0 != e[j].0);
                        }
                    }
                    assert(self@ =~= add_contact(e, name@, count));
                    assert(names_unique(self@)) by {
                        assert forall|a: int, b: int| 0 <= a < b < self@.len() implies (#[trigger] self@[a]).0 != (#[trigger] self@[b]).0 by {
                            assert(self@[a].0 == e[a].0);
                            assert(self@[b].0 == e[b].0);
                        }
                    }
                }
                return;
            }
            i += 1;
        }
        let ghost prev = self.contacted_macs@;
        self.contacted_macs.push((name, count));
        proof {
            assert(self@ =~= e.push((name@, count)));
            assert(!(exists|j: int| 0 <= j < e.len() && (#[trigger] e[j]).0 == name@));
        }
    }

    /// Adds every row in use of the loader's table, in order; equal names
    /// add up.
    pub fn merge_network_info(&mut self, network_info: &NetworkInfo)
        requires
            old(self).wf(),
            network_info.wf(),
        ensures
            final(self)@ == merged(old(self)@, network_info, network_info.rows() as int),
            final(self).wf(),
    {
        let size = network_info.mac_contacts.current_size;
        let rows: usize = if (size as usize) < MAX_NETWORK_RECORDS {
            size as usize
        } else {
            MAX_NETWORK_RECORDS
        };
        let mut i: usize = 0;
        while i < rows
            invariant
                network_info.wf(),
                rows == network_info.rows(),
                i <= rows,
                self.wf(),
                self@ == merged(old(self)@, network_info, i as int),
            decreases rows - i,
        {
            let name = crate::report::name_before_nul(&network_info.mac_contacts.names[i]);
            let count = network_info.mac_contacts.counts[i] as i32;
            self.add(name, count);
            i += 1;
        }
    }
}

/// What the host reports about one network interface.
pub struct InterfaceInfo {
    pub up: bool,
    pub running: bool,
    pub loopback: bool,
    pub ipv4: Option<[u8; 4]>,
    pub mac: Option<[u8; 6]>,
}

/// An interface that can carry the agent's traffic: up, running, not the
/// loopback, with an IPv4 address outside 169.254.0.0/16.
pub open spec fn is_active(i: InterfaceInfo) -> bool {
    i.up && i.running && !i.loopback && i.ipv4 is Some && !(i.ipv4.unwrap()@[0] == 169
        && i.ipv4.unwrap()@[1] == 254)
}

/// The first active interface.
pub fn select_active_interface(ifaces: &Vec<InterfaceInfo>) -> (r: Option<usize>)
    ensures
        r.is_some() ==> r.unwrap() < ifaces@.len() && is_active(ifaces@[r.unwrap() as int])
            && forall|j: int| 0 <= j < r.unwrap() ==> !is_active(#[trigger] ifaces@[j]),
        r.is_none() ==> forall|j: int| 0 <= j < ifaces@.len() ==> !is_active(#[trigger] ifaces@[j]),
{
    let mut i: usize = 0;
    while i < ifaces.len()
        invariant
            i <= ifaces@.len(),
            forall|j: int| 0 <= j < i ==> !is_active(#[trigger] ifaces@[j]),
        decreases ifaces@.len() - i,
    {
        let f = &ifaces[i];
        if f.up && f.running && !f.loopback {
            match f.ipv4 {
                Some(a) => {
                    if !(a[0] == 169 && a[1] == 254) {
                        return Some(i);
                    }
                },
                None => {},
            }
        }
        i += 1;
    }
    None
}

/// Four octets, dotted.
pub open spec fn octets_text(a: Seq<u8>) -> Seq<char> {
    dec_text(a[0]) + "."@ + dec_text(a[1]) + "."@ + dec_text(a[2]) + "."@ + dec_text(a[3])
}

pub fn octets_to_string(a: &[u8; 4]) -> (r: String)
    ensures
        r@ == octets_text(a@),
{
    let mut s = String::new();
    crate::report::append_dec(&mut s, a[0]);
    s.append(".");
    crate::report::append_dec(&mut s, a[1]);
    s.append(".");
    crate::report::append_dec(&mut s, a[2]);
    s.append(".");
    crate::report::append_dec(&mut s, a[3]);
    assert(s@ =~= octets_text(a@));
    s
}

/// The identity a heartbeat carries.
pub struct HostIdentity {
    pub device_name: String,
    pub os_details: String,
    pub ip_address: String,
    pub mac_address: String,
}

impl HostIdentity {
    /// The identity before anything is known of the host.
    pub fn unknown() -> (r: HostIdentity)
        ensures
            r.device_name@ == "Unknown Device"@,
            r.os_details@ == "Unknown OS"@ + " "@ + "Unknown Version"@,
            r.ip_address@ == "0.0.0.0"@,
            r.mac_address@ == "00:00:00:00:00:00"@,
    {
        let mut os = String::from_str("Unknown OS");
        os.append(" ");
        os.append("Unknown Version");
        HostIdentity {
            device_name: String::from_str("Unknown Device"),
            os_details: os,
            ip_address: String::from_str("0.0.0.0"),
            mac_address: String::from_str("00:00:00:00:00:00"),
        }
    }

    /// The identity from what the host reported: missing names take their
    /// defaults, and the address is the first active interface's.
    pub fn from_probe(
        host_name: Option<String>,
        os_name: Option<String>,
        os_version: Option<String>,
        ifaces: &Vec<InterfaceInfo>,
    ) -> (r: HostIdentity)
        ensures
            r.device_name@ == (match host_name {
                Some(h) => h@,
                None => "Unknown Device"@,
            }),
            r.os_details@ == (match os_name {
                Some(n) => n@,
                None => "Unknown OS"@,
            }) + " "@ + (match os_version {
                Some(v) => v@,
                None => "Unknown Version"@,
            }),
            (exists|k: int|
                0 <= k < ifaces@.len() && is_active(#[trigger] ifaces@[k]) && (forall|j: int|
                    0 <= j < k ==> !is_active(#[trigger] ifaces@[j])) && r.ip_address@
                    == octets_text(ifaces@[k].ipv4.unwrap()@) && r.mac_address@ == match ifaces@[k].mac {
                    Some(m) => mac_text(m@),
                    None => "00:00:00:00:00:00"@,
                }) || ((forall|j: int| 0 <= j < ifaces@.len() ==> !is_active(#[trigger] ifaces@[j]))
                && r.ip_address@ == "0.0.0.0"@ && r.mac_address@ == "00:00:00:00:00:00"@),
    {
        let device_name = match host_name {
            Some(h) => h,
            None => String::from_str("Unknown Device"),
        };
        let mut os_details = match os_name {
            Some(n) => n,
            None => String::from_str("Unknown OS"),
        };
        os_details.append(" ");
        match os_version {
            Some(v) => os_details.append(v.as_str()),
            None => os_details.append("Unknown Version"),
        }
        let (ip_address, mac_address) = match select_active_interface(ifaces) {
            Some(k) => {
                let f = &ifaces[k];
                let ip = match f.ipv4 {
                    Some(a) => octets_to_string(&a),
                    None => String::from_str("0.0.0.0"),
                };
                let mac = match f.mac {
                    Some(m) => mac_to_string(&m),
                    None => String::from_str("00:00:00:00:00:00"),
                };
                (ip, mac)
            },
            None => (String::from_str("0.0.0.0"), String::from_str("00:00:00:00:00:00")),
        };
        HostIdentity { device_name, os_details, ip_address, mac_address }
    }
}

} // verus!
