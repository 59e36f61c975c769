//! Network addresses as plain values.
use vstd::prelude::*;

verus! {

/// An IP address: the 32 bits of an IPv4 address, or the 128 bits of an IPv6 address,
/// most significant first (as `u32::from(Ipv4Addr)` and `u128::from(Ipv6Addr)` give them).
#[derive(Debug, Clone, Copy, PartialEq, Eq, Hash, Structural)]
pub enum IpAddress {
    V4(u32),
    V6(u128),
}

/// An address and a port.
#[derive(Debug, Clone, Copy, PartialEq, Eq, Hash, Structural)]
pub struct Endpoint {
    pub addr: IpAddress,
    pub port: u16,
}

impl Endpoint {
    pub fn new(addr: IpAddress, port: u16) -> (r: Self)
        ensures
            r.addr == addr,
            r.port == port,
    {
        Endpoint { addr, port }
    }
}

/// An IPv6 address in `fe80::/10`: its first ten bits are `1111111010`.
pub open spec fn is_link_local_v6_spec(v: u128) -> bool {
    v / 0x40_0000_0000_0000_0000_0000_0000_0000 == 0x3fa
}

/// `::1`.
pub open spec fn is_loopback_v6_spec(v: u128) -> bool {
    v == 1
}

/// Whether an IPv6 address is link-local (`fe80::/10`).
pub fn is_link_local_v6(v: u128) -> (r: bool)
    ensures
        r == is_link_local_v6_spec(v),
{
    v / 0x40_0000_0000_0000_0000_0000_0000_0000 == 0x3fa
}

/// A global IPv6 address: neither loopback nor link-local.
pub open spec fn is_global_v6(a: IpAddress) -> bool {
    match a {
        IpAddress::V6(s) => !is_loopback_v6_spec(s) && !is_link_local_v6_spec(s),
        IpAddress::V4(_) => false,
    }
}

/// An IPv4 address.
pub open spec fn is_v4(a: IpAddress) -> bool {
    a is V4
}

/// Index of the first IPv4 address.
pub open spec fn first_v4(a: Seq<IpAddress>) -> Option<int>
    decreases a.len(),
{
    if a.len() == 0 {
        None
    } else if is_v4(a[0]) {
        Some(0)
    } else {
        match first_v4(a.drop_first()) {
            Some(i) => Some(i + 1),
            None => None,
        }
    }
}

/// Index of the first global IPv6 address.
pub open spec fn first_global_v6(a: Seq<IpAddress>) -> Option<int>
    decreases a.len(),
{
    if a.len() == 0 {
        None
    } else if is_global_v6(a[0]) {
        Some(0)
    } else {
        match first_global_v6(a.drop_first()) {
            Some(i) => Some(i + 1),
            None => None,
        }
    }
}

/// The address to connect to: the first IPv4 address, else the first global IPv6 address,
/// else the first address.
pub open spec fn best_address_index(a: Seq<IpAddress>) -> Option<int> {
    match first_v4(a) {
        Some(i) => Some(i),
        None => match first_global_v6(a) {
            Some(i) => Some(i),
            None => if a.len() > 0 {
                Some(0)
            } else {
                None
            },
        },
    }
}

pub proof fn lemma_first_v4(a: Seq<IpAddress>, i: int)
    requires
        0 <= i <= a.len(),
        forall|j: int| 0 <= j < i ==> !is_v4(#[trigger] a[j]),
        i == a.len() || is_v4(a[i]),
    ensures
        i < a.len() ==> first_v4(a) == Some(i),
        i == a.len() ==> first_v4(a) is None,
    decreases i,
{
    if i > 0 {
        assert forall|j: int| 0 <= j < i - 1 implies !is_v4(#[trigger] a.drop_first()[j]) by {
            assert(a.drop_first()[j] == a[j + 1]);
        }
        lemma_first_v4(a.drop_first(), i - 1);
    }
}

proof fn lemma_first_global_v6(a: Seq<IpAddress>, i: int)
    requires
        0 <= i <= a.len(),
        forall|j: int| 0 <= j < i ==> !is_global_v6(#[trigger] a[j]),
        i == a.len() || is_global_v6(a[i]),
    ensures
        i < a.len() ==> first_global_v6(a) == Some(i),
        i == a.len() ==> first_global_v6(a) is None,
    decreases i,
{
    if i > 0 {
        assert forall|j: int| 0 <= j < i - 1 implies !is_global_v6(#[trigger] a.drop_first()[j]) by {
            assert(a.drop_first()[j] == a[j + 1]);
        }
        lemma_first_global_v6(a.drop_first(), i - 1);
    }
}

/// Picks the address to connect to: IPv4 first, then global IPv6, then whatever comes first.
pub fn select_best_address(addresses: &[IpAddress]) -> (r: Option<usize>)
    ensures
        match r {
            Some(i) => best_address_index(addresses@) == Some(i as int) && i < addresses@.len(),
            None => best_address_index(addresses@) is None,
        },
{
    let ghost a = addresses@;
    let mut i: usize = 0;
    while i < addresses.len()
        invariant
            i <= a.len(),
            a == addresses@,
            forall|j: int| 0 <= j < i ==> !is_v4(#[trigger] a[j]),
        decreases a.len() - i,
    {
        if let IpAddress::V4(_) = addresses[i] {
            proof {
                lemma_first_v4(a, i as int);
            }
            return Some(i);
        }
        i += 1;
    }
    proof {
        lemma_first_v4(a, i as int);
    }
    let mut k: usize = 0;
    while k < addresses.len()
        invariant
            k <= a.len(),
            a == addresses@,
            first_v4(a) is None,
            forall|j: int| 0 <= j < k ==> !is_global_v6(#[trigger] a[j]),
        decreases a.len() - k,
    {
        let found = match addresses[k] {
            IpAddress::V6(v) => v != 1 && !is_link_local_v6(v),
            IpAddress::V4(_) => false,
        };
        if found {
            proof {
                lemma_first_global_v6(a, k as int);
            }
            return Some(k);
        }
        k += 1;
    }
    proof {
        lemma_first_global_v6(a, k as int);
    }
    if addresses.len() > 0 {
        Some(0)
    } else {
        None
    }
}

} // verus!
