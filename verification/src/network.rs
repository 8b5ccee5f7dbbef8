//! Local IPv4 addresses offered to the user as listen addresses.
use vstd::prelude::*;
use crate::text::{decimal, push_decimal};

verus! {

/// The address of one network interface.
#[derive(Debug, Clone, Copy)]
pub enum InterfaceAddress {
    /// An IPv4 address, by octets.
    V4([u8; 4]),
    /// An IPv6 address.
    V6,
}

/// An IPv4 address in the loopback range 127.0.0.0/8.
pub open spec fn is_loopback_v4(octets: Seq<u8>) -> bool {
    octets[0] == 127
}

/// Dotted-decimal notation.
pub open spec fn dotted(octets: Seq<u8>) -> Seq<char> {
    decimal(octets[0] as nat) + "."@ + decimal(octets[1] as nat) + "."@ + decimal(octets[2] as nat)
        + "."@ + decimal(octets[3] as nat)
}

/// The dotted-decimal text of each non-loopback IPv4 address among the
/// first `n` interfaces, in order.
pub open spec fn listed_ipv4(addrs: Seq<InterfaceAddress>, n: nat) -> Seq<Seq<char>>
    decreases n,
{
    if n == 0 {
        Seq::empty()
    } else {
        let prev = listed_ipv4(addrs, (n - 1) as nat);
        match addrs[n - 1] {
            InterfaceAddress::V4(o) => if is_loopback_v4(o@) {
                prev
            } else {
                prev.push(dotted(o@))
            },
            InterfaceAddress::V6 => prev,
        }
    }
}

/// `text` is the dotted text of `a`, a non-loopback IPv4 address.
pub open spec fn offers(a: InterfaceAddress, text: Seq<char>) -> bool {
    match a {
        InterfaceAddress::V4(o) => !is_loopback_v4(o@) && text == dotted(o@),
        InterfaceAddress::V6 => false,
    }
}

/// No loopback address is offered: every listed address is the dotted text
/// of a non-loopback IPv4 address of some interface.
pub proof fn law_no_loopback_listed(addrs: Seq<InterfaceAddress>, n: nat)
    requires
        n <= addrs.len(),
    ensures
        forall|k: int|
            #![trigger listed_ipv4(addrs, n)[k]]
            0 <= k < listed_ipv4(addrs, n).len() ==> exists|i: int|
                0 <= i < n && offers(#[trigger] addrs[i], listed_ipv4(addrs, n)[k]),
    decreases n,
{
    if n > 0 {
        law_no_loopback_listed(addrs, (n - 1) as nat);
        let prev = listed_ipv4(addrs, (n - 1) as nat);
        assert forall|k: int|
            #![trigger listed_ipv4(addrs, n)[k]]
            0 <= k < listed_ipv4(addrs, n).len() implies exists|i: int|
            0 <= i < n && offers(#[trigger] addrs[i], listed_ipv4(addrs, n)[k]) by {
            if k < prev.len() {
                let i = choose|i: int| 0 <= i < n - 1 && offers(#[trigger] addrs[i], prev[k]);
                assert(listed_ipv4(addrs, n)[k] == prev[k]);
                assert(offers(addrs[i], listed_ipv4(addrs, n)[k]));
            } else {
                assert(offers(addrs[n - 1], listed_ipv4(addrs, n)[k]));
            }
        }
    }
}

/// An address that is offered as a listen address: an IPv4 address whose
/// first octet is not 127.
pub open spec fn is_offered(a: InterfaceAddress) -> bool {
    match a {
        InterfaceAddress::V4(o) => o@[0] != 127u8,
        InterfaceAddress::V6 => false,
    }
}

/// The dotted text of an IPv4 address (empty for IPv6).
pub open spec fn v4_text(a: InterfaceAddress) -> Seq<char> {
    match a {
        InterfaceAddress::V4(o) => dotted(o@),
        InterfaceAddress::V6 => Seq::empty(),
    }
}

/// How many of the first `n` interfaces have an offered address.
pub open spec fn offered_count(addrs: Seq<InterfaceAddress>, n: nat) -> nat
    decreases n,
{
    if n == 0 {
        0
    } else {
        offered_count(addrs, (n - 1) as nat) + if is_offered(addrs[n - 1]) {
            1nat
        } else {
            0nat
        }
    }
}

/// Nothing but loopback and IPv6 is left out, and order is kept: the list
/// has one entry per IPv4 address whose first octet is not 127, and the
/// address of interface `i` is the entry after those of the offered
/// addresses before it.
pub proof fn law_every_other_ipv4_listed(addrs: Seq<InterfaceAddress>, n: nat)
    requires
        n <= addrs.len(),
    ensures
        listed_ipv4(addrs, n).len() == offered_count(addrs, n),
        forall|i: int|
            0 <= i < n ==> (is_offered(#[trigger] addrs[i])
                ==> offered_count(addrs, i as nat) < listed_ipv4(addrs, n).len()
                && listed_ipv4(addrs, n)[offered_count(addrs, i as nat) as int] == v4_text(addrs[i])),
    decreases n,
{
    if n > 0 {
        law_every_other_ipv4_listed(addrs, (n - 1) as nat);
        let prev = listed_ipv4(addrs, (n - 1) as nat);
        assert forall|i: int|
            0 <= i < n implies (is_offered(#[trigger] addrs[i])
                ==> offered_count(addrs, i as nat) < listed_ipv4(addrs, n).len()
                && listed_ipv4(addrs, n)[offered_count(addrs, i as nat) as int] == v4_text(addrs[i])) by {
            if i < n - 1 && is_offered(addrs[i]) {
                assert(offered_count(addrs, i as nat) < prev.len());
                assert(listed_ipv4(addrs, n)[offered_count(addrs, i as nat) as int]
                    == prev[offered_count(addrs, i as nat) as int]);
            }
        }
    }
}

pub fn format_ipv4(octets: [u8; 4]) -> (r: String)
    ensures
        r@ == dotted(octets@),
{
    let mut s = String::new();
    push_decimal(&mut s, octets[0] as u64);
    s.append(".");
    push_decimal(&mut s, octets[1] as u64);
    s.append(".");
    push_decimal(&mut s, octets[2] as u64);
    s.append(".");
    push_decimal(&mut s, octets[3] as u64);
    proof {
        assert(s@ =~= dotted(octets@));
    }
    s
}

/// Best-effort local IPv4 list: every IPv4 address but loopback ones.
pub fn local_ipv4_list(addrs: &Vec<InterfaceAddress>) -> (r: Vec<String>)
    ensures
        r@.map_values(|s: String| s@) == listed_ipv4(addrs@, addrs@.len()),
{
    let mut out: Vec<String> = Vec::new();
    let mut i: usize = 0;
    while i < addrs.len()
        invariant
            i <= addrs@.len(),
            out@.map_values(|s: String| s@) == listed_ipv4(addrs@, i as nat),
        decreases addrs@.len() - i,
    {
        let ghost before = out@;
        match addrs[i] {
            InterfaceAddress::V4(o) => {
                if o[0] != 127 {
                    out.push(format_ipv4(o));
                    proof {
                        assert(out@.map_values(|s: String| s@) =~= before.map_values(
                            |s: String| s@,
                        ).push(dotted(o@)));
                    }
                }
            },
            InterfaceAddress::V6 => {},
        }
        i = i + 1;
    }
    out
}

} // verus!
