//! The addresses of this machine, to tell them to a peer.

use crate::text;
use vstd::prelude::*;
use vstd::string::*;

verus! {

/// An address of a network interface.
pub enum Address {
    /// The four numbers of an IPv4 address.
    V4([u8; 4]),
    /// An IPv6 address.
    V6,
}

/// An IPv4 address in the common notation.
pub open spec fn dotted(o: Seq<u8>) -> Seq<char> {
    text::decimal(o[0] as nat) + "."@ + text::decimal(o[1] as nat) + "."@ + text::decimal(
        o[2] as nat,
    ) + "."@ + text::decimal(o[3] as nat)
}

/// An IPv4 address that is neither a loopback address (127.0.0.0/8) nor a
/// link-local one (169.254.0.0/16).
pub open spec fn is_reachable(o: Seq<u8>) -> bool {
    o[0] != 127 && !(o[0] == 169 && o[1] == 254)
}

/// Whether `a` is an address to tell, written as `s`.
pub open spec fn tells(a: Address, s: Seq<char>) -> bool {
    match a {
        Address::V4(o) => is_reachable(o@) && s == dotted(o@),
        Address::V6 => false,
    }
}

/// The reachable IPv4 addresses in their order, each at its first place only.
pub open spec fn local_ips(addrs: Seq<Address>) -> Seq<Seq<char>>
    decreases addrs.len(),
{
    if addrs.len() == 0 {
        Seq::empty()
    } else {
        let out = local_ips(addrs.drop_last());
        match addrs.last() {
            Address::V4(o) => if is_reachable(o@) && !out.contains(dotted(o@)) {
                out.push(dotted(o@))
            } else {
                out
            },
            Address::V6 => out,
        }
    }
}

/// Writes an IPv4 address in the common notation.
fn to_dotted(o: &[u8; 4]) -> (s: String)
    ensures
        s@ == dotted(o@),
{
    let mut s = text::to_decimal(o[0] as u64);
    s.append(".");
    s.append(text::to_decimal(o[1] as u64).as_str());
    s.append(".");
    s.append(text::to_decimal(o[2] as u64).as_str());
    s.append(".");
    s.append(text::to_decimal(o[3] as u64).as_str());
    s
}

/// The IPv4 addresses to tell to a peer: without loopback and link-local ones,
/// and none twice.
pub fn list_local_ips(addrs: &Vec<Address>) -> (out: Vec<String>)
    ensures
        text::views(out@) == local_ips(addrs@),
{
    let mut out: Vec<String> = Vec::new();
    let mut i: usize = 0;
    assert(text::views(out@) =~= local_ips(addrs@.take(0)));
    while i < addrs.len()
        invariant
            i <= addrs@.len(),
            text::views(out@) == local_ips(addrs@.take(i as int)),
        decreases addrs.len() - i,
    {
        let ghost before = out@;
        proof {
            assert(addrs@.take(i + 1).drop_last() =~= addrs@.take(i as int));
            assert(addrs@.take(i + 1).last() == addrs@[i as int]);
        }
        match &addrs[i] {
            Address::V4(o) => {
                if o[0] != 127 && !(o[0] == 169 && o[1] == 254) {
                    let s = to_dotted(o);
                    if !text::is_among(&out, &s) {
                        out.push(s);
                        assert(text::views(out@) =~= text::views(before).push(s@));
                    }
                }
            },
            Address::V6 => {},
        }
        i = i + 1;
    }
    assert(addrs@.take(i as int) =~= addrs@);
    out
}

/// No address is told twice.
pub proof fn no_address_is_told_twice(addrs: Seq<Address>)
    ensures
        local_ips(addrs).no_duplicates(),
    decreases addrs.len(),
{
    if addrs.len() > 0 {
        no_address_is_told_twice(addrs.drop_last());
    }
}

/// What is told are the reachable IPv4 addresses, all of them and no others.
pub proof fn reachable_addresses_are_told(addrs: Seq<Address>, s: Seq<char>)
    ensures
        local_ips(addrs).contains(s) <==> exists|i: int|
            0 <= i < addrs.len() && tells(#[trigger] addrs[i], s),
    decreases addrs.len(),
{
    if addrs.len() > 0 {
        let init = addrs.drop_last();
        let out = local_ips(init);
        reachable_addresses_are_told(init, s);
        let all = local_ips(addrs);
        if all.contains(s) {
            let k = choose|k: int| 0 <= k < all.len() && all[k] == s;
            if k < out.len() {
                assert(out[k] == s);
                let i = choose|i: int| 0 <= i < init.len() && tells(#[trigger] init[i], s);
                assert(tells(addrs[i], s));
            } else {
                assert(tells(addrs[addrs.len() - 1], s));
            }
        }
        if exists|i: int| 0 <= i < addrs.len() && tells(#[trigger] addrs[i], s) {
            let i = choose|i: int| 0 <= i < addrs.len() && tells(#[trigger] addrs[i], s);
            if i < init.len() {
                assert(tells(init[i], s));
                let k = choose|k: int| 0 <= k < out.len() && out[k] == s;
                assert(all[k] == s);
            } else if out.contains(s) {
                assert(all == out);
            } else {
                assert(all.last() == s);
            }
        }
    }
}

} // verus!
