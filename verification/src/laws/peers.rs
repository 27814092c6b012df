//! Laws of the peers found.

use crate::peers::Peers;
use crate::text;
use vstd::prelude::*;

verus! {

/// At the start nobody is listed.
pub proof fn nobody_is_listed_at_the_start(p: &Peers, r: Vec<(String, String)>)
    requires
        call_ensures(Peers::new, (), *p),
        call_ensures(Peers::found, (p,), r),
    ensures
        r@.len() == 0,
        forall|ip: Seq<char>| !#[trigger] p@.dom().contains(ip),
{
    if r@.len() > 0 {
        assert(p@.dom().contains(r@[0].0@));
    }
}

/// An announcement is noted with its name and its time, whatever was known of the
/// address before; of every other address the same is known as before.
pub proof fn announcement_is_noted(p: &mut Peers, ip: String, name: String, now: u128)
    requires
        call_ensures(Peers::insert, (p, ip, name, now), ()),
    ensures
        final(p)@.dom().contains(ip@),
        final(p)@[ip@].name == name@,
        final(p)@[ip@].seen == now,
        forall|k: Seq<char>| #[trigger]
            final(p)@.dom().contains(k) && k != ip@ ==> old(p)@.dom().contains(k) && final(p)@[k]
                == old(p)@[k],
        forall|k: Seq<char>| #[trigger]
            old(p)@.dom().contains(k) ==> final(p)@.dom().contains(k),
{
}

/// Those and only those are forgotten of whom nothing was heard for eight seconds
/// or more.
pub proof fn silence_of_eight_seconds_is_forgotten(p: &mut Peers, now: u128, ip: Seq<char>)
    requires
        call_ensures(Peers::expire, (p, now), ()),
    ensures
        final(p)@.dom().contains(ip) <==> old(p)@.dom().contains(ip) && (now as int) < old(p)@[ip].seen + 8_000_000_000,
        final(p)@.dom().contains(ip) ==> final(p)@[ip].name == old(p)@[ip].name && final(p)@[ip].seen == old(p)@[ip].seen,
{
}

/// Every known peer is listed, with its address and its name, and nobody else.
pub proof fn known_peers_are_listed(p: &Peers, r: Vec<(String, String)>)
    requires
        call_ensures(Peers::found, (p,), r),
    ensures
        forall|i: int|
            0 <= i < r@.len() ==> p@.dom().contains((#[trigger] r@[i]).0@) && p@[r@[i].0@].name
                == r@[i].1@,
        forall|ip: Seq<char>| #[trigger]
            p@.dom().contains(ip) ==> exists|i: int|
                0 <= i < r@.len() && (#[trigger] r@[i]).0@ == ip && r@[i].1@ == p@[ip].name,
{
}

/// Nobody is listed twice. Of two peers the one whose address has the smaller
/// character at the first difference, or ends there, comes first.
pub proof fn listed_addresses_ascend(p: &Peers, r: Vec<(String, String)>, i: int, j: int)
    requires
        call_ensures(Peers::found, (p,), r),
        0 <= i < j < r@.len(),
    ensures
        r@[i].0@ != r@[j].0@,
        exists|k: int|
            {
                &&& 0 <= k <= r@[i].0@.len()
                &&& k < r@[j].0@.len()
                &&& #[trigger] r@[i].0@.subrange(0, k) == r@[j].0@.subrange(0, k)
                &&& k == r@[i].0@.len() || (r@[i].0@[k] as int) < (r@[j].0@[k] as int)
            },
{
    let k = first_difference(r@[i].0@, r@[j].0@);
    assert(r@[i].0@.subrange(0, k) == r@[j].0@.subrange(0, k));
}

/// Where a string first differs from one that it precedes.
proof fn first_difference(a: Seq<char>, b: Seq<char>) -> (k: int)
    requires
        text::precedes(a, b),
    ensures
        0 <= k <= a.len(),
        k < b.len(),
        a.subrange(0, k) == b.subrange(0, k),
        k == a.len() || (a[k] as int) < (b[k] as int),
    decreases a.len(),
{
    if a.len() == 0 || a[0] != b[0] {
        assert(a.subrange(0, 0) =~= b.subrange(0, 0));
        0
    } else {
        let k = first_difference(a.drop_first(), b.drop_first());
        let x = a.drop_first();
        let y = b.drop_first();
        assert forall|i: int| 0 <= i < k + 1 implies a[i] == b[i] by {
            if i > 0 {
                assert(x.subrange(0, k)[i - 1] == y.subrange(0, k)[i - 1]);
            }
        }
        assert(a.subrange(0, k + 1) =~= b.subrange(0, k + 1));
        k + 1
    }
}

/// A peer is listed, under the name it gave last, until eight seconds after its
/// last announcement, and no longer.
pub proof fn announced_peer_is_listed_for_eight_seconds(
    p: &mut Peers,
    ip: String,
    name: String,
    seen: u128,
    q: &mut Peers,
    now: u128,
    r: Vec<(String, String)>,
)
    requires
        call_ensures(Peers::insert, (p, ip, name, seen), ()),
        *old(q) == *final(p),
        call_ensures(Peers::expire, (q, now), ()),
        call_ensures(Peers::found, (&*final(q),), r),
    ensures
        (exists|i: int| 0 <= i < r@.len() && (#[trigger] r@[i]).0@ == ip@) <==> (now as int) < seen
            + 8_000_000_000,
        forall|i: int|
            0 <= i < r@.len() && (#[trigger] r@[i]).0@ == ip@ ==> r@[i].1@ == name@,
{
    assert(final(p)@.dom().contains(ip@));
    if (now as int) < seen + 8_000_000_000 {
        assert(final(q)@.dom().contains(ip@));
    }
    if exists|i: int| 0 <= i < r@.len() && (#[trigger] r@[i]).0@ == ip@ {
        assert(final(q)@.dom().contains(ip@));
    }
}

/// An announcement leaves the other peers alone: who is listed after it, now and
/// after any silence, is who would have been listed without it, but for the address
/// that was announced.
pub proof fn announcement_leaves_the_others(
    p: &mut Peers,
    ip: String,
    name: String,
    seen: u128,
    before: &mut Peers,
    after: &mut Peers,
    now: u128,
    r: Vec<(String, String)>,
    s: Vec<(String, String)>,
    i: int,
)
    requires
        call_ensures(Peers::insert, (p, ip, name, seen), ()),
        *old(before) == *old(p),
        *old(after) == *final(p),
        call_ensures(Peers::expire, (before, now), ()),
        call_ensures(Peers::expire, (after, now), ()),
        call_ensures(Peers::found, (&*final(before),), r),
        call_ensures(Peers::found, (&*final(after),), s),
    ensures
        0 <= i < r@.len() && r@[i].0@ != ip@ ==> exists|j: int|
            0 <= j < s@.len() && (#[trigger] s@[j]).0@ == r@[i].0@ && s@[j].1@ == r@[i].1@,
        0 <= i < s@.len() && s@[i].0@ != ip@ ==> exists|j: int|
            0 <= j < r@.len() && (#[trigger] r@[j]).0@ == s@[i].0@ && r@[j].1@ == s@[i].1@,
{
    if 0 <= i < r@.len() && r@[i].0@ != ip@ {
        let k = r@[i].0@;
        assert(final(before)@.dom().contains(k));
        assert(final(after)@.dom().contains(k));
    }
    if 0 <= i < s@.len() && s@[i].0@ != ip@ {
        let k = s@[i].0@;
        assert(final(after)@.dom().contains(k));
        assert(final(before)@.dom().contains(k));
    }
}

} // verus!
