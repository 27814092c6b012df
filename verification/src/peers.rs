//! The peers that have announced themselves on the network.

use crate::text;
use vstd::prelude::*;

verus! {

/// How long a peer is listed without a new announcement, in nanoseconds: 8 s.
pub const PEER_TTL: u128 = 8_000_000_000;

/// A peer and when it was last heard of, in nanoseconds since the start.
struct Peer {
    ip: String,
    name: String,
    seen: u128,
}

/// What is known of a peer: its name and when it was last heard of.
pub struct Sighting {
    pub name: Seq<char>,
    pub seen: u128,
}

/// The peers in the order of their addresses, no address twice.
pub struct Peers {
    list: Vec<Peer>,
}

/// The place of an address in a list.
spec fn place(list: Seq<Peer>, ip: Seq<char>) -> int {
    choose|i: int| 0 <= i < list.len() && (#[trigger] list[i]).ip@ == ip
}

/// Whether an address is in a list.
spec fn lists(list: Seq<Peer>, ip: Seq<char>) -> bool {
    exists|i: int| 0 <= i < list.len() && (#[trigger] list[i]).ip@ == ip
}

/// What a list says of its addresses.
spec fn listed(list: Seq<Peer>) -> Map<Seq<char>, Sighting> {
    Map::new(
        |ip: Seq<char>| lists(list, ip),
        |ip: Seq<char>|
            Sighting { name: list[place(list, ip)].name@, seen: list[place(list, ip)].seen },
    )
}

/// The addresses of a list ascend.
spec fn ascends(list: Seq<Peer>) -> bool {
    forall|i: int, j: int|
        0 <= i < j < list.len() ==> text::precedes(
            (#[trigger] list[i]).ip@,
            (#[trigger] list[j]).ip@,
        )
}

/// Each entry of an ascending list is what the list says of its address.
proof fn listed_entry(list: Seq<Peer>, i: int)
    requires
        ascends(list),
        0 <= i < list.len(),
    ensures
        listed(list).dom().contains(list[i].ip@),
        listed(list)[list[i].ip@] == (Sighting { name: list[i].name@, seen: list[i].seen }),
{
    let k = place(list, list[i].ip@);
    assert(lists(list, list[i].ip@));
    text::precedes_is_irreflexive(list[i].ip@);
    assert(k == i);
}

/// How long ago `seen` was at `now`; nothing where it is yet to come.
pub open spec fn age(seen: u128, now: u128) -> u128 {
    if now >= seen {
        (now - seen) as u128
    } else {
        0
    }
}

/// The peers of `m` that were heard of less than `PEER_TTL` before `now`.
pub open spec fn alive(m: Map<Seq<char>, Sighting>, now: u128) -> Map<Seq<char>, Sighting> {
    Map::new(
        |ip: Seq<char>| m.dom().contains(ip) && age(m[ip].seen, now) < PEER_TTL,
        |ip: Seq<char>| m[ip],
    )
}

/// Every peer of `m` is in `r`, with its address and its name.
pub open spec fn lists_all(m: Map<Seq<char>, Sighting>, r: Seq<(String, String)>) -> bool {
    forall|ip: Seq<char>| #[trigger]
        m.dom().contains(ip) ==> exists|i: int|
            0 <= i < r.len() && (#[trigger] r[i]).0@ == ip && r[i].1@ == m[ip].name
}

/// The peers heard of less than `PEER_TTL` before `now`, as a predicate.
spec fn heard(now: u128) -> spec_fn(Peer) -> bool {
    |p: Peer| age(p.seen, now) < PEER_TTL
}

/// What is left of an ascending list ascends.
proof fn filtered_list_ascends(list: Seq<Peer>, now: u128)
    requires
        ascends(list),
    ensures
        ascends(list.filter(heard(now))),
    decreases list.len(),
{
    reveal(Seq::filter);
    if list.len() > 0 {
        let init = list.drop_last();
        filtered_list_ascends(init, now);
        let part = init.filter(heard(now));
        let whole = list.filter(heard(now));
        assert forall|i: int, j: int| 0 <= i < j < whole.len() implies text::precedes(
            (#[trigger] whole[i]).ip@,
            (#[trigger] whole[j]).ip@,
        ) by {
            if j < part.len() {
                assert(whole[i] == part[i] && whole[j] == part[j]);
            } else {
                assert(whole[i] == part[i]);
                assert(part.contains(part[i]));
                init.lemma_filter_contains_rev(heard(now), part[i]);
                let k = choose|k: int| 0 <= k < init.len() && init[k] == part[i];
                assert(list[k] == part[i] && list.last() == whole[j]);
            }
        }
    }
}

/// What is left of a list says what the list said of the peers that are alive.
proof fn filtered_list_is_alive(list: Seq<Peer>, now: u128)
    requires
        ascends(list),
    ensures
        listed(list.filter(heard(now))) == alive(listed(list), now),
{
    let part = list.filter(heard(now));
    let want = alive(listed(list), now);
    filtered_list_ascends(list, now);
    assert forall|k: Seq<char>| #[trigger] listed(part).dom().contains(k) implies
        want.dom().contains(k) && listed(part)[k] == want[k] by {
        let i = place(part, k);
        listed_entry(part, i);
        list.lemma_filter_pred(heard(now), i);
        assert(part.contains(part[i]));
        list.lemma_filter_contains_rev(heard(now), part[i]);
        let j = choose|j: int| 0 <= j < list.len() && list[j] == part[i];
        listed_entry(list, j);
    }
    assert forall|k: Seq<char>| #[trigger] want.dom().contains(k) implies listed(
        part,
    ).dom().contains(k) by {
        let j = place(list, k);
        listed_entry(list, j);
        list.lemma_filter_contains(heard(now), j);
        let i = choose|i: int| 0 <= i < part.len() && part[i] == list[j];
        listed_entry(part, i);
    }
    assert(listed(part) =~= want);
}

impl View for Peers {
    type V = Map<Seq<char>, Sighting>;

    closed spec fn view(&self) -> Map<Seq<char>, Sighting> {
        listed(self.list@)
    }
}

impl Peers {
    #[verifier::type_invariant]
    spec fn well_formed(self) -> bool {
        ascends(self.list@)
    }

    /// Nobody yet.
    pub fn new() -> (p: Self)
        ensures
            p@ == Map::<Seq<char>, Sighting>::empty(),
    {
        let p = Peers { list: Vec::new() };
        assert(p@ =~= Map::<Seq<char>, Sighting>::empty());
        p
    }

    /// Notes that a peer was heard of at `now`.
    pub fn insert(&mut self, ip: String, name: String, now: u128)
        ensures
            final(self)@ == old(self)@.insert(ip@, Sighting { name: name@, seen: now }),
    {
        proof {
            use_type_invariant(&*self);
        }
        let ghost before = self.list@;
        let mut list: Vec<Peer> = Vec::new();
        std::mem::swap(&mut list, &mut self.list);
        let mut p: usize = 0;
        while p < list.len() && text::is_before(list[p].ip.as_str(), ip.as_str())
            invariant
                list@ == before,
                p <= list@.len(),
                forall|i: int| 0 <= i < p ==> text::precedes((#[trigger] list@[i]).ip@, ip@),
            decreases list.len() - p,
        {
            p = p + 1;
        }
        let known = p < list.len() && list[p].ip == ip;
        if known {
            list.remove(p);
        }
        let ghost rest = list@;
        proof {
            if p < before.len() {
                text::precedes_is_total(before[p as int].ip@, ip@);
            }
            assert forall|i: int| p <= i < rest.len() implies text::precedes(
                ip@,
                (#[trigger] rest[i]).ip@,
            ) by {
                if known {
                    assert(rest[i] == before[i + 1]);
                } else {
                    assert(rest[i] == before[i]);
                    if i > p {
                        text::precedes_is_transitive(ip@, before[p as int].ip@, before[i].ip@);
                    }
                }
            }
            assert forall|i: int, j: int| 0 <= i < j < rest.len() implies text::precedes(
                (#[trigger] rest[i]).ip@,
                (#[trigger] rest[j]).ip@,
            ) by {
                let shift: int = if known {
                    1
                } else {
                    0
                };
                let a: int = if i < p {
                    i
                } else {
                    i + shift
                };
                let b: int = if j < p {
                    j
                } else {
                    j + shift
                };
                assert(rest[i] == before[a] && rest[j] == before[b]);
            }
        }
        let peer = Peer { ip, name, seen: now };
        list.insert(p, peer);
        proof {
            let new = list@;
            assert forall|i: int, j: int| 0 <= i < j < new.len() implies text::precedes(
                (#[trigger] new[i]).ip@,
                (#[trigger] new[j]).ip@,
            ) by {
                let a: int = if i < p {
                    i
                } else {
                    i - 1
                };
                let b: int = if j < p {
                    j
                } else {
                    j - 1
                };
                if i == p {
                    assert(new[j] == rest[b]);
                } else if j == p {
                    assert(new[i] == rest[a]);
                    assert(rest[i] == before[i]);
                } else {
                    assert(new[i] == rest[a] && new[j] == rest[b]);
                }
            }
            let want = listed(before).insert(ip@, Sighting { name: name@, seen: now });
            assert forall|k: Seq<char>| listed(new).dom().contains(k) <==> want.dom().contains(
                k,
            ) by {
                if lists(new, k) {
                    let i = place(new, k);
                    if i < p {
                        assert(new[i] == before[i]);
                    } else if i > p {
                        assert(new[i] == rest[i - 1]);
                        if known {
                            assert(rest[i - 1] == before[i]);
                        } else {
                            assert(rest[i - 1] == before[i - 1]);
                        }
                    }
                }
                if k == ip@ {
                    assert(new[p as int].ip@ == ip@);
                } else if lists(before, k) {
                    let i = place(before, k);
                    if i < p {
                        assert(new[i] == before[i]);
                    } else if known {
                        assert(i != p);
                        assert(new[i] == rest[i - 1] && rest[i - 1] == before[i]);
                    } else {
                        assert(new[i + 1] == rest[i] && rest[i] == before[i]);
                    }
                }
            }
            assert forall|k: Seq<char>| #[trigger] listed(new).dom().contains(k) implies listed(
                new,
            )[k] == want[k] by {
                let i = place(new, k);
                listed_entry(new, i);
                if i < p {
                    assert(new[i] == before[i]);
                    listed_entry(before, i);
                } else if i > p {
                    assert(new[i] == rest[i - 1]);
                    if known {
                        assert(rest[i - 1] == before[i]);
                        listed_entry(before, i);
                    } else {
                        assert(rest[i - 1] == before[i - 1]);
                        listed_entry(before, i - 1);
                    }
                }
                text::precedes_is_irreflexive(ip@);
                if i != p {
                    assert(new[i].ip@ != new[p as int].ip@);
                }
            }
            assert(listed(new) =~= want);
        }
        self.list = list;
    }

    /// Forgets the peers that were last heard of `PEER_TTL` or more before `now`.
    pub fn expire(&mut self, now: u128)
        ensures
            final(self)@ == alive(old(self)@, now),
    {
        proof {
            use_type_invariant(&*self);
        }
        let ghost before = self.list@;
        let mut list: Vec<Peer> = Vec::new();
        std::mem::swap(&mut list, &mut self.list);
        let mut left: Vec<Peer> = Vec::new();
        let ghost mut n: int = 0;
        proof {
            reveal(Seq::filter);
            assert(before.skip(0) =~= before);
            assert(left@ =~= before.take(0).filter(heard(now)));
        }
        while list.len() > 0
            invariant
                0 <= n <= before.len(),
                list@ == before.skip(n),
                left@ == before.take(n).filter(heard(now)),
            decreases list.len(),
        {
            let peer = list.remove(0);
            proof {
                reveal(Seq::filter);
                assert(before.take(n + 1).drop_last() =~= before.take(n));
                assert(before.take(n + 1).last() == peer);
                assert(list@ =~= before.skip(n + 1));
                n = n + 1;
            }
            let young = now < peer.seen || now - peer.seen < PEER_TTL;
            if young {
                left.push(peer);
            }
        }
        proof {
            assert(before.take(n) =~= before);
            filtered_list_ascends(before, now);
            filtered_list_is_alive(before, now);
        }
        self.list = left;
    }

    /// The peers, address and name, in the order of their addresses.
    pub fn found(&self) -> (r: Vec<(String, String)>)
        ensures
            forall|i: int, j: int|
                0 <= i < j < r@.len() ==> text::precedes(
                    (#[trigger] r@[i]).0@,
                    (#[trigger] r@[j]).0@,
                ),
            forall|i: int|
                0 <= i < r@.len() ==> self@.dom().contains((#[trigger] r@[i]).0@)
                    && self@[r@[i].0@].name == r@[i].1@,
            forall|ip: Seq<char>| #[trigger]
                self@.dom().contains(ip) ==> exists|i: int|
                    0 <= i < r@.len() && (#[trigger] r@[i]).0@ == ip,
            lists_all(self@, r@),
    {
        proof {
            use_type_invariant(self);
        }
        let mut r: Vec<(String, String)> = Vec::new();
        let mut i: usize = 0;
        while i < self.list.len()
            invariant
                i <= self.list@.len(),
                r@.len() == i,
                forall|k: int|
                    0 <= k < i ==> (#[trigger] r@[k]).0@ == self.list@[k].ip@ && r@[k].1@
                        == self.list@[k].name@,
            decreases self.list.len() - i,
        {
            let peer = &self.list[i];
            r.push((peer.ip.clone(), peer.name.clone()));
            i = i + 1;
        }
        proof {
            let list = self.list@;
            assert forall|k: int| 0 <= k < r@.len() implies self@.dom().contains(
                (#[trigger] r@[k]).0@,
            ) && self@[r@[k].0@].name == r@[k].1@ by {
                listed_entry(list, k);
            }
            assert forall|ip: Seq<char>| #[trigger] self@.dom().contains(ip) implies exists|k: int|
                0 <= k < r@.len() && (#[trigger] r@[k]).0@ == ip by {
                let k = place(list, ip);
                assert(r@[k].0@ == ip);
            }
            assert forall|a: int, b: int| 0 <= a < b < r@.len() implies text::precedes(
                (#[trigger] r@[a]).0@,
                (#[trigger] r@[b]).0@,
            ) by {
                assert(text::precedes(list[a].ip@, list[b].ip@));
            }
        }
        r
    }
}

/// A peer stays listed for as long as it keeps announcing itself: right after
/// an announcement it is alive, under the name it gave.
pub proof fn announced_peer_is_alive(
    m: Map<Seq<char>, Sighting>,
    ip: Seq<char>,
    name: Seq<char>,
    seen: u128,
    now: u128,
)
    requires
        age(seen, now) < PEER_TTL,
    ensures
        alive(m.insert(ip, Sighting { name, seen }), now).dom().contains(ip),
        alive(m.insert(ip, Sighting { name, seen }), now)[ip] == (Sighting { name, seen }),
{
}

/// A peer that has been silent for `PEER_TTL` is not listed.
pub proof fn silent_peer_is_forgotten(m: Map<Seq<char>, Sighting>, ip: Seq<char>, now: u128)
    requires
        m.dom().contains(ip),
        now >= m[ip].seen + PEER_TTL,
    ensures
        !alive(m, now).dom().contains(ip),
{
}

/// Forgetting twice at one time is forgetting once.
pub proof fn expiring_is_idempotent(m: Map<Seq<char>, Sighting>, now: u128)
    ensures
        alive(alive(m, now), now) == alive(m, now),
{
    assert(alive(alive(m, now), now) =~= alive(m, now));
}

} // verus!
