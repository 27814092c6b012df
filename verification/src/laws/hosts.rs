//! Laws of the addresses of this machine.

use crate::hosts;
use crate::hosts::Address;
use crate::text;
use vstd::prelude::*;

verus! {

/// The common notation of an IPv4 address: four numerals with dots between them.
proof fn notation(o: Seq<u8>)
    ensures
        hosts::dotted(o) == text::decimal(o[0] as nat) + seq!['.'] + text::decimal(o[1] as nat)
            + seq!['.'] + text::decimal(o[2] as nat) + seq!['.'] + text::decimal(o[3] as nat),
{
    reveal_strlit(".");
    assert("."@ =~= seq!['.']);
}

/// Every IPv4 address of the machine is told, written as four numerals with dots
/// between them, but for those that start with 127 or with 169 and 254.
pub proof fn address_is_told(addrs: &Vec<Address>, out: Vec<String>, i: int, o: [u8; 4])
    requires
        call_ensures(hosts::list_local_ips, (addrs,), out),
        0 <= i < addrs@.len(),
        addrs@[i] == Address::V4(o),
        o@[0] != 127,
        o@[0] != 169 || o@[1] != 254,
    ensures
        exists|k: int|
            0 <= k < out@.len() && (#[trigger] out@[k])@ == text::decimal(o@[0] as nat) + seq!['.']
                + text::decimal(o@[1] as nat) + seq!['.'] + text::decimal(o@[2] as nat) + seq!['.']
                + text::decimal(o@[3] as nat),
{
    notation(o@);
    let s = hosts::dotted(o@);
    hosts::reachable_addresses_are_told(addrs@, s);
    assert(hosts::tells(addrs@[i], s));
    let k = choose|k: int| 0 <= k < text::views(out@).len() && text::views(out@)[k] == s;
    assert(out@[k]@ == s);
}

/// Nothing else is told, and nothing twice.
pub proof fn only_addresses_are_told(addrs: &Vec<Address>, out: Vec<String>, k: int)
    requires
        call_ensures(hosts::list_local_ips, (addrs,), out),
        0 <= k < out@.len(),
    ensures
        exists|i: int|
            0 <= i < addrs@.len() && (#[trigger] addrs@[i] matches Address::V4(o) && o@[0] != 127
                && (o@[0] != 169 || o@[1] != 254) && out@[k]@ == text::decimal(o@[0] as nat)
                + seq!['.'] + text::decimal(o@[1] as nat) + seq!['.'] + text::decimal(o@[2] as nat)
                + seq!['.'] + text::decimal(o@[3] as nat)),
        forall|j: int| 0 <= j < k ==> (#[trigger] out@[j])@ != out@[k]@,
{
    let s = out@[k]@;
    let told = text::views(out@);
    assert(told[k] == s);
    hosts::reachable_addresses_are_told(addrs@, s);
    hosts::no_address_is_told_twice(addrs@);
    let i = choose|i: int| 0 <= i < addrs@.len() && hosts::tells(#[trigger] addrs@[i], s);
    match addrs@[i] {
        Address::V4(o) => {
            notation(o@);
        },
        Address::V6 => {},
    }
    assert forall|j: int| 0 <= j < k implies (#[trigger] out@[j])@ != out@[k]@ by {
        assert(told[j] == out@[j]@);
    }
}

/// The addresses are told in their order: one more address of the machine adds one at
/// the end, or none where it is told already or not to be told.
pub proof fn one_more_address_comes_last(
    addrs: &Vec<Address>,
    more: &Vec<Address>,
    a: Address,
    out: Vec<String>,
    out_more: Vec<String>,
)
    requires
        call_ensures(hosts::list_local_ips, (addrs,), out),
        call_ensures(hosts::list_local_ips, (more,), out_more),
        more@ == addrs@.push(a),
    ensures
        out@.len() <= out_more@.len() <= out@.len() + 1,
        forall|k: int| 0 <= k < out@.len() ==> (#[trigger] out_more@[k])@ == out@[k]@,
{
    let told = text::views(out@);
    let told_more = text::views(out_more@);
    assert(told.len() == out@.len());
    assert(told_more.len() == out_more@.len());
    assert(more@.drop_last() =~= addrs@);
    assert forall|k: int| 0 <= k < out@.len() implies (#[trigger] out_more@[k])@ == out@[k]@ by {
        assert(told[k] == out@[k]@);
        assert(told_more[k] == out_more@[k]@);
    }
}

/// Where the machine has no address, none is told.
pub proof fn no_address_none_told(addrs: &Vec<Address>, out: Vec<String>)
    requires
        call_ensures(hosts::list_local_ips, (addrs,), out),
        addrs@.len() == 0,
    ensures
        out@.len() == 0,
{
    assert(text::views(out@).len() == out@.len());
}

} // verus!
