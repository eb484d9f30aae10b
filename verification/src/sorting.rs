//! Hosts in the order of their names, without regard to case.

use crate::ssh::{records, Host, HostRecord};
use crate::text::chars_of;
use vstd::prelude::*;

verus! {

/// The text in lower case.
pub uninterp spec fn lowercase(text: Seq<char>) -> Seq<char>;

/// `str::to_lowercase` of the standard library: the lowercase equivalent of
/// the text, as a new string. It depends on the text alone.
pub assume_specification[ str::to_lowercase ](text: &str) -> (lower: String)
    ensures
        lower@ == lowercase(text@),
;

/// Whether `a` from `from` on stands before `b` from `from` on, or is the
/// same: the first character in which they differ decides, the one with
/// the smaller code first; a text that ends stands before its
/// continuations.
pub open spec fn in_order_from(a: Seq<char>, b: Seq<char>, from: int) -> bool
    decreases a.len() - from,
{
    if from < 0 || from >= a.len() {
        true
    } else if from >= b.len() {
        false
    } else if a[from] == b[from] {
        in_order_from(a, b, from + 1)
    } else {
        a[from] < b[from]
    }
}

/// Whether the text `a` stands before the text `b` or is the same.
pub open spec fn in_order(a: Seq<char>, b: Seq<char>) -> bool {
    in_order_from(a, b, 0)
}

/// Of two texts one stands before the other, or they are the same.
pub proof fn order_is_total(a: Seq<char>, b: Seq<char>, from: int)
    ensures
        in_order_from(a, b, from) || in_order_from(b, a, from),
    decreases a.len() - from,
{
    if 0 <= from < a.len() && from < b.len() {
        if a[from] == b[from] {
            order_is_total(a, b, from + 1);
        }
    }
}

/// What stands before a text stands before all that the text stands before.
pub proof fn order_is_transitive(a: Seq<char>, b: Seq<char>, c: Seq<char>, from: int)
    requires
        in_order_from(a, b, from),
        in_order_from(b, c, from),
    ensures
        in_order_from(a, c, from),
    decreases a.len() - from,
{
    if 0 <= from < a.len() {
        if a[from] == b[from] && b[from] == c[from] {
            order_is_transitive(a, b, c, from + 1);
        }
    }
}

/// The text by which a host is placed: its name in lower case.
pub open spec fn key_of(host: HostRecord) -> Seq<char> {
    lowercase(host.name)
}

/// Whether the name of `a` stands before the name of `b`, or is the same
/// but for case.
pub open spec fn goes_before(a: HostRecord, b: HostRecord) -> bool {
    in_order(key_of(a), key_of(b))
}

/// Where `host` goes in a list that is in order: behind the last host that
/// goes before it, and so behind the hosts that have its name.
pub open spec fn place_of(sorted: Seq<HostRecord>, host: HostRecord) -> int
    decreases sorted.len(),
{
    if sorted.len() == 0 {
        0
    } else if goes_before(sorted.last(), host) {
        sorted.len() as int
    } else {
        place_of(sorted.drop_last(), host)
    }
}

/// The hosts in the order of their names: each host, in the order of the
/// list, is put in its place among the hosts before it.
pub open spec fn sorted_by_name(hosts: Seq<HostRecord>) -> Seq<HostRecord>
    decreases hosts.len(),
{
    if hosts.len() == 0 {
        Seq::empty()
    } else {
        let before = sorted_by_name(hosts.drop_last());
        before.insert(place_of(before, hosts.last()), hosts.last())
    }
}

/// Whether every host of the list goes before the hosts behind it.
pub open spec fn is_ordered(hosts: Seq<HostRecord>) -> bool {
    forall|i: int, j: int|
        0 <= i < j < hosts.len() ==> goes_before(#[trigger] hosts[i], #[trigger] hosts[j])
}

/// The place of a host is behind a host that goes before it, and before
/// the hosts that do not.
proof fn place_is_behind_predecessors(sorted: Seq<HostRecord>, host: HostRecord)
    ensures
        0 <= place_of(sorted, host) <= sorted.len(),
        place_of(sorted, host) > 0 ==> goes_before(sorted[place_of(sorted, host) - 1], host),
        forall|k: int|
            place_of(sorted, host) <= k < sorted.len() ==> !goes_before(
                #[trigger] sorted[k],
                host,
            ),
    decreases sorted.len(),
{
    if sorted.len() > 0 && !goes_before(sorted.last(), host) {
        let shorter = sorted.drop_last();
        place_is_behind_predecessors(shorter, host);
        assert forall|k: int| place_of(sorted, host) <= k < sorted.len() implies !goes_before(
            #[trigger] sorted[k],
            host,
        ) by {
            if k < shorter.len() {
                assert(sorted[k] == shorter[k]);
            }
        }
    }
}

/// A host put in its place in a list that is in order leaves the list in
/// order.
proof fn placing_keeps_order(sorted: Seq<HostRecord>, host: HostRecord)
    requires
        is_ordered(sorted),
    ensures
        is_ordered(sorted.insert(place_of(sorted, host), host)),
{
    let place = place_of(sorted, host);
    let with = sorted.insert(place, host);
    place_is_behind_predecessors(sorted, host);
    assert forall|i: int, j: int| 0 <= i < j < with.len() implies goes_before(
        #[trigger] with[i],
        #[trigger] with[j],
    ) by {
        if j == place {
            assert(with[i] == sorted[i]);
            if i < place - 1 {
                order_is_transitive(key_of(sorted[i]), key_of(sorted[place - 1]), key_of(host), 0);
            }
        } else if i == place {
            assert(with[j] == sorted[j - 1]);
            order_is_total(key_of(sorted[j - 1]), key_of(host), 0);
        } else {
            let from = if i < place {
                i
            } else {
                i - 1
            };
            let to = if j < place {
                j
            } else {
                j - 1
            };
            assert(with[i] == sorted[from]);
            assert(with[j] == sorted[to]);
        }
    }
}

/// The sorted list is in order.
pub proof fn sorted_hosts_are_ordered(hosts: Seq<HostRecord>)
    ensures
        is_ordered(sorted_by_name(hosts)),
    decreases hosts.len(),
{
    if hosts.len() > 0 {
        sorted_hosts_are_ordered(hosts.drop_last());
        placing_keeps_order(sorted_by_name(hosts.drop_last()), hosts.last());
    }
}

/// The sorted list holds the hosts of the list, each as often as the list
/// holds it.
pub proof fn sorted_hosts_are_the_hosts(hosts: Seq<HostRecord>)
    ensures
        sorted_by_name(hosts).to_multiset() == hosts.to_multiset(),
    decreases hosts.len(),
{
    if hosts.len() > 0 {
        let shorter = hosts.drop_last();
        let before = sorted_by_name(shorter);
        sorted_hosts_are_the_hosts(shorter);
        place_is_behind_predecessors(before, hosts.last());
        vstd::seq_lib::to_multiset_insert(before, place_of(before, hosts.last()), hosts.last());
        vstd::seq_lib::to_multiset_build(shorter, hosts.last());
        assert(shorter.push(hosts.last()) == hosts);
        assert(sorted_by_name(hosts) == before.insert(
            place_of(before, hosts.last()),
            hosts.last(),
        ));
        assert(sorted_by_name(hosts).to_multiset() == before.to_multiset().insert(hosts.last()));
        assert(hosts.to_multiset() == shorter.to_multiset().insert(hosts.last()));
    } else {
        assert(hosts == Seq::<HostRecord>::empty());
    }
}

/// A list that is in order stays as it is: hosts with the same name keep
/// their order.
pub proof fn ordered_hosts_stay(hosts: Seq<HostRecord>)
    requires
        is_ordered(hosts),
    ensures
        sorted_by_name(hosts) == hosts,
    decreases hosts.len(),
{
    if hosts.len() > 0 {
        let shorter = hosts.drop_last();
        assert forall|i: int| 0 <= i < shorter.len() implies #[trigger] shorter[i]
            == hosts[i] by {}
        assert(is_ordered(shorter));
        ordered_hosts_stay(shorter);
        if shorter.len() > 0 {
            assert(goes_before(hosts[shorter.len() - 1], hosts[hosts.len() - 1]));
        }
        assert(shorter.insert(shorter.len() as int, hosts.last()) == hosts);
    }
}

/// The text by which `host` is placed.
pub fn name_key(host: &Host) -> (key: Vec<char>)
    ensures
        key@ == key_of(host@),
{
    let lower = host.name.as_str().to_lowercase();
    chars_of(lower.as_str())
}

/// Tells whether the text `a` stands before the text `b` or is the same.
pub fn keys_in_order(a: &Vec<char>, b: &Vec<char>) -> (r: bool)
    ensures
        r == in_order(a@, b@),
{
    let mut i: usize = 0;
    while i < a.len()
        invariant
            i <= a.len(),
            in_order(a@, b@) == in_order_from(a@, b@, i as int),
        decreases a.len() - i,
    {
        if i >= b.len() {
            return false;
        }
        if a[i] != b[i] {
            return a[i] < b[i];
        }
        i += 1;
    }
    true
}

/// Puts the hosts in the order of their names, without regard to case.
/// Hosts with the same name keep the order they had.
pub fn sort_by_name(hosts: Vec<Host>) -> (r: Vec<Host>)
    ensures
        records(r@) == sorted_by_name(records(hosts@)),
{
    let ghost all = records(hosts@);
    let mut rest = hosts;
    let mut sorted: Vec<Host> = Vec::new();
    let ghost mut done: int = 0;
    assert(all.skip(0) == all);
    assert(records(sorted@) == sorted_by_name(all.take(0)));
    while rest.len() > 0
        invariant
            0 <= done <= all.len(),
            records(rest@) == all.skip(done),
            records(sorted@) == sorted_by_name(all.take(done)),
        decreases rest.len(),
    {
        let ghost before = records(sorted@);
        let ghost waiting = rest@;
        proof {
            assert(records(waiting).len() == waiting.len());
            assert(records(waiting)[0] == waiting[0]@);
        }
        let host = rest.remove(0);
        proof {
            assert(host@ == all[done]);
            assert(rest@ == waiting.remove(0));
            assert(records(rest@) == records(waiting).remove(0));
            assert(records(rest@) == all.skip(done + 1));
            assert(all.take(done + 1).drop_last() == all.take(done));
        }
        let key = name_key(&host);
        let mut place: usize = sorted.len();
        let mut found = false;
        proof {
            assert(before.take(place as int) == before);
        }
        while place > 0 && !found
            invariant
                place <= sorted.len(),
                before == records(sorted@),
                key@ == key_of(host@),
                found ==> place > 0 && goes_before(before[place - 1], host@),
                place_of(before, host@) == place_of(before.take(place as int), host@),
            decreases place + (if found { 0int } else { 1int }),
        {
            let other = name_key(&sorted[place - 1]);
            proof {
                assert(before.take(place as int).last() == before[place - 1]);
                assert(before.take(place as int).drop_last() == before.take(place - 1));
            }
            if keys_in_order(&other, &key) {
                found = true;
            } else {
                place -= 1;
            }
        }
        proof {
            if found {
                assert(before.take(place as int).last() == before[place - 1]);
            } else {
                assert(before.take(0).len() == 0);
            }
            assert(place_of(before, host@) == place);
            assert(records(sorted@.insert(place as int, host)) == before.insert(
                place as int,
                host@,
            ));
            done = done + 1;
        }
        sorted.insert(place, host);
    }
    proof {
        assert(all.take(all.len() as int) == all);
    }
    sorted
}

} // verus!
