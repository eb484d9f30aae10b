//! Resolving what has been resolved.

use crate::ssh::{block_of, blocks_of, record_of, resolve_spec, HostRecord};
use crate::ssh_config::entries::any_placeholder;
use crate::ssh_config::host::HostView;
use crate::ssh_config::laws::{
    echoed, has_mergeable_pair, is_closable, is_plain_and_named, is_resolved,
    resolved_blocks_are_plain, resolved_blocks_stay, unresolved_blocks_change,
};
use crate::ssh_config::pattern::is_wildcard;
use crate::ssh_config::stages::{is_pattern_block, pipeline};
use crate::ssh_config::EntryType;
use crate::text::has_placeholder;
use vstd::prelude::*;

verus! {

/// A list of resolved hosts is settled when no host of it has both aliases
/// and forwardings, and when no two of the blocks that restate its hosts
/// could be merged: where two of them have the same entries, the later one
/// has `%h` in a value.
pub open spec fn is_settled(hosts: Seq<HostRecord>) -> bool {
    &&& forall|i: int|
        0 <= i < hosts.len() && (#[trigger] hosts[i]).aliases.len() > 0
            ==> hosts[i].local_forwards.len() == 0
    &&& !has_mergeable_pair(blocks_of(hosts))
}

/// The record of the block that restates a host is that host.
pub proof fn record_of_restated(host: HostRecord)
    ensures
        record_of(block_of(host)) == host,
{
    let record = record_of(block_of(host));
    assert(record.aliases == host.aliases);
}

/// A `%h` in the block that restates the record of a block was in that
/// block.
proof fn restating_adds_no_placeholder(block: HostView)
    requires
        any_placeholder(block_of(record_of(block)).entries),
    ensures
        any_placeholder(block.entries),
{
    let restated = block_of(record_of(block)).entries;
    let kind = choose|kind: EntryType| #[trigger]
        restated.contains_key(kind) && has_placeholder(restated[kind]);
    assert(block.entries.contains_key(kind));
}

/// The blocks that restate resolved hosts are plain and named, and they are
/// resolved blocks exactly when the hosts are settled.
proof fn restated_hosts_are_plain(blocks: Seq<HostView>)
    ensures
        is_plain_and_named(blocks_of(resolve_spec(blocks))),
        is_resolved(blocks_of(resolve_spec(blocks))) == is_settled(resolve_spec(blocks)),
{
    let resolved = pipeline(blocks);
    let hosts = resolve_spec(blocks);
    let restated = blocks_of(hosts);
    resolved_blocks_are_plain(blocks);
    assert forall|i: int| 0 <= i < restated.len() implies {
        let block = #[trigger] restated[i];
        &&& is_closable(block)
        &&& !is_pattern_block(block)
        &&& block.entries.contains_key(EntryType::Hostname)
    } by {
        let source = resolved[i];
        let block = restated[i];
        assert(hosts[i] == record_of(source));
        assert(block == block_of(hosts[i]));
        if source.patterns.len() > 0 {
            assert(block.patterns == source.patterns);
        } else {
            assert(block.patterns == seq![Seq::<char>::empty()]);
        }
        if is_pattern_block(block) {
            let index = choose|index: int|
                0 <= index < block.patterns.len() && is_wildcard(#[trigger] block.patterns[index]);
            if source.patterns.len() > 0 {
                assert(is_wildcard(source.patterns[index]));
            }
            assert(false);
        }
        if block.patterns.len() >= 2 && any_placeholder(block.entries) {
            restating_adds_no_placeholder(source);
        }
    }
    assert forall|i: int| 0 <= i < hosts.len() implies (#[trigger] restated[i]).patterns.len()
        == hosts[i].aliases.len() + 1 && restated[i].local_forwards
        == hosts[i].local_forwards by {}
    if is_settled(hosts) {
        assert forall|i: int|
            0 <= i < restated.len() && (#[trigger] restated[i]).patterns.len() >= 2
                implies restated[i].local_forwards.len() == 0 by {
            assert(hosts[i].aliases.len() > 0);
        }
    }
    if is_resolved(restated) {
        assert forall|i: int|
            0 <= i < hosts.len() && (#[trigger] hosts[i]).aliases.len() > 0
                implies hosts[i].local_forwards.len() == 0 by {
            assert(restated[i].patterns.len() >= 2);
        }
    }
}

/// Resolving is idempotent: the blocks that restate the resolved hosts
/// resolve to those same hosts, provided that the resolved list is settled.
pub proof fn resolve_is_idempotent(blocks: Seq<HostView>)
    requires
        is_settled(resolve_spec(blocks)),
    ensures
        resolve_spec(blocks_of(resolve_spec(blocks))) == resolve_spec(blocks),
{
    let hosts = resolve_spec(blocks);
    let restated = blocks_of(hosts);
    restated_hosts_are_plain(blocks);
    resolved_blocks_stay(restated);
    assert forall|i: int| 0 <= i < hosts.len() implies record_of(restated[i]) == hosts[i] by {
        record_of_restated(hosts[i]);
    }
    assert(resolve_spec(restated) == hosts);
}

/// A resolved list that is not settled does not resolve to itself again:
/// where two of the restating blocks could be merged there are fewer hosts
/// afterwards, and else a host with aliases has each of its forwardings
/// several times.
pub proof fn unsettled_hosts_change(blocks: Seq<HostView>)
    requires
        !is_settled(resolve_spec(blocks)),
    ensures
        resolve_spec(blocks_of(resolve_spec(blocks))) != resolve_spec(blocks),
{
    let hosts = resolve_spec(blocks);
    let restated = blocks_of(hosts);
    let again = resolve_spec(restated);
    restated_hosts_are_plain(blocks);
    unresolved_blocks_change(restated);
    if !has_mergeable_pair(restated) {
        let i = choose|i: int|
            0 <= i < restated.len() && (#[trigger] restated[i]).local_forwards.len() < echoed(
                restated[i],
            ).local_forwards.len();
        assert(pipeline(restated)[i] == echoed(restated[i]));
        assert(again[i].local_forwards == echoed(restated[i]).local_forwards);
        assert(hosts[i].local_forwards == restated[i].local_forwards);
    } else {
        assert(again.len() < hosts.len());
    }
}

} // verus!
