//! Laws of the resolution stages.

use super::entries::any_placeholder;
use super::host::HostView;
use super::pattern::is_wildcard;
use super::stages::{
    apply_name_spec, apply_patterns_spec, gathered_forwards, gathered_patterns, has_earlier_twin,
    is_absorbed, is_pattern_block, merge_spec, merged_block, merged_upto, pipeline, single,
    spread_one, spread_spec, targets_resolved, with_inheritance,
};
use super::EntryType;
use vstd::prelude::*;

verus! {

/// Whether `block` came out of spreading `origin`: it has the entries and
/// the forwardings of `origin`, and for patterns either the one pattern at
/// `index` of `origin`, or none if `origin` has none.
spec fn spread_from(block: HostView, origin: HostView, index: int) -> bool {
    if origin.patterns.len() == 0 {
        block == origin
    } else {
        0 <= index < origin.patterns.len() && block == single(origin, index)
    }
}

/// Whether `block` came out of spreading one of `blocks`.
spec fn has_origin(block: HostView, blocks: Seq<HostView>) -> bool {
    exists|i: int, k: int| 0 <= i < blocks.len() && #[trigger] spread_from(block, blocks[i], k)
}

/// Every block of a spread list came out of spreading one of the blocks.
proof fn spread_has_origins(blocks: Seq<HostView>)
    ensures
        forall|p: int|
            0 <= p < spread_spec(blocks).len() ==> has_origin(
                #[trigger] spread_spec(blocks)[p],
                blocks,
            ),
    decreases blocks.len(),
{
    if blocks.len() > 0 {
        let shorter = blocks.drop_last();
        let last = blocks.last();
        spread_has_origins(shorter);
        let before = spread_spec(shorter);
        let all = spread_spec(blocks);
        assert forall|p: int| 0 <= p < all.len() implies has_origin(#[trigger] all[p], blocks) by {
            if p < before.len() {
                assert(all[p] == before[p]);
                assert(has_origin(before[p], shorter));
                let (i, k) = choose|i: int, k: int|
                    0 <= i < shorter.len() && #[trigger] spread_from(before[p], shorter[i], k);
                assert(shorter[i] == blocks[i]);
                assert(spread_from(all[p], blocks[i], k));
            } else {
                let k = p - before.len();
                assert(all[p] == spread_one(last)[k]);
                assert(spread_from(all[p], blocks[blocks.len() - 1], k));
            }
        }
    }
}

/// Gathering over a range goes by the blocks of the range alone.
proof fn gathered_goes_by_range(
    left: Seq<HostView>,
    right: Seq<HostView>,
    entries: Map<EntryType, Seq<char>>,
    from: int,
    upto: int,
)
    requires
        0 <= from,
        upto <= left.len(),
        upto <= right.len(),
        forall|p: int| from <= p < upto ==> left[p] == right[p],
    ensures
        gathered_patterns(left, entries, from, upto) == gathered_patterns(
            right,
            entries,
            from,
            upto,
        ),
        gathered_forwards(left, entries, from, upto) == gathered_forwards(
            right,
            entries,
            from,
            upto,
        ),
    decreases upto - from,
{
    if upto > from {
        gathered_goes_by_range(left, right, entries, from, upto - 1);
    }
}

/// Blocks with other entries add nothing to what is gathered.
proof fn gathered_skips_others(
    blocks: Seq<HostView>,
    entries: Map<EntryType, Seq<char>>,
    from: int,
    middle: int,
    upto: int,
)
    requires
        0 <= from <= middle <= upto <= blocks.len(),
        forall|p: int| middle <= p < upto ==> (#[trigger] blocks[p]).entries != entries,
    ensures
        gathered_patterns(blocks, entries, from, upto) == gathered_patterns(
            blocks,
            entries,
            from,
            middle,
        ),
        gathered_forwards(blocks, entries, from, upto) == gathered_forwards(
            blocks,
            entries,
            from,
            middle,
        ),
    decreases upto - middle,
{
    if upto > middle {
        gathered_skips_others(blocks, entries, from, middle, upto - 1);
    }
}

/// Blocks appended to a list do not change the merge of that list, as long
/// as none of them has the entries of a block of the list that is free of
/// `%h`.
proof fn merge_ignores_strangers(blocks: Seq<HostView>, more: Seq<HostView>, upto: int)
    requires
        0 <= upto <= blocks.len(),
        forall|p: int, q: int|
            0 <= p < blocks.len() && 0 <= q < more.len() && (#[trigger] more[q]).entries == (
            #[trigger] blocks[p]).entries ==> any_placeholder(blocks[p].entries),
    ensures
        merged_upto(blocks + more, upto) == merged_upto(blocks, upto),
    decreases upto,
{
    if upto > 0 {
        merge_ignores_strangers(blocks, more, upto - 1);
        let all = blocks + more;
        let at = upto - 1;
        assert(all[at] == blocks[at]);
        if has_earlier_twin(all, at) {
            let earlier = choose|earlier: int|
                0 <= earlier < at && (#[trigger] all[earlier]).entries == all[at].entries;
            assert(blocks[earlier] == all[earlier]);
        }
        if has_earlier_twin(blocks, at) {
            let earlier = choose|earlier: int|
                0 <= earlier < at && (#[trigger] blocks[earlier]).entries == blocks[at].entries;
            assert(blocks[earlier] == all[earlier]);
        }
        assert(is_absorbed(all, at) == is_absorbed(blocks, at));
        if !any_placeholder(blocks[at].entries) {
            let entries = blocks[at].entries;
            assert forall|p: int| blocks.len() <= p < all.len() implies (#[trigger] all[p]).entries
                != entries by {
                assert(all[p] == more[p - blocks.len()]);
            }
            gathered_skips_others(all, entries, at, blocks.len() as int, all.len() as int);
            gathered_goes_by_range(all, blocks, entries, at, blocks.len() as int);
        }
        assert(merged_block(all, at) == merged_block(blocks, at));
    }
}

/// `list` after itself `times` times.
pub open spec fn repeated<A>(list: Seq<A>, times: int) -> Seq<A>
    decreases times,
{
    if times <= 0 {
        Seq::empty()
    } else {
        repeated(list, times - 1) + list
    }
}

/// Repeating a list at least twice makes a non-empty list longer, and
/// repeating an empty list gives the empty list.
proof fn repeated_length<A>(list: Seq<A>, times: int)
    ensures
        list.len() == 0 ==> repeated(list, times) == Seq::<A>::empty(),
        times == 1 ==> repeated(list, times) == list,
        times >= 1 ==> repeated(list, times).len() >= list.len(),
        times >= 2 ==> repeated(list, times).len() >= list.len() + list.len(),
    decreases times,
{
    if times > 0 {
        repeated_length(list, times - 1);
        assert(times == 1 ==> repeated(list, times - 1) + list == list);
        if list.len() == 0 {
            assert(repeated(list, times - 1) + list == Seq::<A>::empty());
        }
    }
}

/// The block with its forwardings once for each of its patterns: what the
/// merge makes of the blocks into which the block is spread.
pub open spec fn echoed(block: HostView) -> HostView {
    HostView {
        local_forwards: repeated(block.local_forwards, block.patterns.len() as int),
        ..block
    }
}

/// What is gathered from the first `count` blocks of a spread block, behind
/// a list `before`.
proof fn gathered_from_spread(before: Seq<HostView>, block: HostView, count: int)
    requires
        block.patterns.len() >= 1,
        0 <= count <= block.patterns.len(),
    ensures
        gathered_patterns(
            before + spread_one(block),
            block.entries,
            before.len() as int,
            before.len() + count,
        ) == block.patterns.take(count),
        gathered_forwards(
            before + spread_one(block),
            block.entries,
            before.len() as int,
            before.len() + count,
        ) == repeated(block.local_forwards, count),
    decreases count,
{
    let all = before + spread_one(block);
    let start = before.len() as int;
    if count > 0 {
        gathered_from_spread(before, block, count - 1);
        assert(all[start + count - 1] == single(block, count - 1));
        assert(block.patterns.take(count - 1) + seq![block.patterns[count - 1]]
            == block.patterns.take(count));
    } else {
        assert(block.patterns.take(0) == Seq::<Seq<char>>::empty());
    }
}

/// A block that the merge of a spread list can take back into one: it has a
/// name, and no `%h` in a value if it has more than one pattern.
pub open spec fn is_closable(block: HostView) -> bool {
    &&& block.patterns.len() >= 1
    &&& block.patterns.len() >= 2 ==> !any_placeholder(block.entries)
}

/// Whether a block of `before` has the entries of `block`.
spec fn has_twin_in(before: Seq<HostView>, block: HostView) -> bool {
    exists|p: int| 0 <= p < before.len() && (#[trigger] before[p]).entries == block.entries
}

/// The merge takes the blocks of a spread block back into one, where no
/// earlier block stands in the way.
proof fn merge_closes_spread(before: Seq<HostView>, block: HostView, count: int)
    requires
        is_closable(block),
        has_twin_in(before, block) ==> any_placeholder(block.entries),
        1 <= count <= block.patterns.len(),
    ensures
        merged_upto(before + spread_one(block), before.len() + count) == merged_upto(
            before + spread_one(block),
            before.len() as int,
        ).push(echoed(block)),
    decreases count,
{
    let all = before + spread_one(block);
    let start = before.len() as int;
    let width = block.patterns.len() as int;
    assert(all[start] == single(block, 0));
    if count == 1 {
        if has_earlier_twin(all, start) {
            let earlier = choose|earlier: int|
                0 <= earlier < start && (#[trigger] all[earlier]).entries == all[start].entries;
            assert(all[earlier] == before[earlier]);
        }
        assert(!is_absorbed(all, start));
        if any_placeholder(block.entries) {
            assert(single(block, 0).patterns == block.patterns);
            repeated_length(block.local_forwards, 1);
        } else {
            gathered_from_spread(before, block, width);
            assert(block.patterns.take(width) == block.patterns);
        }
        assert(merged_block(all, start) == echoed(block));
    } else {
        merge_closes_spread(before, block, count - 1);
        let at = start + count - 1;
        assert(all[at] == single(block, count - 1));
        assert(all[start].entries == all[at].entries);
        assert(is_absorbed(all, at));
    }
}

/// The merge drops the blocks of a spread block that has the entries of an
/// earlier block and no `%h` in a value, and keeps at most one block of any
/// spread block.
proof fn merge_counts_spread(before: Seq<HostView>, block: HostView, count: int)
    requires
        is_closable(block),
        0 <= count <= block.patterns.len(),
    ensures
        merged_upto(before + spread_one(block), before.len() + count).len() <= merged_upto(
            before + spread_one(block),
            before.len() as int,
        ).len() + 1,
        has_twin_in(before, block) && !any_placeholder(block.entries) ==> merged_upto(
            before + spread_one(block),
            before.len() + count,
        ).len() == merged_upto(before + spread_one(block), before.len() as int).len(),
    decreases count,
{
    let all = before + spread_one(block);
    let start = before.len() as int;
    if count > 0 {
        merge_counts_spread(before, block, count - 1);
        let at = start + count - 1;
        assert(all[at] == single(block, count - 1));
        assert(all[start] == single(block, 0));
        if count >= 2 {
            assert(all[start].entries == all[at].entries);
            assert(is_absorbed(all, at));
        }
        if has_twin_in(before, block) && !any_placeholder(block.entries) {
            let p = choose|p: int|
                0 <= p < before.len() && (#[trigger] before[p]).entries == block.entries;
            assert(all[p] == before[p]);
            assert(is_absorbed(all, at));
        }
    }
}

/// How many blocks the merge keeps of the first blocks of a list does not
/// depend on the blocks behind them.
proof fn merge_counts_by_prefix(blocks: Seq<HostView>, more: Seq<HostView>, upto: int)
    requires
        0 <= upto <= blocks.len(),
    ensures
        merged_upto(blocks + more, upto).len() == merged_upto(blocks, upto).len(),
    decreases upto,
{
    if upto > 0 {
        merge_counts_by_prefix(blocks, more, upto - 1);
        let all = blocks + more;
        let at = upto - 1;
        assert(all[at] == blocks[at]);
        if has_earlier_twin(all, at) {
            let earlier = choose|earlier: int|
                0 <= earlier < at && (#[trigger] all[earlier]).entries == all[at].entries;
            assert(blocks[earlier] == all[earlier]);
        }
        if has_earlier_twin(blocks, at) {
            let earlier = choose|earlier: int|
                0 <= earlier < at && (#[trigger] blocks[earlier]).entries == blocks[at].entries;
            assert(blocks[earlier] == all[earlier]);
        }
    }
}

/// Where no block is a pattern block, nothing is handed down.
proof fn nothing_handed_down(target: HostView, blocks: Seq<HostView>, upto: int)
    requires
        0 <= upto <= blocks.len(),
        forall|p: int| 0 <= p < blocks.len() ==> !is_pattern_block(#[trigger] blocks[p]),
    ensures
        with_inheritance(target, blocks, upto) == target,
    decreases upto,
{
    if upto > 0 {
        nothing_handed_down(target, blocks, upto - 1);
        assert(!is_pattern_block(blocks[upto - 1]));
    }
}

/// Where no block is a pattern block, pattern application after the spread
/// changes nothing.
proof fn all_blocks_are_targets(blocks: Seq<HostView>, upto: int)
    requires
        0 <= upto <= blocks.len(),
        forall|p: int| 0 <= p < blocks.len() ==> !is_pattern_block(#[trigger] blocks[p]),
    ensures
        targets_resolved(blocks, upto) == blocks.take(upto),
    decreases upto,
{
    if upto > 0 {
        all_blocks_are_targets(blocks, upto - 1);
        nothing_handed_down(blocks[upto - 1], blocks, blocks.len() as int);
        assert(blocks.take(upto - 1).push(blocks[upto - 1]) == blocks.take(upto));
    } else {
        assert(blocks.take(0) == Seq::<HostView>::empty());
    }
}

/// Blocks that need neither pattern application nor defaulting: every block
/// has a name, no wildcard pattern and a `Hostname`, and no `%h` in a value
/// if it has more than one pattern.
pub open spec fn is_plain_and_named(blocks: Seq<HostView>) -> bool {
    forall|i: int|
        0 <= i < blocks.len() ==> {
            let block = #[trigger] blocks[i];
            &&& is_closable(block)
            &&& !is_pattern_block(block)
            &&& block.entries.contains_key(EntryType::Hostname)
        }
}

/// Whether two of the blocks could be merged: they have the same entries,
/// and the later one has no `%h` in a value.
pub open spec fn has_mergeable_pair(blocks: Seq<HostView>) -> bool {
    exists|i: int, j: int|
        0 <= i < j < blocks.len() && (#[trigger] blocks[i]).entries == (
        #[trigger] blocks[j]).entries && !any_placeholder(blocks[j].entries)
}

/// The shape of blocks that are resolved already. Every block has a name,
/// no wildcard pattern and a `Hostname`. A block with more than one pattern
/// has no `%h` in a value and no forwardings. No two blocks could be
/// merged.
pub open spec fn is_resolved(blocks: Seq<HostView>) -> bool {
    &&& is_plain_and_named(blocks)
    &&& forall|i: int|
        0 <= i < blocks.len() && (#[trigger] blocks[i]).patterns.len() >= 2
            ==> blocks[i].local_forwards.len() == 0
    &&& !has_mergeable_pair(blocks)
}

/// On plain and named blocks only the spread and the merge do anything.
proof fn plain_blocks_are_spread_and_merged(blocks: Seq<HostView>)
    requires
        is_plain_and_named(blocks),
    ensures
        pipeline(blocks) == merge_spec(spread_spec(blocks)),
{
    let spread = spread_spec(blocks);
    spread_has_origins(blocks);
    assert forall|p: int| 0 <= p < spread.len() implies !is_pattern_block(#[trigger] spread[p])
        && spread[p].entries.contains_key(EntryType::Hostname) by {
        assert(has_origin(spread[p], blocks));
        let (i, k) = choose|i: int, k: int|
            0 <= i < blocks.len() && #[trigger] spread_from(spread[p], blocks[i], k);
        let origin = blocks[i];
        assert(spread[p] == single(origin, k));
        if is_pattern_block(spread[p]) {
            let index = choose|index: int|
                0 <= index < spread[p].patterns.len() && is_wildcard(
                    #[trigger] spread[p].patterns[index],
                );
            assert(is_wildcard(origin.patterns[k]));
        }
    }
    all_blocks_are_targets(spread, spread.len() as int);
    assert(spread.take(spread.len() as int) == spread);
    assert(apply_name_spec(spread) == spread);
}

/// The entries of every block are the entries of a block of the spread
/// list.
proof fn spread_keeps_entries(blocks: Seq<HostView>, i: int)
    requires
        0 <= i < blocks.len(),
    ensures
        has_twin_in(spread_spec(blocks), blocks[i]),
    decreases blocks.len(),
{
    let shorter = blocks.drop_last();
    let before = spread_spec(shorter);
    let all = spread_spec(blocks);
    if i < blocks.len() - 1 {
        spread_keeps_entries(shorter, i);
        let p = choose|p: int|
            0 <= p < before.len() && (#[trigger] before[p]).entries == shorter[i].entries;
        assert(all[p] == before[p]);
    } else {
        assert(all[before.len() as int] == spread_one(blocks.last())[0]);
    }
}

/// Spreading plain and named blocks of which no two could be merged, and
/// merging them again, gives each block back with its forwardings once for
/// each of its patterns.
proof fn merge_undoes_spread(blocks: Seq<HostView>)
    requires
        is_plain_and_named(blocks),
        !has_mergeable_pair(blocks),
    ensures
        merge_spec(spread_spec(blocks)) == blocks.map_values(|block: HostView| echoed(block)),
    decreases blocks.len(),
{
    let echoes = blocks.map_values(|block: HostView| echoed(block));
    if blocks.len() > 0 {
        let shorter = blocks.drop_last();
        let last = blocks.last();
        assert forall|i: int| 0 <= i < shorter.len() implies #[trigger] shorter[i]
            == blocks[i] by {}
        assert(is_plain_and_named(shorter));
        if has_mergeable_pair(shorter) {
            let (i, j) = choose|i: int, j: int|
                0 <= i < j < shorter.len() && (#[trigger] shorter[i]).entries == (
                #[trigger] shorter[j]).entries && !any_placeholder(shorter[j].entries);
            assert(blocks[i].entries == blocks[j].entries);
            assert(false);
        }
        merge_undoes_spread(shorter);
        let before = spread_spec(shorter);
        let tail = spread_one(last);
        let all = before + tail;
        spread_has_origins(shorter);
        assert(blocks[blocks.len() - 1] == last);
        assert forall|p: int|
            0 <= p < before.len() && (#[trigger] before[p]).entries
                == last.entries implies any_placeholder(last.entries) by {
            assert(has_origin(before[p], shorter));
            let (i, k) = choose|i: int, k: int|
                0 <= i < shorter.len() && #[trigger] spread_from(before[p], shorter[i], k);
            assert(shorter[i] == blocks[i]);
            assert(before[p].entries == blocks[i].entries);
        }
        assert forall|p: int, q: int|
            0 <= p < before.len() && 0 <= q < tail.len() && (#[trigger] tail[q]).entries == (
            #[trigger] before[p]).entries implies any_placeholder(before[p].entries) by {
            assert(tail[q].entries == last.entries);
        }
        merge_closes_spread(before, last, last.patterns.len() as int);
        merge_ignores_strangers(before, tail, before.len() as int);
        assert(all.len() == before.len() + last.patterns.len());
        assert(shorter.map_values(|block: HostView| echoed(block)).push(echoed(last)) == echoes);
    } else {
        assert(echoes == Seq::<HostView>::empty());
    }
}

/// The merge of a spread list keeps at most one block for each block of
/// the list, and fewer where two of the blocks could be merged.
proof fn merge_of_spread_counts(blocks: Seq<HostView>)
    requires
        is_plain_and_named(blocks),
    ensures
        merge_spec(spread_spec(blocks)).len() <= blocks.len(),
        has_mergeable_pair(blocks) ==> merge_spec(spread_spec(blocks)).len() < blocks.len(),
    decreases blocks.len(),
{
    if blocks.len() > 0 {
        let shorter = blocks.drop_last();
        let last = blocks.last();
        assert forall|i: int| 0 <= i < shorter.len() implies #[trigger] shorter[i]
            == blocks[i] by {}
        assert(is_plain_and_named(shorter));
        merge_of_spread_counts(shorter);
        let before = spread_spec(shorter);
        let tail = spread_one(last);
        let all = before + tail;
        assert(blocks[blocks.len() - 1] == last);
        merge_counts_spread(before, last, last.patterns.len() as int);
        merge_counts_by_prefix(before, tail, before.len() as int);
        assert(all.len() == before.len() + last.patterns.len());
        if has_mergeable_pair(blocks) {
            let (i, j) = choose|i: int, j: int|
                0 <= i < j < blocks.len() && (#[trigger] blocks[i]).entries == (
                #[trigger] blocks[j]).entries && !any_placeholder(blocks[j].entries);
            if j == blocks.len() - 1 {
                spread_keeps_entries(shorter, i);
                assert(has_twin_in(before, last));
            } else {
                assert(shorter[i].entries == shorter[j].entries);
                assert(has_mergeable_pair(shorter));
            }
        }
    }
}

/// The stages leave resolved blocks as they are.
pub proof fn resolved_blocks_stay(blocks: Seq<HostView>)
    requires
        is_resolved(blocks),
    ensures
        pipeline(blocks) == blocks,
{
    plain_blocks_are_spread_and_merged(blocks);
    merge_undoes_spread(blocks);
    assert forall|i: int| 0 <= i < blocks.len() implies echoed(#[trigger] blocks[i])
        == blocks[i] by {
        repeated_length(blocks[i].local_forwards, blocks[i].patterns.len() as int);
    }
    assert(blocks.map_values(|block: HostView| echoed(block)) == blocks);
}

/// The stages change plain and named blocks that are not resolved: where
/// two blocks could be merged they give fewer blocks, and else they give a
/// block with several patterns each of its forwardings several times.
pub proof fn unresolved_blocks_change(blocks: Seq<HostView>)
    requires
        is_plain_and_named(blocks),
        !is_resolved(blocks),
    ensures
        has_mergeable_pair(blocks) ==> pipeline(blocks).len() < blocks.len(),
        !has_mergeable_pair(blocks) ==> pipeline(blocks) == blocks.map_values(
            |block: HostView| echoed(block),
        ) && exists|i: int|
            0 <= i < blocks.len() && (#[trigger] blocks[i]).local_forwards.len() < echoed(
                blocks[i],
            ).local_forwards.len(),
{
    plain_blocks_are_spread_and_merged(blocks);
    merge_of_spread_counts(blocks);
    if !has_mergeable_pair(blocks) {
        merge_undoes_spread(blocks);
        let i = choose|i: int|
            0 <= i < blocks.len() && (#[trigger] blocks[i]).patterns.len() >= 2
                && blocks[i].local_forwards.len() != 0;
        repeated_length(blocks[i].local_forwards, blocks[i].patterns.len() as int);
    }
}

/// Inheriting leaves the patterns of a block as they are.
pub proof fn inheritance_keeps_patterns(target: HostView, blocks: Seq<HostView>, upto: int)
    ensures
        with_inheritance(target, blocks, upto).patterns == target.patterns,
    decreases upto,
{
    if upto > 0 {
        inheritance_keeps_patterns(target, blocks, upto - 1);
    }
}

/// A block with at most one pattern, and that one no wildcard pattern.
pub open spec fn is_single_plain(block: HostView) -> bool {
    block.patterns.len() <= 1 && !is_pattern_block(block)
}

/// After pattern application every block is single and plain.
proof fn targets_are_single_plain(blocks: Seq<HostView>, upto: int)
    requires
        0 <= upto <= blocks.len(),
        forall|p: int| 0 <= p < blocks.len() ==> (#[trigger] blocks[p]).patterns.len() <= 1,
    ensures
        forall|q: int|
            0 <= q < targets_resolved(blocks, upto).len() ==> is_single_plain(
                #[trigger] targets_resolved(blocks, upto)[q],
            ),
    decreases upto,
{
    if upto > 0 {
        targets_are_single_plain(blocks, upto - 1);
        let source = blocks[upto - 1];
        let resolved = with_inheritance(source, blocks, blocks.len() as int);
        inheritance_keeps_patterns(source, blocks, blocks.len() as int);
        if !is_pattern_block(source) {
            if is_pattern_block(resolved) {
                let index = choose|index: int|
                    0 <= index < resolved.patterns.len() && is_wildcard(
                        #[trigger] resolved.patterns[index],
                    );
                assert(is_wildcard(source.patterns[index]));
            }
        }
        let before = targets_resolved(blocks, upto - 1);
        let now = targets_resolved(blocks, upto);
        assert forall|q: int| 0 <= q < now.len() implies is_single_plain(#[trigger] now[q]) by {
            if q < before.len() {
                assert(now[q] == before[q]);
            } else {
                assert(now[q] == resolved);
            }
        }
    }
}

/// What is gathered from plain blocks holds no wildcard pattern.
proof fn gathered_patterns_are_plain(
    blocks: Seq<HostView>,
    entries: Map<EntryType, Seq<char>>,
    from: int,
    upto: int,
)
    requires
        0 <= from,
        upto <= blocks.len(),
        forall|p: int| 0 <= p < blocks.len() ==> !is_pattern_block(#[trigger] blocks[p]),
    ensures
        forall|k: int|
            0 <= k < gathered_patterns(blocks, entries, from, upto).len() ==> !is_wildcard(
                #[trigger] gathered_patterns(blocks, entries, from, upto)[k],
            ),
    decreases upto - from,
{
    if upto > from {
        gathered_patterns_are_plain(blocks, entries, from, upto - 1);
        let earlier = gathered_patterns(blocks, entries, from, upto - 1);
        let block = blocks[upto - 1];
        assert(!is_pattern_block(block));
        assert forall|k: int|
            0 <= k < gathered_patterns(blocks, entries, from, upto).len() implies !is_wildcard(
            #[trigger] gathered_patterns(blocks, entries, from, upto)[k],
        ) by {
            if block.entries == entries && k >= earlier.len() {
                assert(gathered_patterns(blocks, entries, from, upto)[k] == block.patterns[k
                    - earlier.len()]);
            }
        }
    }
}

/// After the merge of single plain blocks no block has a wildcard pattern,
/// and a block with more than one pattern has no `%h` in a value.
proof fn merged_blocks_are_plain(blocks: Seq<HostView>, upto: int)
    requires
        0 <= upto <= blocks.len(),
        forall|p: int| 0 <= p < blocks.len() ==> is_single_plain(#[trigger] blocks[p]),
    ensures
        forall|q: int|
            0 <= q < merged_upto(blocks, upto).len() ==> {
                let block = #[trigger] merged_upto(blocks, upto)[q];
                &&& !is_pattern_block(block)
                &&& block.patterns.len() >= 2 ==> !any_placeholder(block.entries)
            },
    decreases upto,
{
    if upto > 0 {
        merged_blocks_are_plain(blocks, upto - 1);
        let at = upto - 1;
        let merged = merged_block(blocks, at);
        assert(is_single_plain(blocks[at]));
        if !any_placeholder(blocks[at].entries) {
            gathered_patterns_are_plain(blocks, blocks[at].entries, at, blocks.len() as int);
            if is_pattern_block(merged) {
                let index = choose|index: int|
                    0 <= index < merged.patterns.len() && is_wildcard(
                        #[trigger] merged.patterns[index],
                    );
                assert(false);
            }
        }
        let before = merged_upto(blocks, upto - 1);
        let now = merged_upto(blocks, upto);
        assert forall|q: int| 0 <= q < now.len() implies {
            let block = #[trigger] now[q];
            &&& !is_pattern_block(block)
            &&& block.patterns.len() >= 2 ==> !any_placeholder(block.entries)
        } by {
            if q < before.len() {
                assert(now[q] == before[q]);
            } else {
                assert(now[q] == merged);
            }
        }
    }
}

/// No block that the stages give has a wildcard pattern, and a block that
/// they give with more than one pattern has no `%h` in a value.
pub proof fn resolved_blocks_are_plain(blocks: Seq<HostView>)
    ensures
        forall|q: int|
            0 <= q < pipeline(blocks).len() ==> {
                let block = #[trigger] pipeline(blocks)[q];
                &&& !is_pattern_block(block)
                &&& block.patterns.len() >= 2 ==> !any_placeholder(block.entries)
            },
{
    let spread = spread_spec(blocks);
    spread_has_origins(blocks);
    assert forall|p: int| 0 <= p < spread.len() implies (#[trigger] spread[p]).patterns.len()
        <= 1 by {
        assert(has_origin(spread[p], blocks));
    }
    let applied = apply_patterns_spec(blocks);
    targets_are_single_plain(spread, spread.len() as int);
    let named = apply_name_spec(applied);
    assert forall|p: int| 0 <= p < named.len() implies is_single_plain(#[trigger] named[p]) by {
        let before = applied[p];
        assert(is_single_plain(before));
        assert(named[p].patterns == before.patterns);
        if is_pattern_block(named[p]) {
            let index = choose|index: int|
                0 <= index < named[p].patterns.len() && is_wildcard(
                    #[trigger] named[p].patterns[index],
                );
            assert(is_wildcard(before.patterns[index]));
        }
    }
    merged_blocks_are_plain(named, named.len() as int);
}

/// The spread gives at least one block for each block.
pub proof fn spread_does_not_shrink(blocks: Seq<HostView>)
    ensures
        spread_spec(blocks).len() >= blocks.len(),
    decreases blocks.len(),
{
    if blocks.len() > 0 {
        spread_does_not_shrink(blocks.drop_last());
    }
}

/// Among the first blocks of a list, pattern application keeps at most as
/// many as there are.
proof fn targets_do_not_grow(blocks: Seq<HostView>, upto: int)
    requires
        0 <= upto,
    ensures
        targets_resolved(blocks, upto).len() <= upto,
    decreases upto,
{
    if upto > 0 {
        targets_do_not_grow(blocks, upto - 1);
    }
}

/// Of the first blocks of a list, the merge keeps at most as many as there
/// are.
proof fn merged_do_not_grow(blocks: Seq<HostView>, upto: int)
    requires
        0 <= upto,
    ensures
        merged_upto(blocks, upto).len() <= upto,
    decreases upto,
{
    if upto > 0 {
        merged_do_not_grow(blocks, upto - 1);
    }
}

/// Pattern application gives no more blocks than the spread, defaulting
/// gives as many blocks as it gets, and the merge gives no more blocks than
/// it gets.
pub proof fn later_stages_do_not_grow(blocks: Seq<HostView>)
    ensures
        apply_patterns_spec(blocks).len() <= spread_spec(blocks).len(),
        apply_name_spec(blocks).len() == blocks.len(),
        merge_spec(blocks).len() <= blocks.len(),
{
    targets_do_not_grow(spread_spec(blocks), spread_spec(blocks).len() as int);
    merged_do_not_grow(blocks, blocks.len() as int);
}

/// Spreading blocks that have at most one pattern each changes nothing.
proof fn single_blocks_stay_spread(blocks: Seq<HostView>)
    requires
        forall|p: int| 0 <= p < blocks.len() ==> (#[trigger] blocks[p]).patterns.len() <= 1,
    ensures
        spread_spec(blocks) == blocks,
    decreases blocks.len(),
{
    if blocks.len() > 0 {
        let shorter = blocks.drop_last();
        let last = blocks.last();
        assert forall|p: int| 0 <= p < shorter.len() implies (#[trigger] shorter[p]).patterns.len()
            <= 1 by {
            assert(shorter[p] == blocks[p]);
        }
        single_blocks_stay_spread(shorter);
        assert(blocks[blocks.len() - 1] == last);
        if last.patterns.len() == 1 {
            assert(single(last, 0).patterns == last.patterns);
            assert(spread_one(last) == seq![last]);
        }
        assert(shorter + seq![last] == blocks);
    } else {
        assert(blocks == Seq::<HostView>::empty());
    }
}

/// Spreading a spread list changes nothing.
pub proof fn spread_is_idempotent(blocks: Seq<HostView>)
    ensures
        spread_spec(spread_spec(blocks)) == spread_spec(blocks),
{
    let spread = spread_spec(blocks);
    spread_has_origins(blocks);
    assert forall|p: int| 0 <= p < spread.len() implies (#[trigger] spread[p]).patterns.len()
        <= 1 by {
        assert(has_origin(spread[p], blocks));
    }
    single_blocks_stay_spread(spread);
}

/// Applying patterns to blocks to which patterns have been applied changes
/// nothing.
pub proof fn apply_patterns_is_idempotent(blocks: Seq<HostView>)
    ensures
        apply_patterns_spec(apply_patterns_spec(blocks)) == apply_patterns_spec(blocks),
{
    let spread = spread_spec(blocks);
    spread_has_origins(blocks);
    assert forall|p: int| 0 <= p < spread.len() implies (#[trigger] spread[p]).patterns.len()
        <= 1 by {
        assert(has_origin(spread[p], blocks));
    }
    let applied = apply_patterns_spec(blocks);
    targets_are_single_plain(spread, spread.len() as int);
    assert forall|p: int| 0 <= p < applied.len() implies (#[trigger] applied[p]).patterns.len()
        <= 1 by {
        assert(is_single_plain(applied[p]));
    }
    single_blocks_stay_spread(applied);
    assert forall|p: int| 0 <= p < applied.len() implies !is_pattern_block(
        #[trigger] applied[p],
    ) by {
        assert(is_single_plain(applied[p]));
    }
    all_blocks_are_targets(applied, applied.len() as int);
    assert(applied.take(applied.len() as int) == applied);
}

/// Defaulting the hostname of blocks that have been defaulted changes
/// nothing.
pub proof fn apply_name_is_idempotent(blocks: Seq<HostView>)
    ensures
        apply_name_spec(apply_name_spec(blocks)) == apply_name_spec(blocks),
{
    assert(apply_name_spec(apply_name_spec(blocks)) =~= apply_name_spec(blocks));
}

/// The places in a list of the blocks that the merge keeps of the first
/// `upto` blocks.
spec fn kept_places(blocks: Seq<HostView>, upto: int) -> Seq<int>
    decreases upto,
{
    if upto <= 0 {
        Seq::empty()
    } else if is_absorbed(blocks, upto - 1) {
        kept_places(blocks, upto - 1)
    } else {
        kept_places(blocks, upto - 1).push(upto - 1)
    }
}

/// Each block that the merge gives is the merged block of a place that is
/// not absorbed, and the places go up.
proof fn merged_blocks_have_places(blocks: Seq<HostView>, upto: int)
    requires
        0 <= upto <= blocks.len(),
    ensures
        kept_places(blocks, upto).len() == merged_upto(blocks, upto).len(),
        forall|q: int|
            0 <= q < kept_places(blocks, upto).len() ==> {
                let place = #[trigger] kept_places(blocks, upto)[q];
                &&& 0 <= place < upto
                &&& !is_absorbed(blocks, place)
                &&& merged_upto(blocks, upto)[q] == merged_block(blocks, place)
            },
        forall|q: int, r: int|
            0 <= q < r < kept_places(blocks, upto).len() ==> #[trigger] kept_places(blocks, upto)[q]
                < #[trigger] kept_places(blocks, upto)[r],
    decreases upto,
{
    if upto > 0 {
        merged_blocks_have_places(blocks, upto - 1);
        let before = kept_places(blocks, upto - 1);
        let now = kept_places(blocks, upto);
        assert forall|q: int| 0 <= q < now.len() implies {
            let place = #[trigger] now[q];
            &&& 0 <= place < upto
            &&& !is_absorbed(blocks, place)
            &&& merged_upto(blocks, upto)[q] == merged_block(blocks, place)
        } by {
            if q < before.len() {
                assert(now[q] == before[q]);
            }
        }
        assert forall|q: int, r: int| 0 <= q < r < now.len() implies #[trigger] now[q]
            < #[trigger] now[r] by {
            if r < before.len() {
                assert(now[q] == before[q] && now[r] == before[r]);
            } else {
                assert(now[q] == before[q]);
            }
        }
    }
}

/// After the merge no two blocks could be merged.
pub proof fn merge_leaves_nothing_to_merge(blocks: Seq<HostView>)
    ensures
        !has_mergeable_pair(merge_spec(blocks)),
{
    let merged = merge_spec(blocks);
    let places = kept_places(blocks, blocks.len() as int);
    merged_blocks_have_places(blocks, blocks.len() as int);
    if has_mergeable_pair(merged) {
        let (i, j) = choose|i: int, j: int|
            0 <= i < j < merged.len() && (#[trigger] merged[i]).entries == (
            #[trigger] merged[j]).entries && !any_placeholder(merged[j].entries);
        let first = places[i];
        let second = places[j];
        assert(merged[i] == merged_block(blocks, first));
        assert(merged[j] == merged_block(blocks, second));
        assert(blocks[first].entries == blocks[second].entries);
        assert(has_earlier_twin(blocks, second));
        assert(is_absorbed(blocks, second));
    }
}

/// Merging blocks of which no two could be merged changes nothing.
proof fn unmergeable_blocks_stay(blocks: Seq<HostView>, upto: int)
    requires
        !has_mergeable_pair(blocks),
        0 <= upto <= blocks.len(),
    ensures
        merged_upto(blocks, upto) == blocks.take(upto),
    decreases upto,
{
    if upto > 0 {
        unmergeable_blocks_stay(blocks, upto - 1);
        let at = upto - 1;
        let block = blocks[at];
        if is_absorbed(blocks, at) {
            let earlier = choose|earlier: int|
                0 <= earlier < at && (#[trigger] blocks[earlier]).entries == blocks[at].entries;
            assert(blocks[earlier].entries == blocks[at].entries);
            assert(has_mergeable_pair(blocks));
        }
        if !any_placeholder(block.entries) {
            assert forall|p: int| at + 1 <= p < blocks.len() implies (#[trigger] blocks[p]).entries
                != block.entries by {
                if blocks[p].entries == block.entries {
                    assert(blocks[at].entries == blocks[p].entries);
                    assert(has_mergeable_pair(blocks));
                }
            }
            gathered_skips_others(blocks, block.entries, at, at + 1, blocks.len() as int);
            assert(gathered_patterns(blocks, block.entries, at, at + 1) == block.patterns) by {
                assert(gathered_patterns(blocks, block.entries, at, at) == Seq::<
                    Seq<char>,
                >::empty());
            }
            assert(gathered_forwards(blocks, block.entries, at, at + 1)
                == block.local_forwards) by {
                assert(gathered_forwards(blocks, block.entries, at, at).len() == 0);
            }
        }
        assert(merged_block(blocks, at) == block);
        assert(blocks.take(upto - 1).push(block) == blocks.take(upto));
    } else {
        assert(blocks.take(0) == Seq::<HostView>::empty());
    }
}

/// Merging merged blocks changes nothing.
pub proof fn merge_is_idempotent(blocks: Seq<HostView>)
    ensures
        merge_spec(merge_spec(blocks)) == merge_spec(blocks),
{
    let merged = merge_spec(blocks);
    merge_leaves_nothing_to_merge(blocks);
    unmergeable_blocks_stay(merged, merged.len() as int);
    assert(merged.take(merged.len() as int) == merged);
}

} // verus!
