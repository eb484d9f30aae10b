//! What each resolution stage computes, stated over the views of the blocks.
//!
//! The stages run in a fixed order: blocks are spread into single-pattern
//! blocks, pattern blocks hand their entries down and leave, blocks without
//! a `Hostname` get their own name for one, and blocks with the same entries
//! are merged.

use super::entries::any_placeholder;
use super::host::{inherited, HostView};
use super::pattern::{covers, is_wildcard};
use super::EntryType;
use vstd::prelude::*;

verus! {

/// The block that carries only the pattern at `index` of `block`, with all
/// its entries and forwardings.
pub open spec fn single(block: HostView, index: int) -> HostView {
    HostView { patterns: seq![block.patterns[index]], ..block }
}

/// One block for each pattern of `block`, in the order of the patterns. A
/// block without patterns stays as it is.
pub open spec fn spread_one(block: HostView) -> Seq<HostView> {
    if block.patterns.len() == 0 {
        seq![block]
    } else {
        Seq::new(block.patterns.len(), |index: int| single(block, index))
    }
}

/// The blocks spread one after the other, each in the place of the block it
/// came from.
pub open spec fn spread_spec(blocks: Seq<HostView>) -> Seq<HostView>
    decreases blocks.len(),
{
    if blocks.len() == 0 {
        Seq::empty()
    } else {
        spread_spec(blocks.drop_last()) + spread_one(blocks.last())
    }
}

/// A pattern block is one with a wildcard pattern among its patterns.
pub open spec fn is_pattern_block(block: HostView) -> bool {
    exists|index: int|
        0 <= index < block.patterns.len() && is_wildcard(#[trigger] block.patterns[index])
}

/// Whether some wildcard pattern of `block` covers `name`.
pub open spec fn block_covers(block: HostView, name: Seq<char>) -> bool {
    exists|index: int|
        0 <= index < block.patterns.len() && is_wildcard(#[trigger] block.patterns[index])
            && covers(block.patterns[index], name)
}

/// Whether `target` inherits from `source`: the target has a name, and a
/// wildcard pattern of the source covers that name.
pub open spec fn hands_down(source: HostView, target: HostView) -> bool {
    target.patterns.len() > 0 && block_covers(source, target.patterns[0])
}

/// The block that `target` becomes when it has inherited, in their order,
/// from each of the first `upto` blocks that hands down to it. What an
/// earlier block gave stays when a later block has a value for the same
/// keyword.
pub open spec fn with_inheritance(target: HostView, blocks: Seq<HostView>, upto: int) -> HostView
    decreases upto,
{
    if upto <= 0 {
        target
    } else {
        let before = with_inheritance(target, blocks, upto - 1);
        if hands_down(blocks[upto - 1], target) {
            inherited(before, blocks[upto - 1])
        } else {
            before
        }
    }
}

/// The first `upto` blocks without the pattern blocks among them, each with
/// what it inherits from the pattern blocks of the whole list.
pub open spec fn targets_resolved(blocks: Seq<HostView>, upto: int) -> Seq<HostView>
    decreases upto,
{
    if upto <= 0 {
        Seq::empty()
    } else {
        let before = targets_resolved(blocks, upto - 1);
        if is_pattern_block(blocks[upto - 1]) {
            before
        } else {
            before.push(with_inheritance(blocks[upto - 1], blocks, blocks.len() as int))
        }
    }
}

/// Pattern application: the blocks are spread, every block that is no
/// pattern block inherits from the pattern blocks that cover its name, and
/// the pattern blocks leave.
pub open spec fn apply_patterns_spec(blocks: Seq<HostView>) -> Seq<HostView> {
    let spread = spread_spec(blocks);
    targets_resolved(spread, spread.len() as int)
}

/// A block without a `Hostname` gets its first pattern for one. A block
/// without patterns stays as it is.
pub open spec fn with_hostname(block: HostView) -> HostView {
    if !block.entries.contains_key(EntryType::Hostname) && block.patterns.len() > 0 {
        HostView { entries: block.entries.insert(EntryType::Hostname, block.patterns[0]), ..block }
    } else {
        block
    }
}

/// Hostname defaulting, block by block.
pub open spec fn apply_name_spec(blocks: Seq<HostView>) -> Seq<HostView> {
    blocks.map_values(|block: HostView| with_hostname(block))
}

/// The patterns of the blocks from `from` up to `upto` whose entries are
/// `entries`, one block after the other.
pub open spec fn gathered_patterns(
    blocks: Seq<HostView>,
    entries: Map<EntryType, Seq<char>>,
    from: int,
    upto: int,
) -> Seq<Seq<char>>
    decreases upto - from,
{
    if upto <= from {
        Seq::empty()
    } else if blocks[upto - 1].entries == entries {
        gathered_patterns(blocks, entries, from, upto - 1) + blocks[upto - 1].patterns
    } else {
        gathered_patterns(blocks, entries, from, upto - 1)
    }
}

/// The forwardings of the blocks from `from` up to `upto` whose entries are
/// `entries`, one block after the other.
pub open spec fn gathered_forwards(
    blocks: Seq<HostView>,
    entries: Map<EntryType, Seq<char>>,
    from: int,
    upto: int,
) -> Seq<super::host::LocalForwardView>
    decreases upto - from,
{
    if upto <= from {
        Seq::empty()
    } else if blocks[upto - 1].entries == entries {
        gathered_forwards(blocks, entries, from, upto - 1) + blocks[upto - 1].local_forwards
    } else {
        gathered_forwards(blocks, entries, from, upto - 1)
    }
}

/// Whether a block before the one at `index` has the same entries.
pub open spec fn has_earlier_twin(blocks: Seq<HostView>, index: int) -> bool {
    exists|earlier: int|
        0 <= earlier < index && (#[trigger] blocks[earlier]).entries == blocks[index].entries
}

/// Whether the block at `index` goes into an earlier block: an earlier block
/// has the same entries, and no value of the block holds `%h`.
pub open spec fn is_absorbed(blocks: Seq<HostView>, index: int) -> bool {
    !any_placeholder(blocks[index].entries) && has_earlier_twin(blocks, index)
}

/// What the block at `index` is after the merge, if it stays. A block with
/// `%h` in a value stays as it is. Any other block keeps its entries and
/// gets, after its own, the patterns and the forwardings of the later blocks
/// that have the same entries, in the order of those blocks.
pub open spec fn merged_block(blocks: Seq<HostView>, index: int) -> HostView {
    let block = blocks[index];
    if any_placeholder(block.entries) {
        block
    } else {
        HostView {
            patterns: gathered_patterns(blocks, block.entries, index, blocks.len() as int),
            entries: block.entries,
            local_forwards: gathered_forwards(blocks, block.entries, index, blocks.len() as int),
        }
    }
}

/// The merge of the first `upto` blocks with all that they absorb.
pub open spec fn merged_upto(blocks: Seq<HostView>, upto: int) -> Seq<HostView>
    decreases upto,
{
    if upto <= 0 {
        Seq::empty()
    } else if is_absorbed(blocks, upto - 1) {
        merged_upto(blocks, upto - 1)
    } else {
        merged_upto(blocks, upto - 1).push(merged_block(blocks, upto - 1))
    }
}

/// Identical-entry merge: of the blocks that have the same entries, with no
/// `%h` in a value, the first stays and takes over the patterns and the
/// forwardings of the others. The blocks that stay keep their order.
pub open spec fn merge_spec(blocks: Seq<HostView>) -> Seq<HostView> {
    merged_upto(blocks, blocks.len() as int)
}

/// The four stages, one after the other.
pub open spec fn pipeline(blocks: Seq<HostView>) -> Seq<HostView> {
    merge_spec(apply_name_spec(apply_patterns_spec(blocks)))
}

} // verus!
