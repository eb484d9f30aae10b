//! Configuration blocks, their entries, and the stages that turn the blocks
//! of one file into resolved blocks.

use super::entries::{any_placeholder, Entries};
use super::pattern::{
    covered_when, covers, expression, expression_covers, has_wildcard, is_negated, is_wildcard,
    matching_expression, search,
};
use super::stages::{
    apply_name_spec, apply_patterns_spec, block_covers, gathered_forwards, gathered_patterns,
    has_earlier_twin, is_pattern_block, merge_spec, merged_block, merged_upto, single, spread_one,
    spread_spec, targets_resolved, with_hostname, with_inheritance,
};
use super::EntryType;
use crate::text::{
    blanks_end, chars_of, find_char, position_of, skip_blanks, skip_word, slice_string, word_end,
};
use vstd::prelude::*;

verus! {

/// One local port forwarding: connections to `local_port` on this machine go
/// to `remote_host`, port `remote_port`.
#[derive(Debug, Clone)]
pub struct LocalForward {
    pub local_port: String,
    pub remote_host: String,
    pub remote_port: String,
}

/// A local forwarding as contracts see it.
pub struct LocalForwardView {
    pub local_port: Seq<char>,
    pub remote_host: Seq<char>,
    pub remote_port: Seq<char>,
}

impl View for LocalForward {
    type V = LocalForwardView;

    open spec fn view(&self) -> LocalForwardView {
        LocalForwardView {
            local_port: self.local_port@,
            remote_host: self.remote_host@,
            remote_port: self.remote_port@,
        }
    }
}

/// The texts of a list of strings.
pub open spec fn texts(strings: Seq<String>) -> Seq<Seq<char>> {
    strings.map_values(|s: String| s@)
}

/// The views of a list of local forwardings.
pub open spec fn forwards(list: Seq<LocalForward>) -> Seq<LocalForwardView> {
    list.map_values(|f: LocalForward| f@)
}

/// What the value of a `LocalForward` entry stands for. The value is read as
/// words separated by white space, and it must hold exactly two of them.
/// The first word is the local port. The second word must hold exactly one
/// colon: the remote host stands before it, the remote port behind it. A
/// value with fewer or more than two words, or whose second word holds no
/// colon or more than one, stands for nothing.
pub open spec fn local_forward_of(value: Seq<char>) -> Option<LocalForwardView> {
    let local_from = skip_blanks(value, 0);
    let local_to = skip_word(value, local_from);
    let remote_from = skip_blanks(value, local_to);
    let remote_to = skip_word(value, remote_from);
    let remote = value.subrange(remote_from, remote_to);
    let colon = find_char(remote, ':', 0);
    if remote_from < value.len() && skip_blanks(value, remote_to) == value.len() && colon
        < remote.len() && find_char(remote, ':', colon + 1) == remote.len() {
        Some(
            LocalForwardView {
                local_port: value.subrange(local_from, local_to),
                remote_host: remote.take(colon),
                remote_port: remote.skip(colon + 1),
            },
        )
    } else {
        None
    }
}

impl LocalForward {
    /// Reads the value of a `LocalForward` entry. A malformed value gives
    /// `None`.
    pub fn parse(value: &str) -> (r: Option<LocalForward>)
        ensures
            r is Some <==> local_forward_of(value@) is Some,
            r matches Some(f) ==> f@ == local_forward_of(value@)->0,
    {
        let chars = chars_of(value);
        let local_from = blanks_end(&chars, 0);
        let local_to = word_end(&chars, local_from);
        let remote_from = blanks_end(&chars, local_to);
        let remote_to = word_end(&chars, remote_from);
        if remote_from >= chars.len() {
            return None;
        }
        if blanks_end(&chars, remote_to) < chars.len() {
            return None;
        }
        let mut remote: Vec<char> = Vec::new();
        let mut i = remote_from;
        while i < remote_to
            invariant
                remote_from <= i <= remote_to <= chars.len(),
                remote@ == chars@.subrange(remote_from as int, i as int),
            decreases remote_to - i,
        {
            remote.push(chars[i]);
            i += 1;
        }
        let colon = position_of(&remote, ':', 0);
        if colon >= remote.len() {
            return None;
        }
        let second = position_of(&remote, ':', colon + 1);
        if second < remote.len() {
            return None;
        }
        let forward = LocalForward {
            local_port: slice_string(&chars, local_from, local_to),
            remote_host: slice_string(&remote, 0, colon),
            remote_port: slice_string(&remote, colon + 1, remote.len()),
        };
        Some(forward)
    }

    /// A copy of this forwarding.
    pub fn duplicate(&self) -> (r: LocalForward)
        ensures
            r@ == self@,
    {
        LocalForward {
            local_port: self.local_port.clone(),
            remote_host: self.remote_host.clone(),
            remote_port: self.remote_port.clone(),
        }
    }
}

/// One entry of a block, as the block parser hands it over: the keyword and
/// the raw value.
pub type Entry = (EntryType, String);

/// A configuration block: the name patterns of its `Host` line, its scalar
/// entries, and its local forwardings in the order of the file. The fields
/// are open to read and to write, and the view shows them as they stand.
#[derive(Debug, Clone)]
pub struct Host {
    pub patterns: Vec<String>,
    pub entries: Entries,
    pub local_forwards: Vec<LocalForward>,
}

/// A block as contracts see it.
pub struct HostView {
    pub patterns: Seq<Seq<char>>,
    pub entries: Map<EntryType, Seq<char>>,
    pub local_forwards: Seq<LocalForwardView>,
}

/// The block that `block` becomes when it is given the entry `(kind,
/// value)`. A `LocalForward` entry adds a forwarding at the end if its value
/// is well formed and changes nothing if it is not. Any other entry sets the
/// value of its keyword; the last value given for a keyword is the one that
/// stays.
pub open spec fn updated(block: HostView, kind: EntryType, value: Seq<char>) -> HostView {
    if kind == EntryType::LocalForward {
        match local_forward_of(value) {
            Some(forward) => HostView {
                local_forwards: block.local_forwards.push(forward),
                ..block
            },
            None => block,
        }
    } else {
        HostView { entries: block.entries.insert(kind, value), ..block }
    }
}

/// The block that `target` becomes when it inherits from `source`: it keeps
/// its patterns and every value it has, takes the values of `source` for the
/// keywords it has no value for, and gets the forwardings of `source` after
/// its own.
pub open spec fn inherited(target: HostView, source: HostView) -> HostView {
    HostView {
        patterns: target.patterns,
        entries: source.entries.union_prefer_right(target.entries),
        local_forwards: target.local_forwards + source.local_forwards,
    }
}

impl View for Host {
    type V = HostView;

    open spec fn view(&self) -> HostView {
        HostView {
            patterns: texts(self.patterns@),
            entries: self.entries@,
            local_forwards: forwards(self.local_forwards@),
        }
    }
}

impl Host {
    /// The view shows the fields as they stand: what is read from a field
    /// or written to it is what the contracts speak of.
    pub proof fn view_shows_fields(self)
        ensures
            self@.patterns == texts(self.patterns@),
            self@.entries == self.entries@,
            self@.local_forwards == forwards(self.local_forwards@),
    {
    }

    /// A block with the given patterns and nothing else.
    #[must_use]
    pub fn new(patterns: Vec<String>) -> (r: Host)
        ensures
            r@ == (HostView {
                patterns: texts(patterns@),
                entries: Map::empty(),
                local_forwards: Seq::empty(),
            }),
    {
        let r = Host { patterns, entries: Entries::new(), local_forwards: Vec::new() };
        assert(forwards(r.local_forwards@) =~= Seq::empty());
        r
    }

    /// Gives the block one more entry.
    pub fn update(&mut self, entry: Entry)
        ensures
            final(self)@ == updated(old(self)@, entry.0, entry.1@),
    {
        let (kind, value) = entry;
        match kind {
            EntryType::LocalForward => {
                match LocalForward::parse(value.as_str()) {
                    Some(forward) => {
                        self.local_forwards.push(forward);
                        assert(forwards(self.local_forwards@) =~= forwards(
                            old(self).local_forwards@,
                        ).push(forward@));
                    },
                    None => {},
                }
            },
            _ => {
                self.entries.insert(kind, value);
            },
        }
    }

    /// Appends the patterns of `host` to the patterns of this block.
    pub fn extend_patterns(&mut self, host: &Host)
        ensures
            final(self)@ == (HostView {
                patterns: old(self)@.patterns + host@.patterns,
                ..old(self)@
            }),
    {
        let mut i: usize = 0;
        while i < host.patterns.len()
            invariant
                i <= host.patterns.len(),
                self.entries == old(self).entries,
                self.local_forwards == old(self).local_forwards,
                texts(self.patterns@) == texts(old(self).patterns@) + texts(host.patterns@).take(
                    i as int,
                ),
            decreases host.patterns.len() - i,
        {
            let ghost before = self.patterns@;
            self.patterns.push(host.patterns[i].clone());
            proof {
                assert(texts(self.patterns@) == texts(before).push(host.patterns@[i as int]@));
                assert(texts(host.patterns@).take(i + 1) == texts(host.patterns@).take(
                    i as int,
                ).push(host.patterns@[i as int]@));
            }
            i += 1;
        }
        assert(texts(host.patterns@).take(host.patterns.len() as int) == texts(host.patterns@));
    }

    /// Takes over the entries of `host`, its values replacing the values
    /// that this block has for the same keywords, and appends its
    /// forwardings.
    pub fn extend_entries(&mut self, host: &Host)
        ensures
            final(self)@ == (HostView {
                patterns: old(self)@.patterns,
                entries: old(self)@.entries.union_prefer_right(host@.entries),
                local_forwards: old(self)@.local_forwards + host@.local_forwards,
            }),
    {
        self.entries.overwrite_with(&host.entries);
        self.append_forwards(host);
    }

    /// Inherits from `host`: takes over the entries of `host` for the
    /// keywords that have no value in this block, and appends its
    /// forwardings.
    pub fn extend_if_not_contained(&mut self, host: &Host)
        ensures
            final(self)@ == inherited(old(self)@, host@),
    {
        self.entries.adopt_missing(&host.entries);
        self.append_forwards(host);
    }

    /// Appends copies of the forwardings of `host`.
    fn append_forwards(&mut self, host: &Host)
        ensures
            final(self)@ == (HostView {
                local_forwards: old(self)@.local_forwards + host@.local_forwards,
                ..old(self)@
            }),
    {
        let mut i: usize = 0;
        while i < host.local_forwards.len()
            invariant
                i <= host.local_forwards.len(),
                self.entries == old(self).entries,
                self.patterns == old(self).patterns,
                forwards(self.local_forwards@) == forwards(old(self).local_forwards@) + forwards(
                    host.local_forwards@,
                ).take(i as int),
            decreases host.local_forwards.len() - i,
        {
            let ghost before = self.local_forwards@;
            let copy = host.local_forwards[i].duplicate();
            self.local_forwards.push(copy);
            proof {
                assert(forwards(self.local_forwards@) == forwards(before).push(copy@));
                assert(forwards(host.local_forwards@).take(i + 1) == forwards(
                    host.local_forwards@,
                ).take(i as int).push(copy@));
            }
            i += 1;
        }
        assert(forwards(host.local_forwards@).take(host.local_forwards.len() as int) == forwards(
            host.local_forwards@,
        ));
    }

    /// The patterns of the block.
    #[allow(clippy::must_use_candidate)]
    pub fn get_patterns(&self) -> (r: &Vec<String>)
        ensures
            texts(r@) == self@.patterns,
    {
        &self.patterns
    }

    /// The value that the block has for `entry`, if it has one.
    #[allow(clippy::must_use_candidate)]
    pub fn get(&self, entry: &EntryType) -> (r: Option<String>)
        ensures
            r is Some <==> self@.entries.contains_key(*entry),
            r matches Some(value) ==> value@ == self@.entries[*entry],
    {
        match self.entries.get(*entry) {
            Some(value) => Some(value.clone()),
            None => None,
        }
    }

    /// Tells whether the block has neither entries nor forwardings.
    #[allow(clippy::must_use_candidate)]
    pub fn is_empty(&self) -> (b: bool)
        ensures
            b == (self@.entries == Map::<EntryType, Seq<char>>::empty()
                && self@.local_forwards.len() == 0),
    {
        self.entries.is_empty() && self.local_forwards.is_empty()
    }

    /// The expression and the negation of each wildcard pattern of the
    /// block, in the order of the patterns.
    #[allow(clippy::must_use_candidate)]
    pub fn matching_pattern_regexes(&self) -> (r: Vec<(String, bool)>)
        ensures
            matcher_views(r@) == matchers(self@.patterns),
    {
        let mut list: Vec<(String, bool)> = Vec::new();
        let mut i: usize = 0;
        while i < self.patterns.len()
            invariant
                i <= self.patterns.len(),
                matcher_views(list@) == matchers(texts(self.patterns@).take(i as int)),
            decreases self.patterns.len() - i,
        {
            let pattern = self.patterns[i].as_str();
            proof {
                let next = texts(self.patterns@).take(i + 1);
                assert(next.drop_last() == texts(self.patterns@).take(i as int));
                assert(next.last() == pattern@);
            }
            if has_wildcard(pattern) {
                let ghost before = list@;
                let matcher = matching_expression(pattern);
                list.push(matcher);
                assert(matcher_views(list@) == matcher_views(before).push((matcher.0@, matcher.1)));
            }
            i += 1;
        }
        assert(texts(self.patterns@).take(self.patterns.len() as int) == texts(self.patterns@));
        list
    }

    /// Tells whether the two blocks have the same entries.
    pub fn same_entries(&self, other: &Host) -> (b: bool)
        ensures
            b == (self@.entries == other@.entries),
    {
        self.entries.same_as(&other.entries)
    }

    /// Tells whether a value of the block holds the placeholder `%h`.
    pub fn mentions_placeholder(&self) -> (b: bool)
        ensures
            b == any_placeholder(self@.entries),
    {
        self.entries.mentions_placeholder()
    }

    /// A copy of the block that carries `pattern` in place of its patterns.
    pub fn with_pattern(&self, pattern: String) -> (r: Host)
        ensures
            r@ == (HostView { patterns: seq![pattern@], ..self@ }),
    {
        let mut r = self.duplicate();
        r.patterns = vec![pattern];
        assert(texts(r.patterns@) == seq![pattern@]);
        r
    }

    /// A copy of the block.
    pub fn duplicate(&self) -> (r: Host)
        ensures
            r@ == self@,
    {
        let mut r = Host {
            patterns: Vec::new(),
            entries: self.entries.duplicate(),
            local_forwards: Vec::new(),
        };
        assert(texts(r.patterns@) =~= Seq::empty());
        assert(forwards(r.local_forwards@) =~= Seq::empty());
        r.extend_patterns(self);
        r.append_forwards(self);
        assert(r@.patterns =~= self@.patterns);
        assert(r@.local_forwards =~= self@.local_forwards);
        r
    }
}

/// The matchers of a list of patterns: for each wildcard pattern, in order,
/// its expression and whether it is negated.
pub open spec fn matchers(patterns: Seq<Seq<char>>) -> Seq<(Seq<char>, bool)>
    decreases patterns.len(),
{
    if patterns.len() == 0 {
        Seq::empty()
    } else {
        let before = matchers(patterns.drop_last());
        let pattern = patterns.last();
        if is_wildcard(pattern) {
            before.push((expression(pattern), is_negated(pattern)))
        } else {
            before
        }
    }
}

/// The views of a list of matchers.
pub open spec fn matcher_views(list: Seq<(String, bool)>) -> Seq<(Seq<char>, bool)> {
    list.map_values(|m: (String, bool)| (m.0@, m.1))
}

/// Whether one of the matchers covers `name`.
pub open spec fn some_matcher_covers(list: Seq<(Seq<char>, bool)>, name: Seq<char>) -> bool {
    exists|k: int|
        0 <= k < list.len() && covered_when(search((#[trigger] list[k]).0, name), list[k].1)
}

/// The matchers of a block cover the names that its wildcard patterns cover,
/// and there are matchers exactly when the block is a pattern block.
pub proof fn matchers_follow_patterns(block: HostView, name: Seq<char>)
    ensures
        some_matcher_covers(matchers(block.patterns), name) == block_covers(block, name),
        (matchers(block.patterns).len() > 0) == is_pattern_block(block),
    decreases block.patterns.len(),
{
    let patterns = block.patterns;
    if patterns.len() > 0 {
        let shorter = HostView { patterns: patterns.drop_last(), ..block };
        matchers_follow_patterns(shorter, name);
        let last = patterns.len() - 1;
        let all = matchers(patterns);
        let before = matchers(shorter.patterns);
        if some_matcher_covers(all, name) {
            let k = choose|k: int|
                0 <= k < all.len() && covered_when(search((#[trigger] all[k]).0, name), all[k].1);
            if k < before.len() {
                assert(before[k] == all[k]);
                let index = choose|index: int|
                    0 <= index < shorter.patterns.len() && is_wildcard(
                        #[trigger] shorter.patterns[index],
                    ) && covers(shorter.patterns[index], name);
                assert(patterns[index] == shorter.patterns[index]);
            } else {
                assert(is_wildcard(patterns[last]) && covers(patterns[last], name));
            }
        }
        if block_covers(block, name) {
            let index = choose|index: int|
                0 <= index < patterns.len() && is_wildcard(#[trigger] patterns[index]) && covers(
                    patterns[index],
                    name,
                );
            if index < last {
                assert(shorter.patterns[index] == patterns[index]);
                let k = choose|k: int|
                    0 <= k < before.len() && covered_when(
                        search((#[trigger] before[k]).0, name),
                        before[k].1,
                    );
                assert(all[k] == before[k]);
            } else {
                assert(all[all.len() - 1] == (expression(patterns[last]), is_negated(
                    patterns[last],
                )));
            }
        }
        if is_pattern_block(block) {
            let index = choose|index: int|
                0 <= index < patterns.len() && is_wildcard(#[trigger] patterns[index]);
            if index < last {
                assert(shorter.patterns[index] == patterns[index]);
            }
        }
        if is_pattern_block(shorter) {
            let index = choose|index: int|
                0 <= index < shorter.patterns.len() && is_wildcard(
                    #[trigger] shorter.patterns[index],
                );
            assert(patterns[index] == shorter.patterns[index]);
        }
        if is_wildcard(patterns[last]) {
            assert(is_pattern_block(block));
        }
    }
}

/// Tells whether one of the matchers covers `name`.
pub fn matchers_cover(list: &Vec<(String, bool)>, name: &str) -> (b: bool)
    ensures
        b == some_matcher_covers(matcher_views(list@), name@),
{
    let mut k: usize = 0;
    while k < list.len()
        invariant
            k <= list.len(),
            forall|m: int|
                0 <= m < k ==> !covered_when(
                    search((#[trigger] matcher_views(list@)[m]).0, name@),
                    matcher_views(list@)[m].1,
                ),
        decreases list.len() - k,
    {
        if expression_covers(list[k].0.as_str(), list[k].1, name) {
            assert(covered_when(
                search(matcher_views(list@)[k as int].0, name@),
                matcher_views(list@)[k as int].1,
            ));
            return true;
        }
        k += 1;
    }
    false
}

/// The views of a list of blocks.
pub open spec fn views(hosts: Seq<Host>) -> Seq<HostView> {
    hosts.map_values(|host: Host| host@)
}

/// Pushing a block onto a list pushes its view onto the views.
proof fn views_push(hosts: Seq<Host>, host: Host)
    ensures
        views(hosts.push(host)) == views(hosts).push(host@),
{
    assert(views(hosts.push(host)) =~= views(hosts).push(host@));
}

/// A block without a name inherits from no block.
proof fn nameless_inherits_nothing(target: HostView, blocks: Seq<HostView>, upto: int)
    requires
        target.patterns.len() == 0,
    ensures
        with_inheritance(target, blocks, upto) == target,
    decreases upto,
{
    if upto > 0 {
        nameless_inherits_nothing(target, blocks, upto - 1);
    }
}

/// The resolution stages, on the blocks of one file in the order of the
/// file. Each stage leaves the list it is given as it is and returns a new
/// one.
#[allow(clippy::module_name_repetitions)]
pub trait HostVecExt: Sized {
    /// The blocks of the list as contracts see them.
    spec fn blocks(&self) -> Seq<HostView>;

    /// Gives every block that has no `Hostname` its first pattern for one.
    #[must_use]
    fn apply_name_to_empty_hostname(&self) -> (r: Self)
        ensures
            r.blocks() == apply_name_spec(self.blocks()),
    ;

    /// Merges the blocks that have the same entries into the first of them.
    #[must_use]
    fn merge_same_hosts(&self) -> (r: Self)
        ensures
            r.blocks() == merge_spec(self.blocks()),
    ;

    /// Spreads each block with several patterns into one block for each
    /// pattern.
    #[must_use]
    fn spread(&self) -> (r: Self)
        ensures
            r.blocks() == spread_spec(self.blocks()),
    ;

    /// Spreads the blocks, hands the entries of the pattern blocks down to
    /// the blocks whose names they cover, and removes the pattern blocks.
    #[must_use]
    fn apply_patterns(&self) -> (r: Self)
        ensures
            r.blocks() == apply_patterns_spec(self.blocks()),
    ;
}

impl HostVecExt for Vec<Host> {
    open spec fn blocks(&self) -> Seq<HostView> {
        views(self@)
    }

    fn apply_name_to_empty_hostname(&self) -> (r: Self)
        ensures
            views(r@) == apply_name_spec(views(self@)),
    {
        let mut hosts: Vec<Host> = Vec::new();
        let mut i: usize = 0;
        while i < self.len()
            invariant
                i <= self.len(),
                views(hosts@) == apply_name_spec(views(self@)).take(i as int),
            decreases self.len() - i,
        {
            let mut host = self[i].duplicate();
            if host.get(&EntryType::Hostname).is_none() {
                let patterns = host.get_patterns();
                if patterns.len() > 0 {
                    let name = patterns[0].clone();
                    host.update((EntryType::Hostname, name));
                }
            }
            proof {
                views_push(hosts@, host);
                assert(host@ == with_hostname(self@[i as int]@));
                assert(apply_name_spec(views(self@)).take(i + 1) == apply_name_spec(
                    views(self@),
                ).take(i as int).push(host@));
            }
            hosts.push(host);
            i += 1;
        }
        assert(apply_name_spec(views(self@)).take(self.len() as int) == apply_name_spec(
            views(self@),
        ));
        hosts
    }

    fn merge_same_hosts(&self) -> (r: Self)
        ensures
            views(r@) == merge_spec(views(self@)),
    {
        let ghost blocks = views(self@);
        let mut hosts: Vec<Host> = Vec::new();
        let mut i: usize = 0;
        while i < self.len()
            invariant
                i <= self.len(),
                blocks == views(self@),
                views(hosts@) == merged_upto(blocks, i as int),
            decreases self.len() - i,
        {
            let current = &self[i];
            let placeholder = current.mentions_placeholder();
            let mut twin = false;
            if !placeholder {
                let mut j: usize = i;
                while j > 0 && !twin
                    invariant
                        j <= i < self.len(),
                        blocks == views(self@),
                        current == self@[i as int],
                        twin ==> has_earlier_twin(blocks, i as int),
                        !twin ==> forall|k: int|
                            j <= k < i ==> (#[trigger] blocks[k]).entries != blocks[i as int].entries,
                    decreases j + (if twin { 0int } else { 1int }),
                {
                    j -= 1;
                    if current.same_entries(&self[j]) {
                        assert(blocks[j as int].entries == blocks[i as int].entries);
                        twin = true;
                    }
                }
            }
            if !twin {
                let mut merged = current.duplicate();
                if !placeholder {
                    let ghost entries = current@.entries;
                    proof {
                        assert(gathered_patterns(blocks, entries, i as int, i + 1)
                            == current@.patterns) by {
                            assert(gathered_patterns(blocks, entries, i as int, i as int)
                                == Seq::<Seq<char>>::empty());
                            assert(Seq::<Seq<char>>::empty() + current@.patterns
                                == current@.patterns);
                        }
                        assert(gathered_forwards(blocks, entries, i as int, i + 1)
                            == current@.local_forwards) by {
                            assert(gathered_forwards(blocks, entries, i as int, i as int)
                                == Seq::<LocalForwardView>::empty());
                            assert(Seq::<LocalForwardView>::empty() + current@.local_forwards
                                == current@.local_forwards);
                        }
                    }
                    let mut k: usize = i + 1;
                    while k < self.len()
                        invariant
                            i < k <= self.len(),
                            blocks == views(self@),
                            current@ == blocks[i as int],
                            entries == blocks[i as int].entries,
                            merged@ == (HostView {
                                patterns: gathered_patterns(blocks, entries, i as int, k as int),
                                entries,
                                local_forwards: gathered_forwards(
                                    blocks,
                                    entries,
                                    i as int,
                                    k as int,
                                ),
                            }),
                        decreases self.len() - k,
                    {
                        if self[k].same_entries(current) {
                            merged.extend_patterns(&self[k]);
                            merged.extend_entries(&self[k]);
                            assert(merged@.entries == entries) by {
                                assert(entries.union_prefer_right(entries) == entries);
                            }
                        }
                        k += 1;
                    }
                }
                proof {
                    views_push(hosts@, merged);
                    assert(merged@ == merged_block(blocks, i as int));
                }
                hosts.push(merged);
            }
            i += 1;
        }
        hosts
    }

    fn spread(&self) -> (r: Self)
        ensures
            views(r@) == spread_spec(views(self@)),
    {
        let ghost blocks = views(self@);
        let mut hosts: Vec<Host> = Vec::new();
        let mut i: usize = 0;
        while i < self.len()
            invariant
                i <= self.len(),
                blocks == views(self@),
                views(hosts@) == spread_spec(blocks.take(i as int)),
            decreases self.len() - i,
        {
            let host = &self[i];
            let patterns = host.get_patterns();
            let ghost done = views(hosts@);
            proof {
                assert(blocks.take(i + 1).drop_last() == blocks.take(i as int));
                assert(blocks.take(i + 1).last() == host@);
            }
            if patterns.len() == 0 {
                let copy = host.duplicate();
                proof {
                    views_push(hosts@, copy);
                    assert(done.push(host@) == done + spread_one(host@));
                }
                hosts.push(copy);
            } else {
                let mut k: usize = 0;
                while k < patterns.len()
                    invariant
                        k <= patterns.len(),
                        patterns.len() > 0,
                        texts(patterns@) == host@.patterns,
                        views(hosts@) == done + spread_one(host@).take(k as int),
                    decreases patterns.len() - k,
                {
                    let one = host.with_pattern(patterns[k].clone());
                    proof {
                        views_push(hosts@, one);
                        assert(one@ == single(host@, k as int));
                        assert(spread_one(host@).take(k + 1) == spread_one(host@).take(
                            k as int,
                        ).push(one@));
                    }
                    hosts.push(one);
                    k += 1;
                }
                assert(spread_one(host@).take(patterns.len() as int) == spread_one(host@));
            }
            i += 1;
        }
        assert(blocks.take(self.len() as int) == blocks);
        hosts
    }

    fn apply_patterns(&self) -> (r: Self)
        ensures
            views(r@) == apply_patterns_spec(views(self@)),
    {
        let spread = self.spread();
        let ghost blocks = views(spread@);
        let mut lists: Vec<Vec<(String, bool)>> = Vec::new();
        let mut i: usize = 0;
        while i < spread.len()
            invariant
                i <= spread.len(),
                lists.len() == i,
                blocks == views(spread@),
                forall|k: int|
                    0 <= k < i ==> matcher_views((#[trigger] lists@[k])@) == matchers(
                        blocks[k].patterns,
                    ),
            decreases spread.len() - i,
        {
            lists.push(spread[i].matching_pattern_regexes());
            i += 1;
        }
        let mut hosts: Vec<Host> = Vec::new();
        let mut j: usize = 0;
        while j < spread.len()
            invariant
                j <= spread.len(),
                lists.len() == spread.len(),
                blocks == views(spread@),
                forall|k: int|
                    0 <= k < lists.len() ==> matcher_views((#[trigger] lists@[k])@) == matchers(
                        blocks[k].patterns,
                    ),
                views(hosts@) == targets_resolved(blocks, j as int),
            decreases spread.len() - j,
        {
            proof {
                matchers_follow_patterns(blocks[j as int], Seq::empty());
                assert(matcher_views(lists@[j as int]@).len() == lists@[j as int]@.len());
            }
            if lists[j].len() == 0 {
                let mut target = spread[j].duplicate();
                let ghost original = target@;
                if spread[j].get_patterns().len() > 0 {
                    let name = spread[j].get_patterns()[0].as_str();
                    let mut i: usize = 0;
                    while i < spread.len()
                        invariant
                            i <= spread.len(),
                            lists.len() == spread.len(),
                            blocks == views(spread@),
                            original == blocks[j as int],
                            original.patterns.len() > 0,
                            name@ == original.patterns[0],
                            forall|k: int|
                                0 <= k < lists.len() ==> matcher_views((#[trigger] lists@[k])@)
                                    == matchers(blocks[k].patterns),
                            target@ == with_inheritance(original, blocks, i as int),
                        decreases spread.len() - i,
                    {
                        proof {
                            matchers_follow_patterns(blocks[i as int], name@);
                            assert(matcher_views(lists@[i as int]@) == matchers(
                                blocks[i as int].patterns,
                            ));
                        }
                        if matchers_cover(&lists[i], name) {
                            target.extend_if_not_contained(&spread[i]);
                        }
                        i += 1;
                    }
                } else {
                    proof {
                        nameless_inherits_nothing(original, blocks, blocks.len() as int);
                    }
                }
                proof {
                    views_push(hosts@, target);
                }
                hosts.push(target);
            }
            j += 1;
        }
        hosts
    }
}

} // verus!
