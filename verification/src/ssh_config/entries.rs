//! The scalar entries of a block: a table from keywords to values.

use super::{EntryType, ENTRY_TYPE_COUNT};
use crate::text::{has_placeholder, mentions_placeholder};
use std::collections::HashMap;
use vstd::prelude::*;

verus! {

broadcast use vstd::std_specs::hash::group_hash_axioms;

/// Whether some value of `entries` holds the placeholder `%h`.
pub open spec fn any_placeholder(entries: Map<EntryType, Seq<char>>) -> bool {
    exists|kind: EntryType| #[trigger] entries.contains_key(kind) && has_placeholder(entries[kind])
}

/// The scalar entries of a block: at most one value for each keyword. The
/// table is kept under the codes of the keywords.
#[derive(Debug, Clone)]
pub struct Entries {
    map: HashMap<u8, String>,
}

impl View for Entries {
    type V = Map<EntryType, Seq<char>>;

    closed spec fn view(&self) -> Map<EntryType, Seq<char>> {
        Map::new(
            |kind: EntryType| self.map@.contains_key(kind.code_spec()),
            |kind: EntryType| self.map@[kind.code_spec()]@,
        )
    }
}

impl Entries {
    /// No entries.
    pub fn new() -> (r: Entries)
        ensures
            r@ == Map::<EntryType, Seq<char>>::empty(),
    {
        let r = Entries { map: HashMap::new() };
        assert(r@ =~= Map::<EntryType, Seq<char>>::empty());
        r
    }

    /// Sets the value of `kind`, in place of the one it had if it had one.
    pub fn insert(&mut self, kind: EntryType, value: String)
        ensures
            final(self)@ == old(self)@.insert(kind, value@),
    {
        let code = kind.code();
        self.map.insert(code, value);
        proof {
            assert forall|other: EntryType| other.code_spec() == code implies other == kind by {
                other.code_round_trip();
                kind.code_round_trip();
            }
            assert(self@ =~= old(self)@.insert(kind, value@));
        }
    }

    /// The value of `kind`, if it has one.
    pub fn get(&self, kind: EntryType) -> (r: Option<&String>)
        ensures
            r is Some <==> self@.contains_key(kind),
            r matches Some(value) ==> value@ == self@[kind],
    {
        self.map.get(&kind.code())
    }

    /// Tells whether there is no entry at all.
    pub fn is_empty(&self) -> (b: bool)
        ensures
            b == (self@ == Map::<EntryType, Seq<char>>::empty()),
    {
        let mut code: u8 = 0;
        while code < ENTRY_TYPE_COUNT
            invariant
                code <= ENTRY_TYPE_COUNT,
                forall|c: u8| c < code ==> !self.map@.contains_key(c),
            decreases ENTRY_TYPE_COUNT - code,
        {
            if self.map.contains_key(&code) {
                proof {
                    EntryType::of_code_round_trip(code);
                    assert(self@.contains_key(EntryType::of_code(code)));
                }
                return false;
            }
            code += 1;
        }
        proof {
            assert forall|kind: EntryType| !self@.contains_key(kind) by {
                kind.code_round_trip();
            }
            assert(self@ =~= Map::<EntryType, Seq<char>>::empty());
        }
        true
    }

    /// Tells whether the two hold the same keywords with the same values.
    pub fn same_as(&self, other: &Entries) -> (b: bool)
        ensures
            b == (self@ == other@),
    {
        let mut code: u8 = 0;
        while code < ENTRY_TYPE_COUNT
            invariant
                code <= ENTRY_TYPE_COUNT,
                forall|c: u8|
                    c < code ==> {
                        &&& self.map@.contains_key(c) == other.map@.contains_key(c)
                        &&& self.map@.contains_key(c) ==> self.map@[c]@ == other.map@[c]@
                    },
            decreases ENTRY_TYPE_COUNT - code,
        {
            let same = match (self.map.get(&code), other.map.get(&code)) {
                (None, None) => true,
                (Some(mine), Some(theirs)) => *mine == *theirs,
                _ => false,
            };
            if !same {
                proof {
                    EntryType::of_code_round_trip(code);
                    let kind = EntryType::of_code(code);
                    assert(self@.contains_key(kind) != other@.contains_key(kind) || (
                    self@.contains_key(kind) && self@[kind] != other@[kind]));
                }
                return false;
            }
            code += 1;
        }
        proof {
            assert forall|kind: EntryType|
                self@.contains_key(kind) == other@.contains_key(kind) && (self@.contains_key(kind)
                    ==> self@[kind] == other@[kind]) by {
                kind.code_round_trip();
            }
            assert(self@ =~= other@);
        }
        true
    }

    /// Tells whether some value holds the placeholder `%h`.
    pub fn mentions_placeholder(&self) -> (b: bool)
        ensures
            b == any_placeholder(self@),
    {
        let mut code: u8 = 0;
        while code < ENTRY_TYPE_COUNT
            invariant
                code <= ENTRY_TYPE_COUNT,
                forall|c: u8|
                    c < code && self.map@.contains_key(c) ==> !has_placeholder(
                        #[trigger] self.map@[c]@,
                    ),
            decreases ENTRY_TYPE_COUNT - code,
        {
            match self.map.get(&code) {
                Some(value) => {
                    if mentions_placeholder(value.as_str()) {
                        proof {
                            EntryType::of_code_round_trip(code);
                            assert(self@.contains_key(EntryType::of_code(code)));
                        }
                        return true;
                    }
                },
                None => {},
            }
            code += 1;
        }
        proof {
            assert forall|kind: EntryType| self@.contains_key(kind) implies !has_placeholder(
                self@[kind],
            ) by {
                kind.code_round_trip();
            }
        }
        false
    }

    /// Takes over every entry of `other` whose keyword has no value here.
    /// The values that are here stay.
    pub fn adopt_missing(&mut self, other: &Entries)
        ensures
            final(self)@ == other@.union_prefer_right(old(self)@),
    {
        let ghost before = self.map@;
        let mut code: u8 = 0;
        while code < ENTRY_TYPE_COUNT
            invariant
                code <= ENTRY_TYPE_COUNT,
                self.map@ == Map::new(
                    |c: u8| before.contains_key(c) || (c < code && other.map@.contains_key(c)),
                    |c: u8|
                        if before.contains_key(c) {
                            before[c]
                        } else {
                            other.map@[c]
                        },
                ),
            decreases ENTRY_TYPE_COUNT - code,
        {
            if !self.map.contains_key(&code) {
                match other.map.get(&code) {
                    Some(value) => {
                        self.map.insert(code, value.clone());
                    },
                    None => {},
                }
            }
            code += 1;
        }
        proof {
            let merged = other@.union_prefer_right(old(self)@);
            assert forall|kind: EntryType|
                self@.contains_key(kind) == merged.contains_key(kind) && (self@.contains_key(kind)
                    ==> self@[kind] == merged[kind]) by {
                kind.code_round_trip();
            }
            assert(self@ =~= merged);
        }
    }

    /// Takes over every entry of `other`. Where both have a value for a
    /// keyword, the value of `other` replaces the one that is here.
    pub fn overwrite_with(&mut self, other: &Entries)
        ensures
            final(self)@ == old(self)@.union_prefer_right(other@),
    {
        let ghost before = self.map@;
        let mut code: u8 = 0;
        while code < ENTRY_TYPE_COUNT
            invariant
                code <= ENTRY_TYPE_COUNT,
                self.map@ == Map::new(
                    |c: u8| before.contains_key(c) || (c < code && other.map@.contains_key(c)),
                    |c: u8|
                        if c < code && other.map@.contains_key(c) {
                            other.map@[c]
                        } else {
                            before[c]
                        },
                ),
            decreases ENTRY_TYPE_COUNT - code,
        {
            match other.map.get(&code) {
                Some(value) => {
                    self.map.insert(code, value.clone());
                },
                None => {},
            }
            code += 1;
        }
        proof {
            let merged = old(self)@.union_prefer_right(other@);
            assert forall|kind: EntryType|
                self@.contains_key(kind) == merged.contains_key(kind) && (self@.contains_key(kind)
                    ==> self@[kind] == merged[kind]) by {
                kind.code_round_trip();
            }
            assert(self@ =~= merged);
        }
    }

    /// A copy of these entries.
    pub fn duplicate(&self) -> (r: Entries)
        ensures
            r@ == self@,
    {
        Entries { map: self.map.clone() }
    }
}

} // verus!
