//! The credential store: one record per character, keyed by name.
use vstd::prelude::*;
use crate::text::{is_prefix_of, same_text, starts_with};

verus! {

/// What is kept of one authorised character.
#[derive(Clone, Debug, PartialEq, Eq)]
pub struct CharacterData {
    pub name: String,
    pub id: i32,
    pub refresh_token: String,
    pub scopes: String,
}

/// The stored characters, at most one per name.
#[derive(Clone, Debug)]
pub struct CredentialStore {
    pub toons: Vec<CharacterData>,
}

/// A copy of `c`.
pub fn copy_record(c: &CharacterData) -> (r: CharacterData)
    ensures
        r == *c,
{
    CharacterData {
        name: c.name.clone(),
        id: c.id,
        refresh_token: c.refresh_token.clone(),
        scopes: c.scopes.clone(),
    }
}

/// Index of the record named `name`, if one is.
pub open spec fn index_of_name(records: Seq<CharacterData>, name: Seq<char>) -> Option<int> {
    if exists|k: int| 0 <= k < records.len() && records[k].name@ == name {
        Some(choose|k: int| 0 <= k < records.len() && records[k].name@ == name)
    } else {
        None
    }
}

/// Some record is named `name`.
pub open spec fn has_name(records: Seq<CharacterData>, name: Seq<char>) -> bool {
    exists|l: int| 0 <= l < records.len() && #[trigger] records[l].name@ == name
}

/// No two of the records share a name.
pub open spec fn distinct_names(records: Seq<CharacterData>) -> bool {
    forall|k: int, l: int| 0 <= k < l < records.len() ==> #[trigger] records[k].name@ != #[trigger] records[l].name@
}

/// `c` is among the first `n` records, and no later one of those shares its name.
pub open spec fn last_of_name(records: Seq<CharacterData>, n: int, c: CharacterData) -> bool {
    exists|i: int|
        0 <= i < n && records[i] == c && forall|j: int| i < j < n ==> (#[trigger] records[j]).name@ != c.name@
}

impl CredentialStore {
    /// No two records share a name.
    pub open spec fn wf(&self) -> bool {
        distinct_names(self.toons@)
    }

    /// An empty store.
    pub fn new() -> (r: CredentialStore)
        ensures
            r.wf(),
            r.toons@ == Seq::<CharacterData>::empty(),
    {
        CredentialStore { toons: Vec::new() }
    }

    /// Number of stored characters.
    pub fn len(&self) -> (r: usize)
        ensures
            r == self.toons@.len(),
    {
        self.toons.len()
    }

    /// Index of the record named `name`.
    pub fn position(&self, name: &str) -> (r: Option<usize>)
        requires
            self.wf(),
        ensures
            r matches Some(k) ==> k < self.toons@.len() && self.toons@[k as int].name@ == name@,
            r is None ==> forall|k: int| 0 <= k < self.toons@.len() ==> #[trigger] self.toons@[k].name@ != name@,
    {
        let mut i: usize = 0;
        while i < self.toons.len()
            invariant
                i <= self.toons@.len(),
                forall|k: int| 0 <= k < i ==> #[trigger] self.toons@[k].name@ != name@,
            decreases self.toons@.len() - i,
        {
            if same_text(self.toons[i].name.as_str(), name) {
                return Some(i);
            }
            i = i + 1;
        }
        None
    }

    /// Stores `record` under its name, replacing a record of the same name in place.
    pub fn insert(&mut self, record: CharacterData)
        requires
            old(self).wf(),
        ensures
            final(self).wf(),
            index_of_name(old(self).toons@, record.name@) matches Some(k) ==> final(self).toons@
                == old(self).toons@.update(k, record),
            index_of_name(old(self).toons@, record.name@) is None ==> final(self).toons@
                == old(self).toons@.push(record),
    {
        let ghost old_toons = self.toons@;
        match self.position(record.name.as_str()) {
            Some(k) => {
                proof {
                    let c = choose|j: int| 0 <= j < old_toons.len() && old_toons[j].name@ == record.name@;
                    if c != k as int {
                        if c < k {
                            assert(old_toons[c].name@ != old_toons[k as int].name@);
                        } else {
                            assert(old_toons[k as int].name@ != old_toons[c].name@);
                        }
                    }
                }
                self.toons.set(k, record);
            },
            None => {
                self.toons.push(record);
            },
        }
        assert forall|k: int, l: int| 0 <= k < l < self.toons@.len() implies #[trigger] self.toons@[k].name@
            != #[trigger] self.toons@[l].name@ by {
            if l < old_toons.len() && k < old_toons.len() {
                if self.toons@[k] != old_toons[k] {
                    assert(old_toons[l].name@ != old_toons[k].name@);
                } else if self.toons@[l] != old_toons[l] {
                    assert(old_toons[k].name@ != old_toons[l].name@);
                } else {
                    assert(old_toons[k].name@ != old_toons[l].name@);
                }
            }
        }
    }

    /// A store holding `records`, where a later record replaces an earlier
    /// one of the same name.
    pub fn from_records(records: &Vec<CharacterData>) -> (r: CredentialStore)
        ensures
            r.wf(),
            forall|k: int| 0 <= k < r.toons@.len() ==> last_of_name(records@, records@.len() as int, #[trigger] r.toons@[k]),
            forall|k: int| 0 <= k < records@.len() ==> has_name(r.toons@, (#[trigger] records@[k]).name@),
            distinct_names(records@) ==> r.toons@ == records@,
    {
        let mut store = CredentialStore::new();
        let mut i: usize = 0;
        while i < records.len()
            invariant
                i <= records@.len(),
                store.wf(),
                forall|k: int| 0 <= k < store.toons@.len() ==> last_of_name(records@, i as int, #[trigger] store.toons@[k]),
                forall|k: int| 0 <= k < i ==> has_name(store.toons@, (#[trigger] records@[k]).name@),
                distinct_names(records@) ==> store.toons@ == records@.take(i as int),
            decreases records@.len() - i,
        {
            let ghost before = store.toons@;
            let rec = copy_record(&records[i]);
            store.insert(rec);
            proof {
                let name = records@[i as int].name@;
                if distinct_names(records@) {
                    if index_of_name(before, name) is Some {
                        let c = choose|j: int| 0 <= j < before.len() && before[j].name@ == name;
                        assert(records@[c].name@ != records@[i as int].name@);
                    }
                    assert(store.toons@ =~= records@.take(i + 1));
                }
                match index_of_name(before, name) {
                    Some(c) => {
                        assert(store.toons@[c].name@ == records@[i as int].name@);
                    },
                    None => {
                        assert(store.toons@[before.len() as int].name@ == records@[i as int].name@);
                    },
                }
                let pos = match index_of_name(before, name) {
                    Some(c) => c,
                    None => before.len() as int,
                };
                assert(store.toons@[pos] == records@[i as int]);
                assert forall|k: int| 0 <= k < store.toons@.len() implies last_of_name(
                    records@,
                    i + 1,
                    #[trigger] store.toons@[k],
                ) by {
                    if k == pos {
                        assert(records@[i as int] == store.toons@[k]);
                    } else {
                        assert(store.toons@[k] == before[k]);
                        assert(before[k].name@ != name) by {
                            if index_of_name(before, name) is Some {
                                if k < pos {
                                    assert(before[k].name@ != before[pos].name@);
                                } else {
                                    assert(before[pos].name@ != before[k].name@);
                                }
                            }
                        }
                        assert(last_of_name(records@, i as int, before[k]));
                        let w = choose|w: int|
                            0 <= w < i && records@[w] == before[k] && forall|j: int|
                                w < j < i ==> (#[trigger] records@[j]).name@ != before[k].name@;
                        assert forall|j: int| w < j < i + 1 implies (#[trigger] records@[j]).name@
                            != before[k].name@ by {
                            if j < i {
                            }
                        }
                    }
                }
                assert forall|k: int| 0 <= k < i + 1 implies has_name(
                    store.toons@,
                    (#[trigger] records@[k]).name@,
                ) by {
                    if k < i {
                        assert(has_name(before, records@[k].name@));
                        let l0 = choose|l: int|
                            0 <= l < before.len() && #[trigger] before[l].name@ == records@[k].name@;
                        assert(store.toons@[l0].name@ == before[l0].name@);
                    } else {
                        match index_of_name(before, name) {
                            Some(c) => {
                                assert(store.toons@[c].name@ == name);
                            },
                            None => {
                                assert(store.toons@[before.len() as int].name@ == name);
                            },
                        }
                    }
                }
            }
            i = i + 1;
        }
        assert(records@.take(records@.len() as int) =~= records@);
        store
    }

    /// Finds a character by name: the record of exactly that name if there is
    /// one, else the first record whose name begins with `name`.
    pub fn find_by_name(&self, name: &str) -> (r: Option<&CharacterData>)
        requires
            self.wf(),
        ensures
            r matches Some(c) ==> exists|k: int|
                0 <= k < self.toons@.len() && self.toons@[k] == *c && (self.toons@[k].name@ == name@
                    || (index_of_name(self.toons@, name@) is None && is_prefix_of(name@, self.toons@[k].name@)
                    && forall|j: int| 0 <= j < k ==> !is_prefix_of(name@, #[trigger] self.toons@[j].name@))),
            r is None ==> forall|k: int|
                0 <= k < self.toons@.len() ==> !is_prefix_of(name@, #[trigger] self.toons@[k].name@),
    {
        match self.position(name) {
            Some(k) => {
                return Some(&self.toons[k]);
            },
            None => {},
        }
        let mut i: usize = 0;
        while i < self.toons.len()
            invariant
                i <= self.toons@.len(),
                forall|k: int| 0 <= k < self.toons@.len() ==> #[trigger] self.toons@[k].name@ != name@,
                forall|j: int| 0 <= j < i ==> !is_prefix_of(name@, #[trigger] self.toons@[j].name@),
            decreases self.toons@.len() - i,
        {
            if starts_with(self.toons[i].name.as_str(), name) {
                return Some(&self.toons[i]);
            }
            i = i + 1;
        }
        None
    }
}

} // verus!
