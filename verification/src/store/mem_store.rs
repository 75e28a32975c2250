//! The in-memory fault store.

use crate::store::fault_store::has_fault_for;
use crate::store::fault_store::holds_record;
use crate::store::fault_store::is_listing;
use crate::store::fault_store::lists_by;
use crate::store::fault_store::opt_view;
use crate::store::fault_store::record_at;
use crate::store::fault_store::views;
use crate::store::fault_store::Fault;
use crate::store::fault_store::FaultStore;
use crate::store::fault_store::FaultView;
use crate::store::fault_store::Records;
use crate::store::fault_store::StoreError;
use crate::text::eq_ignoring_case;
use crate::text::same_text;
use chashmap::CHashMap;
use vstd::prelude::*;
use vstd::string::StringExecFns;

verus! {

/// The hash map of the `chashmap` crate. Nothing inside it is visible to the
/// verifier.
#[verifier::external_type_specification]
#[verifier::external_body]
#[verifier::reject_recursive_types(K)]
#[verifier::reject_recursive_types(V)]
pub struct ExCHashMap<K, V>(CHashMap<K, V>);

/// What a map of faults holds: each fault under its key.
pub uninterp spec fn held(map: CHashMap<String, Fault>) -> Records;

/// Calls `CHashMap::new`. Trusted: the new map holds nothing.
#[verifier::external_body]
fn map_new() -> (map: CHashMap<String, Fault>)
    ensures
        held(map) == Records::empty(),
{
    CHashMap::new()
}

/// Calls `CHashMap::insert`. Trusted: afterwards the map holds the fault
/// under the key, in place of what the key held, and every other entry as
/// before; what the key held is returned.
#[verifier::external_body]
fn map_insert(map: &mut CHashMap<String, Fault>, key: String, fault: Fault) -> (prior: Option<Fault>)
    ensures
        held(*final(map)) == held(*old(map)).insert(key@, fault@),
        opt_view(prior) == record_at(held(*old(map)), key@),
{
    map.insert(key, fault)
}

/// Calls `CHashMap::remove` for a key that the map holds. Trusted: afterwards
/// the key is gone and every other entry is as before.
///
/// The call is not made for a key that the map lacks: the crate's search for
/// such a key ends only at a slot that was never used, and panics once
/// insertions and removals have left none.
#[verifier::external_body]
fn map_remove(map: &mut CHashMap<String, Fault>, key: &str)
    requires
        held(*old(map)).dom().contains(key@),
    ensures
        held(*final(map)) == held(*old(map)).remove(key@),
{
    map.remove(key);
}

/// Clones the map and walks the clone with `CHashMap::into_iter`. Trusted:
/// the walk yields every entry of the map once, in an order that nothing is
/// said about.
#[verifier::external_body]
fn map_entries(map: &CHashMap<String, Fault>) -> (entries: Vec<(String, Fault)>)
    ensures
        lists_by(
            entries@.map_values(|e: (String, Fault)| e.0@),
            entries@.map_values(|e: (String, Fault)| e.1@),
            held(*map),
        ),
{
    map.clone().into_iter().collect()
}

/// A store of faults in memory.
#[derive(Debug)]
pub struct MemStore {
    store: CHashMap<String, Fault>,
}

/// The position of `name` among the keys of `entries`, if it is one of them.
fn position_of(entries: &Vec<(String, Fault)>, name: &str) -> (r: Option<usize>)
    ensures
        match r {
            Some(i) => i < entries.len() && entries[i as int].0@ == name@,
            None => forall|j: int| 0 <= j < entries.len() ==> entries[j].0@ != name@,
        },
{
    let mut i: usize = 0;
    while i < entries.len()
        invariant
            i <= entries.len(),
            forall|j: int| 0 <= j < i ==> entries[j].0@ != name@,
        decreases entries.len() - i,
    {
        if same_text(entries[i].0.as_str(), name) {
            return Some(i);
        }
        i = i + 1;
    }
    None
}

impl MemStore {
    /// An empty store.
    pub fn new_db() -> (db: MemStore)
        ensures
            db.records() == Records::empty(),
            db.dependable(),
    {
        MemStore { store: map_new() }
    }

    /// The entries of the store, each key beside its fault.
    fn entries(&self) -> (entries: Vec<(String, Fault)>)
        ensures
            lists_by(
                entries@.map_values(|e: (String, Fault)| e.0@),
                entries@.map_values(|e: (String, Fault)| e.1@),
                self.records(),
            ),
    {
        map_entries(&self.store)
    }
}

impl FaultStore for MemStore {
    closed spec fn records(&self) -> Records {
        held(self.store)
    }

    open spec fn dependable(&self) -> bool {
        true
    }

    fn store(&mut self, fault_name: &str, fault: &Fault) -> (r: Result<Option<Fault>, StoreError>) {
        Ok(map_insert(&mut self.store, String::from_str(fault_name), fault.clone()))
    }

    fn get_by_fault_name(&self, fault_name: &str) -> (r: Result<Fault, StoreError>) {
        let entries = self.entries();
        let ghost names = entries@.map_values(|e: (String, Fault)| e.0@);
        match position_of(&entries, fault_name) {
            Some(i) => {
                assert(names[i as int] == fault_name@);
                assert(names.contains(fault_name@));
                Ok(entries[i].1.clone())
            },
            None => {
                assert(!names.contains(fault_name@)) by {
                    if names.contains(fault_name@) {
                        let j = choose|j: int| 0 <= j < names.len() && names[j] == fault_name@;
                        assert(entries[j].0@ == fault_name@);
                    }
                }
                let mut message = String::from_str("Fault ");
                message.append(fault_name);
                message.append(" not found");
                Err(StoreError { message })
            },
        }
    }

    fn get_all_faults(&self) -> (r: Result<Vec<Fault>, StoreError>) {
        let entries = self.entries();
        let ghost names = entries@.map_values(|e: (String, Fault)| e.0@);
        let mut faults: Vec<Fault> = Vec::new();
        let mut i: usize = 0;
        while i < entries.len()
            invariant
                i <= entries.len(),
                faults.len() == i,
                forall|j: int| 0 <= j < i ==> faults[j]@ == entries[j].1@,
            decreases entries.len() - i,
        {
            faults.push(entries[i].1.clone());
            i = i + 1;
        }
        proof {
            assert(views(faults@) =~= entries@.map_values(|e: (String, Fault)| e.1@));
            assert(lists_by(names, views(faults@), self.records()));
        }
        Ok(faults)
    }

    fn get_by_redis_cmd(&self, redis_cmd: &str) -> (r: Option<Fault>) {
        let entries = self.entries();
        let ghost names = entries@.map_values(|e: (String, Fault)| e.0@);
        let ghost records = self.records();
        let mut i: usize = 0;
        while i < entries.len()
            invariant
                i <= entries.len(),
                names == entries@.map_values(|e: (String, Fault)| e.0@),
                records == self.records(),
                lists_by(names, entries@.map_values(|e: (String, Fault)| e.1@), records),
                forall|j: int| 0 <= j < i ==> !entries[j].1@.applies_to(redis_cmd@),
            decreases entries.len() - i,
        {
            if eq_ignoring_case(redis_cmd, entries[i].1.command.as_str()) {
                let fault = entries[i].1.clone();
                proof {
                    let name = names[i as int];
                    assert(names.contains(name));
                    assert(records[name] == entries[i as int].1@);
                    assert(records.contains_pair(name, fault@));
                    assert(records[name].applies_to(redis_cmd@));
                }
                return Some(fault);
            }
            i = i + 1;
        }
        proof {
            if has_fault_for(records, redis_cmd@) {
                let name = choose|name: Seq<char>|
                    records.dom().contains(name) && #[trigger] records[name].applies_to(
                        redis_cmd@,
                    );
                assert(names.contains(name));
                let j = choose|j: int| 0 <= j < names.len() && names[j] == name;
                assert(records[names[j]] == entries[j].1@);
            }
        }
        None
    }

    fn delete_fault(&mut self, fault_name: &str) -> (r: Result<bool, StoreError>) {
        let entries = self.entries();
        let ghost names = entries@.map_values(|e: (String, Fault)| e.0@);
        match position_of(&entries, fault_name) {
            Some(i) => {
                proof {
                    assert(names[i as int] == fault_name@);
                    assert(names.contains(fault_name@));
                }
                map_remove(&mut self.store, fault_name);
                Ok(true)
            },
            None => {
                proof {
                    if names.contains(fault_name@) {
                        let j = choose|j: int| 0 <= j < names.len() && names[j] == fault_name@;
                        assert(entries[j].0@ == fault_name@);
                    }
                    assert(self.records().remove(fault_name@) =~= self.records());
                }
                Ok(false)
            },
        }
    }
}

} // verus!
