//! Fault records and the interface that every store of them offers.

use crate::text::same_ignoring_case;
use crate::text::same_text;
use vstd::prelude::*;
use vstd::string::StringExecFns;

verus! {

/// Name of the fault type that delays a request.
pub const DELAY_FAULT: &'static str = "delay";

/// Name of the fault type that answers a request with an error.
pub const ERROR_FAULT: &'static str = "error";

/// Name of the fault type that drops the connection.
pub const DROP_FAULT: &'static str = "drop";

/// A point in time: whole seconds since the Unix epoch, and the nanoseconds
/// past that second.
#[derive(Debug, Clone, Copy, PartialEq, Eq)]
pub struct Timestamp {
    pub secs: i64,
    pub nanos: u32,
}

/// Whether `a` is no earlier than `b`. A record that was never stamped counts
/// as older than every stamped one.
pub open spec fn not_before(a: Option<Timestamp>, b: Option<Timestamp>) -> bool {
    match (a, b) {
        (_, None) => true,
        (None, Some(_)) => false,
        (Some(x), Some(y)) => x.secs > y.secs || (x.secs == y.secs && x.nanos >= y.nanos),
    }
}

/// Decides [`not_before`].
pub fn is_not_before(a: &Option<Timestamp>, b: &Option<Timestamp>) -> (r: bool)
    ensures
        r == not_before(*a, *b),
{
    match b {
        None => true,
        Some(y) => match a {
            None => false,
            Some(x) => x.secs > y.secs || (x.secs == y.secs && x.nanos >= y.nanos),
        },
    }
}

/// A fault: what to do to requests of one command.
///
/// A `delay` fault holds its `duration`, in milliseconds; an `error` fault
/// holds the `error_msg` that is sent in place of the server's reply; a `drop`
/// fault holds neither.
#[derive(Debug, PartialEq, Eq)]
pub struct Fault {
    /// The fault's name, by which a store finds it.
    pub name: String,
    /// Free text for the operator.
    pub description: Option<String>,
    /// One of `delay`, `error`, `drop`.
    pub fault_type: String,
    /// For a `delay` fault, the delay in milliseconds.
    pub duration: Option<u64>,
    /// For an `error` fault, the message sent to the client.
    pub error_msg: Option<String>,
    /// The command that the fault applies to, in any letter case.
    pub command: String,
    /// When the control plane last stored the record.
    pub last_modified: Option<Timestamp>,
}

/// What a [`Fault`] holds, as mathematical values.
pub struct FaultView {
    pub name: Seq<char>,
    pub description: Option<Seq<char>>,
    pub fault_type: Seq<char>,
    pub duration: Option<u64>,
    pub error_msg: Option<Seq<char>>,
    pub command: Seq<char>,
    pub last_modified: Option<Timestamp>,
}

/// The characters of an optional string.
pub open spec fn opt_text(s: Option<String>) -> Option<Seq<char>> {
    match s {
        Some(t) => Some(t@),
        None => None,
    }
}

impl View for Fault {
    type V = FaultView;

    open spec fn view(&self) -> FaultView {
        FaultView {
            name: self.name@,
            description: opt_text(self.description),
            fault_type: self.fault_type@,
            duration: self.duration,
            error_msg: opt_text(self.error_msg),
            command: self.command@,
            last_modified: self.last_modified,
        }
    }
}

fn clone_opt_text(s: &Option<String>) -> (r: Option<String>)
    ensures
        opt_text(r) == opt_text(*s),
{
    match s {
        Some(t) => Some(t.clone()),
        None => None,
    }
}

impl Clone for Fault {
    fn clone(&self) -> (r: Self)
        ensures
            r@ == self@,
    {
        Fault {
            name: self.name.clone(),
            description: clone_opt_text(&self.description),
            fault_type: self.fault_type.clone(),
            duration: self.duration,
            error_msg: clone_opt_text(&self.error_msg),
            command: self.command.clone(),
            last_modified: self.last_modified,
        }
    }
}

impl FaultView {
    /// The kind of fault that the record's `fault_type` names, if it names one.
    pub open spec fn variant(self) -> Option<FaultVariants> {
        FaultVariants::named(self.fault_type)
    }

    /// Whether the record applies to a request of the given command.
    pub open spec fn applies_to(self, command: Seq<char>) -> bool {
        same_ignoring_case(command, self.command)
    }

    /// The same record, stamped as stored at `now`.
    pub open spec fn stamped(self, now: Timestamp) -> FaultView {
        FaultView { last_modified: Some(now), ..self }
    }
}

/// The kinds of fault.
#[derive(Debug, Clone, Copy, PartialEq, Eq, Structural)]
pub enum FaultVariants {
    /// Hold the request back for a while, then pass it on.
    Delay,
    /// Answer with an error in place of the server.
    Error,
    /// Close the connection without an answer.
    DropConn,
}

impl FaultVariants {
    /// The name of the kind, as a fault record spells it.
    pub open spec fn name(self) -> Seq<char> {
        match self {
            FaultVariants::Delay => "delay"@,
            FaultVariants::Error => "error"@,
            FaultVariants::DropConn => "drop"@,
        }
    }

    /// The kind that a name spells, if any. Names are matched to the letter.
    pub open spec fn named(name: Seq<char>) -> Option<FaultVariants> {
        if name == "delay"@ {
            Some(FaultVariants::Delay)
        } else if name == "error"@ {
            Some(FaultVariants::Error)
        } else if name == "drop"@ {
            Some(FaultVariants::DropConn)
        } else {
            None
        }
    }

    /// The name of the kind, as a fault record spells it.
    pub fn as_str(&self) -> (s: &'static str)
        ensures
            s@ == self.name(),
    {
        match self {
            FaultVariants::Delay => DELAY_FAULT,
            FaultVariants::Error => ERROR_FAULT,
            FaultVariants::DropConn => DROP_FAULT,
        }
    }

    /// Reads the kind that a name spells.
    pub fn from_name(name: &str) -> (r: Option<FaultVariants>)
        ensures
            r == FaultVariants::named(name@),
    {
        if same_text(name, DELAY_FAULT) {
            Some(FaultVariants::Delay)
        } else if same_text(name, ERROR_FAULT) {
            Some(FaultVariants::Error)
        } else if same_text(name, DROP_FAULT) {
            Some(FaultVariants::DropConn)
        } else {
            None
        }
    }
}

/// A failure of a store.
#[derive(Debug)]
pub struct StoreError {
    pub message: String,
}

impl StoreError {
    /// An error with the given message.
    pub fn new(msg: &str) -> (e: Self)
        ensures
            e.message@ == msg@,
    {
        StoreError { message: String::from_str(msg) }
    }

    /// The message, as the error is displayed.
    pub fn to_string(&self) -> (s: String)
        ensures
            s@ == self.message@,
    {
        self.message.clone()
    }
}

/// The records of a store: each fault under the name it was stored by.
pub type Records = Map<Seq<char>, FaultView>;

/// Whether `faults` lists the records of a store: every record once, in some
/// order. Two names may hold equal records; each is listed.
pub open spec fn is_listing(faults: Seq<FaultView>, records: Records) -> bool {
    exists|names: Seq<Seq<char>>| lists_by(names, faults, records)
}

/// Whether `faults` lists the records of a store in the order in which `names`
/// runs through the store's names.
pub open spec fn lists_by(names: Seq<Seq<char>>, faults: Seq<FaultView>, records: Records) -> bool {
    &&& names.len() == faults.len()
    &&& names.no_duplicates()
    &&& forall|name: Seq<char>| records.dom().contains(name) <==> names.contains(name)
    &&& forall|i: int| 0 <= i < names.len() ==> faults[i] == #[trigger] records[names[i]]
}

/// A listing has as many faults as the store has names.
pub proof fn lemma_listing_len(faults: Seq<FaultView>, records: Records)
    requires
        is_listing(faults, records),
    ensures
        records.dom().finite(),
        faults.len() == records.dom().len(),
{
    let names = choose|names: Seq<Seq<char>>| lists_by(names, faults, records);
    names.unique_seq_to_set();
    assert(names.to_set() =~= records.dom());
}

/// The record stored under a name, if there is one.
pub open spec fn record_at(records: Records, name: Seq<char>) -> Option<FaultView> {
    if records.dom().contains(name) {
        Some(records[name])
    } else {
        None
    }
}

/// The view of an optional fault.
pub open spec fn opt_view(fault: Option<Fault>) -> Option<FaultView> {
    match fault {
        Some(f) => Some(f@),
        None => None,
    }
}

/// Whether some record of the store applies to the command.
pub open spec fn has_fault_for(records: Records, command: Seq<char>) -> bool {
    exists|name: Seq<char>| records.dom().contains(name) && #[trigger] records[name].applies_to(command)
}

/// Whether `fault` is a record of the store.
pub open spec fn holds_record(records: Records, fault: FaultView) -> bool {
    exists|name: Seq<char>| #[trigger] records.contains_pair(name, fault)
}

/// The views of a list of faults.
pub open spec fn views(faults: Seq<Fault>) -> Seq<FaultView> {
    faults.map_values(|f: Fault| f@)
}

/// A change to a store.
pub enum Change {
    /// A fault is stored under a name.
    Put(Seq<char>, FaultView),
    /// The fault of a name is removed.
    Delete(Seq<char>),
}

/// The records after one change.
pub open spec fn changed(records: Records, change: Change) -> Records {
    match change {
        Change::Put(name, fault) => records.insert(name, fault),
        Change::Delete(name) => records.remove(name),
    }
}

/// The records after a run of changes, made one after the other.
pub open spec fn replayed(records: Records, changes: Seq<Change>) -> Records
    decreases changes.len(),
{
    if changes.len() == 0 {
        records
    } else {
        changed(replayed(records, changes.drop_last()), changes.last())
    }
}

/// Whatever a store holds after a run of changes is, field for field, a
/// fault that one of the changes stored, under the name it was stored by:
/// no record mixes two of them.
pub proof fn lemma_records_are_whole(changes: Seq<Change>, name: Seq<char>)
    requires
        replayed(Records::empty(), changes).dom().contains(name),
    ensures
        exists|i: int|
            0 <= i < changes.len() && #[trigger] changes[i] == Change::Put(
                name,
                replayed(Records::empty(), changes)[name],
            ),
    decreases changes.len(),
{
    if changes.len() > 0 {
        let earlier = changes.drop_last();
        let last = changes.last();
        let done = match last {
            Change::Put(key, _) => key == name,
            Change::Delete(_) => false,
        };
        if done {
            assert(changes[changes.len() - 1] == Change::Put(
                name,
                replayed(Records::empty(), changes)[name],
            ));
        } else {
            lemma_records_are_whole(earlier, name);
            let i = choose|i: int|
                0 <= i < earlier.len() && #[trigger] earlier[i] == Change::Put(
                    name,
                    replayed(Records::empty(), earlier)[name],
                );
            assert(changes[i] == earlier[i]);
        }
    }
}

/// What a store says where it holds no fault of the given name.
pub open spec fn not_found_message(fault_name: Seq<char>) -> Seq<char> {
    "Fault "@ + fault_name + " not found"@
}

/// A store of faults, found by name or by the command they apply to.
///
/// A store may fail for reasons of its own (a lost connection, a poisoned
/// lock); one that never does is [`dependable`](FaultStore::dependable).
pub trait FaultStore {
    /// The records that the store holds.
    spec fn records(&self) -> Records;

    /// Whether the store never fails for reasons of its own.
    spec fn dependable(&self) -> bool;

    /// Stores `fault` under `key`, in place of what `key` held before, and
    /// returns what it held before.
    fn store(&mut self, key: &str, fault: &Fault) -> (r: Result<Option<Fault>, StoreError>)
        ensures
            final(self).dependable() == old(self).dependable(),
            old(self).dependable() ==> r is Ok,
            r matches Ok(prior) ==> opt_view(prior) == record_at(old(self).records(), key@),
            r is Ok ==> final(self).records() == old(self).records().insert(key@, fault@),
            r is Err ==> final(self).records() == old(self).records(),
    ;

    /// The fault stored under `fault_name`. Fails where there is none.
    fn get_by_fault_name(&self, fault_name: &str) -> (r: Result<Fault, StoreError>)
        ensures
            r matches Ok(fault) ==> self.records().contains_pair(fault_name@, fault@),
            self.dependable() ==> (r is Ok <==> self.records().dom().contains(fault_name@)),
            self.dependable() ==> (r matches Err(e) ==> e.message@ == not_found_message(
                fault_name@,
            )),
    ;

    /// All faults of the store, in no particular order.
    fn get_all_faults(&self) -> (r: Result<Vec<Fault>, StoreError>)
        ensures
            self.dependable() ==> r is Ok,
            r matches Ok(faults) ==> is_listing(views(faults@), self.records()),
    ;

    /// A fault that applies to the command, if the store holds one. Letter
    /// case is set aside. Where several apply, any of them may be returned.
    fn get_by_redis_cmd(&self, redis_cmd: &str) -> (r: Option<Fault>)
        ensures
            r matches Some(fault) ==> holds_record(self.records(), fault@) && fault@.applies_to(
                redis_cmd@,
            ),
            self.dependable() ==> (r is Some <==> has_fault_for(self.records(), redis_cmd@)),
    ;

    /// Removes the fault stored under `fault_name`, and says whether there was
    /// one.
    fn delete_fault(&mut self, fault_name: &str) -> (r: Result<bool, StoreError>)
        ensures
            final(self).dependable() == old(self).dependable(),
            old(self).dependable() ==> r is Ok,
            r matches Ok(removed) ==> removed == old(self).records().dom().contains(fault_name@)
                && final(self).records() == old(self).records().remove(fault_name@),
            r is Err ==> final(self).records() == old(self).records(),
    ;
}

} // verus!
