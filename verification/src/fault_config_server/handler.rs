//! The operations of the control plane over a fault store. Each one returns
//! the status that the HTTP answer carries, and what the answer holds.

use crate::store::fault_store::has_fault_for;
use crate::store::fault_store::is_listing;
use crate::store::fault_store::is_not_before;
use crate::store::fault_store::lists_by;
use crate::store::fault_store::not_before;
use crate::store::fault_store::views;
use crate::store::fault_store::not_found_message;
use crate::store::fault_store::Fault;
use crate::store::fault_store::FaultStore;
use crate::store::fault_store::FaultVariants;
use crate::store::fault_store::FaultView;
use crate::store::fault_store::Records;
use crate::store::fault_store::Timestamp;
use vstd::prelude::*;
use vstd::string::StringExecFns;

verus! {

/// Status of an answer that holds what was asked for.
pub const OK: u16 = 200;

/// Status of the answer to a fault that was stored.
pub const CREATED: u16 = 201;

/// Status of the answer to a removal.
pub const NO_CONTENT: u16 = 204;

/// Status of the answer to a request that cannot be served as it stands.
pub const BAD_REQUEST: u16 = 400;

/// Status of the answer to a fault whose command already has one.
pub const CONFLICT: u16 = 409;

/// Status of the answer where the store failed.
pub const INTERNAL_SERVER_ERROR: u16 = 500;

/// An answer that reports a failure.
#[derive(Debug, PartialEq, Eq)]
pub struct ServerErrorResponse {
    pub status_code: u16,
    pub message: String,
}

impl ServerErrorResponse {
    /// A failure with the given status and message.
    pub fn new(status_code: u16, message: String) -> (e: Self)
        ensures
            e.status_code == status_code,
            e.message@ == message@,
    {
        ServerErrorResponse { status_code, message }
    }

    /// The failure as it is displayed.
    pub fn to_string(&self) -> (s: String)
        ensures
            s@ == "error: "@ + self.message@,
    {
        let mut s = String::from_str("error: ");
        s.append(self.message.as_str());
        s
    }
}

/// What the control plane says of a fault whose type it does not know.
pub open spec fn unsupported_type_message(fault_type: Seq<char>) -> Seq<char> {
    "Error as unsupported fault type: "@ + fault_type
}

/// What the control plane says of a fault whose command already has one.
pub open spec fn conflict_message(command: Seq<char>) -> Seq<char> {
    "There already exists a fault for the same "@ + command + " command"@
}

/// What storing a fault at `now` comes to over a dependable store: the
/// records afterwards, and the status. A fault of an unknown type is refused
/// as a bad request, one for a command that already has a fault as a
/// conflict, and neither changes the store.
pub open spec fn posted(records: Records, fault: FaultView, now: Timestamp) -> (Records, u16) {
    if fault.variant() is None {
        (records, BAD_REQUEST)
    } else if has_fault_for(records, fault.command) {
        (records, CONFLICT)
    } else {
        (records.insert(fault.name, fault.stamped(now)), CREATED)
    }
}

/// The status of an outcome, whichever way it went.
pub open spec fn status_of(r: Result<u16, ServerErrorResponse>) -> u16 {
    match r {
        Ok(status) => status,
        Err(e) => e.status_code,
    }
}

/// Stores a fault, stamped as modified at `now`, under its name.
///
/// Refuses a fault whose type is none of `delay`, `error`, `drop`, and one
/// for a command that the store already holds a fault for, whatever the
/// letter case.
pub fn store_fault<S: FaultStore>(store: &mut S, fault: Fault, now: Timestamp) -> (r: Result<
    u16,
    ServerErrorResponse,
>)
    ensures
        final(store).dependable() == old(store).dependable(),
        old(store).dependable() ==> (final(store).records(), status_of(r)) == posted(
            old(store).records(),
            fault@,
            now,
        ),
        r is Ok <==> status_of(r) == CREATED,
        r is Ok ==> fault@.variant() is Some && final(store).records() == old(
            store,
        ).records().insert(fault@.name, fault@.stamped(now)),
        r is Err ==> final(store).records() == old(store).records(),
        r matches Err(e) ==> {
            &&& e.status_code == BAD_REQUEST || e.status_code == CONFLICT || e.status_code
                == INTERNAL_SERVER_ERROR
            &&& e.status_code == BAD_REQUEST <==> fault@.variant() is None
            &&& e.status_code == BAD_REQUEST ==> e.message@ == unsupported_type_message(
                fault@.fault_type,
            )
            &&& e.status_code == CONFLICT ==> e.message@ == conflict_message(fault@.command)
        },
{
    let mut fault = fault;
    fault.last_modified = Some(now);
    if FaultVariants::from_name(fault.fault_type.as_str()).is_none() {
        let mut message = String::from_str("Error as unsupported fault type: ");
        message.append(fault.fault_type.as_str());
        return Err(ServerErrorResponse::new(BAD_REQUEST, message));
    }
    if store.get_by_redis_cmd(fault.command.as_str()).is_some() {
        let mut message = String::from_str("There already exists a fault for the same ");
        message.append(fault.command.as_str());
        message.append(" command");
        return Err(ServerErrorResponse::new(CONFLICT, message));
    }
    match store.store(fault.name.as_str(), &fault) {
        Ok(_) => Ok(CREATED),
        Err(err) => Err(ServerErrorResponse::new(INTERNAL_SERVER_ERROR, err.message)),
    }
}

/// Fetches the fault of the given name. Where the store has none, or fails,
/// the answer is a bad request that carries the store's message.
pub fn get_fault<S: FaultStore>(store: &S, fault_name: &str) -> (r: Result<
    Fault,
    ServerErrorResponse,
>)
    ensures
        r matches Ok(fault) ==> store.records().contains_pair(fault_name@, fault@),
        r matches Err(e) ==> e.status_code == BAD_REQUEST,
        store.dependable() ==> (r is Ok <==> store.records().dom().contains(fault_name@)),
        store.dependable() ==> (r matches Err(e) ==> e.message@ == not_found_message(fault_name@)),
{
    match store.get_by_fault_name(fault_name) {
        Ok(fault) => Ok(fault),
        Err(err) => Err(ServerErrorResponse::new(BAD_REQUEST, err.to_string())),
    }
}

/// Removes the fault of the given name. Removing what is not there is no
/// failure.
pub fn delete_fault<S: FaultStore>(store: &mut S, fault_name: &str) -> (r: Result<
    u16,
    ServerErrorResponse,
>)
    ensures
        final(store).dependable() == old(store).dependable(),
        old(store).dependable() ==> r is Ok,
        r matches Ok(status) ==> status == NO_CONTENT && final(store).records() == old(
            store,
        ).records().remove(fault_name@),
        r matches Err(e) ==> e.status_code == INTERNAL_SERVER_ERROR && final(store).records()
            == old(store).records(),
{
    match store.delete_fault(fault_name) {
        Ok(_) => Ok(NO_CONTENT),
        Err(err) => Err(ServerErrorResponse::new(INTERNAL_SERVER_ERROR, err.message)),
    }
}

/// Whether the faults stand newest first: none was modified later than one
/// that stands before it.
pub open spec fn newest_first(faults: Seq<FaultView>) -> bool {
    forall|i: int, j: int|
        0 <= i <= j < faults.len() ==> not_before(
            #[trigger] faults[i].last_modified,
            #[trigger] faults[j].last_modified,
        )
}

/// Whether `to` holds the faults of `from` in another order: the fault at
/// each place `i` of `to` is the one at the place `order[i]` of `from`, and
/// every place of `from` is taken once.
pub open spec fn reorders(order: Seq<int>, from: Seq<FaultView>, to: Seq<FaultView>) -> bool {
    &&& order.len() == from.len()
    &&& order.len() == to.len()
    &&& order.no_duplicates()
    &&& forall|i: int|
        0 <= i < order.len() ==> 0 <= #[trigger] order[i] < from.len() && to[i] == from[order[i]]
    &&& forall|k: int| 0 <= k < from.len() ==> order.contains(k)
}

/// Whether `to` holds the faults of `from`, each once, in some order.
pub open spec fn is_reordering(from: Seq<FaultView>, to: Seq<FaultView>) -> bool {
    exists|order: Seq<int>| reorders(order, from, to)
}

/// A listing of a store, put in another order, still lists the store.
pub proof fn lemma_reordered_listing(from: Seq<FaultView>, to: Seq<FaultView>, records: Records)
    requires
        is_listing(from, records),
        is_reordering(from, to),
    ensures
        is_listing(to, records),
{
    let names = choose|names: Seq<Seq<char>>| lists_by(names, from, records);
    let order = choose|order: Seq<int>| reorders(order, from, to);
    let moved = Seq::new(to.len(), |i: int| names[order[i]]);
    assert forall|i: int, j: int| 0 <= i < moved.len() && 0 <= j < moved.len() && i != j implies moved[i]
        != moved[j] by {
        assert(order[i] != order[j]);
    }
    assert forall|name: Seq<char>| records.dom().contains(name) <==> moved.contains(name) by {
        if records.dom().contains(name) {
            assert(names.contains(name));
            let k = choose|k: int| 0 <= k < names.len() && names[k] == name;
            assert(order.contains(k));
            let i = choose|i: int| 0 <= i < order.len() && order[i] == k;
            assert(moved[i] == name);
        }
        if moved.contains(name) {
            let i = choose|i: int| 0 <= i < moved.len() && moved[i] == name;
            assert(names[order[i]] == name);
            assert(names.contains(name));
        }
    }
    assert forall|i: int| 0 <= i < moved.len() implies to[i] == #[trigger] records[moved[i]] by {
        assert(from[order[i]] == records[names[order[i]]]);
    }
    assert(lists_by(moved, to, records));
}

/// The place at which a fault modified at `stamp` goes into faults that stand
/// newest first: before the first that is no later than it.
fn place_for(sorted: &Vec<Fault>, stamp: &Option<Timestamp>) -> (p: usize)
    ensures
        p <= sorted.len(),
        forall|j: int| 0 <= j < p ==> !not_before(*stamp, #[trigger] sorted[j]@.last_modified),
        p < sorted.len() ==> not_before(*stamp, sorted[p as int]@.last_modified),
{
    let mut p: usize = 0;
    while p < sorted.len()
        invariant
            p <= sorted.len(),
            forall|j: int| 0 <= j < p ==> !not_before(*stamp, #[trigger] sorted[j]@.last_modified),
        decreases sorted.len() - p,
    {
        if is_not_before(stamp, &sorted[p].last_modified) {
            return p;
        }
        p = p + 1;
    }
    p
}

/// Puts faults in the order of their last modification, newest first.
/// Faults that were never stamped come last.
pub fn sort_newest_first(faults: Vec<Fault>) -> (sorted: Vec<Fault>)
    ensures
        newest_first(views(sorted@)),
        is_reordering(views(faults@), views(sorted@)),
{
    let ghost from = views(faults@);
    let ghost mut order: Seq<int> = Seq::empty();
    let mut rest = faults;
    let mut sorted: Vec<Fault> = Vec::new();
    while rest.len() > 0
        invariant
            rest.len() <= from.len(),
            forall|k: int| 0 <= k < rest.len() ==> rest[k]@ == from[k],
            order.len() == sorted.len(),
            order.len() == from.len() - rest.len(),
            order.no_duplicates(),
            forall|i: int|
                0 <= i < order.len() ==> rest.len() <= #[trigger] order[i] < from.len()
                    && sorted[i]@ == from[order[i]],
            forall|k: int| rest.len() <= k < from.len() ==> order.contains(k),
            newest_first(views(sorted@)),
        decreases rest.len(),
    {
        let ghost before = sorted@;
        let ghost order_before = order;
        let ghost k = rest.len() - 1;
        let fault = rest.pop().unwrap();
        let p = place_for(&sorted, &fault.last_modified);
        sorted.insert(p, fault);
        proof {
            order = order_before.insert(p as int, k);
            let now = views(sorted@);
            let was = views(before);
            assert forall|i: int| 0 <= i < sorted.len() implies (if i < p {
                sorted[i] == before[i] && order[i] == order_before[i]
            } else if i == p {
                sorted[i] == fault && order[i] == k
            } else {
                sorted[i] == before[i - 1] && order[i] == order_before[i - 1]
            }) by {}
            assert forall|i: int, j: int| 0 <= i < order.len() && 0 <= j < order.len() && i != j implies order[i]
                != order[j] by {
                let a = if i < p { i } else { i - 1 };
                let b = if j < p { j } else { j - 1 };
                if i != p && j != p {
                    assert(order_before[a] != order_before[b]);
                } else if i != p {
                    assert(order_before[a] > k);
                } else {
                    assert(order_before[b] > k);
                }
            }
            assert forall|m: int| rest.len() <= m < from.len() implies order.contains(m) by {
                if m == k {
                    assert(order[p as int] == k);
                } else {
                    assert(order_before.contains(m));
                    let i = choose|i: int| 0 <= i < order_before.len() && order_before[i] == m;
                    if i < p {
                        assert(order[i] == m);
                    } else {
                        assert(order[i + 1] == m);
                    }
                }
            }
            assert forall|i: int, j: int| 0 <= i <= j < now.len() implies not_before(
                #[trigger] now[i].last_modified,
                #[trigger] now[j].last_modified,
            ) by {
                let a = if i < p { i } else { i - 1 };
                let b = if j < p { j } else { j - 1 };
                if i != p && j != p {
                    assert(not_before(was[a].last_modified, was[b].last_modified));
                } else if i == p && j != p {
                    assert(not_before(was[p as int].last_modified, was[b].last_modified));
                } else if j == p && i != p {
                    assert(!not_before(fault@.last_modified, was[a].last_modified));
                }
            }
        }
    }
    proof {
        assert(reorders(order, from, views(sorted@)));
    }
    sorted
}

/// Lists the faults of the store, newest first.
pub fn get_all_faults<S: FaultStore>(store: &S) -> (r: Result<Vec<Fault>, ServerErrorResponse>)
    ensures
        store.dependable() ==> r is Ok,
        r matches Ok(faults) ==> is_listing(views(faults@), store.records()) && newest_first(
            views(faults@),
        ),
        r matches Err(e) ==> e.status_code == INTERNAL_SERVER_ERROR,
{
    match store.get_all_faults() {
        Ok(faults) => {
            let ghost listed = views(faults@);
            let sorted = sort_newest_first(faults);
            proof {
                lemma_reordered_listing(listed, views(sorted@), store.records());
            }
            Ok(sorted)
        },
        Err(err) => Err(ServerErrorResponse::new(INTERNAL_SERVER_ERROR, err.message)),
    }
}

/// The names that the records of a store carry.
pub open spec fn names_held(records: Records) -> Set<Seq<char>> {
    Set::new(
        |name: Seq<char>|
            exists|key: Seq<char>| records.dom().contains(key) && #[trigger] records[key].name == name,
    )
}

/// The names of the first `count` of the faults.
pub open spec fn names_among(faults: Seq<FaultView>, count: int) -> Set<Seq<char>> {
    Set::new(|name: Seq<char>| exists|j: int| 0 <= j < count && #[trigger] faults[j].name == name)
}

/// Whether every record is stored under the name it carries, as the control
/// plane stores it.
pub open spec fn keyed_by_name(records: Records) -> bool {
    forall|key: Seq<char>| records.dom().contains(key) ==> #[trigger] records[key].name == key
}

/// Removes every fault whose name is the key of a record: each fault of the
/// store is looked up and removed by the name it carries.
pub fn delete_all_faults<S: FaultStore>(store: &mut S) -> (r: Result<u16, ServerErrorResponse>)
    ensures
        final(store).dependable() == old(store).dependable(),
        old(store).dependable() ==> r is Ok,
        r matches Ok(status) ==> status == NO_CONTENT && final(store).records() == old(
            store,
        ).records().remove_keys(names_held(old(store).records())),
        r matches Err(e) ==> e.status_code == INTERNAL_SERVER_ERROR,
        r is Err ==> final(store).records().submap_of(old(store).records()),
{
    let ghost before = store.records();
    let ghost dependable = store.dependable();
    let faults = match store.get_all_faults() {
        Ok(faults) => faults,
        Err(err) => {
            return Err(ServerErrorResponse::new(INTERNAL_SERVER_ERROR, err.message));
        },
    };
    let ghost listed = views(faults@);
    proof {
        assert(before.remove_keys(names_among(listed, 0)) =~= before);
    }
    let mut i: usize = 0;
    while i < faults.len()
        invariant
            i <= faults.len(),
            listed == views(faults@),
            store.dependable() == dependable,
            dependable == old(store).dependable(),
            before == old(store).records(),
            store.records() == before.remove_keys(names_among(listed, i as int)),
        decreases faults.len() - i,
    {
        let ghost held_now = store.records();
        match store.delete_fault(faults[i].name.as_str()) {
            Ok(_) => {},
            Err(err) => {
                return Err(ServerErrorResponse::new(INTERNAL_SERVER_ERROR, err.message));
            },
        }
        proof {
            let name = listed[i as int].name;
            assert(names_among(listed, i + 1) =~= names_among(listed, i as int).insert(name)) by {
                assert forall|n: Seq<char>| names_among(listed, i + 1).contains(n) implies names_among(
                    listed,
                    i as int,
                ).insert(name).contains(n) by {
                    let j = choose|j: int| 0 <= j < i + 1 && #[trigger] listed[j].name == n;
                    if j < i {
                        assert(names_among(listed, i as int).contains(listed[j].name));
                    }
                }
                assert forall|n: Seq<char>|
                    names_among(listed, i as int).insert(name).contains(n) implies names_among(
                    listed,
                    i + 1,
                ).contains(n) by {
                    if n == name {
                        assert(listed[i as int].name == n);
                    } else {
                        let j = choose|j: int| 0 <= j < i && #[trigger] listed[j].name == n;
                        assert(listed[j].name == n);
                    }
                }
            }
            assert(held_now.remove(name) =~= before.remove_keys(names_among(listed, i + 1)));
        }
        i = i + 1;
    }
    proof {
        let names = choose|names: Seq<Seq<char>>| lists_by(names, listed, before);
        assert(names_among(listed, faults.len() as int) =~= names_held(before)) by {
            assert forall|n: Seq<char>| names_among(listed, faults.len() as int).contains(
                n,
            ) implies names_held(before).contains(n) by {
                let j = choose|j: int| 0 <= j < faults.len() && #[trigger] listed[j].name == n;
                assert(names.contains(names[j]));
                assert(before[names[j]].name == n);
            }
            assert forall|n: Seq<char>| names_held(before).contains(n) implies names_among(
                listed,
                faults.len() as int,
            ).contains(n) by {
                let key = choose|key: Seq<char>|
                    before.dom().contains(key) && #[trigger] before[key].name == n;
                assert(names.contains(key));
                let j = choose|j: int| 0 <= j < names.len() && names[j] == key;
                assert(listed[j] == before[names[j]]);
                assert(listed[j].name == n);
            }
        }
    }
    Ok(NO_CONTENT)
}

/// Where every record is stored under its own name, removing all faults
/// leaves the store empty.
pub proof fn lemma_delete_all_empties(records: Records)
    requires
        keyed_by_name(records),
    ensures
        records.remove_keys(names_held(records)) == Records::empty(),
{
    assert forall|key: Seq<char>| !records.remove_keys(names_held(records)).dom().contains(key) by {
        if records.dom().contains(key) {
            assert(records[key].name == key);
            assert(names_held(records).contains(key));
        }
    }
    assert(records.remove_keys(names_held(records)) =~= Records::empty());
}

/// Storing a fault keeps every record under its own name.
pub proof fn lemma_posted_keyed_by_name(records: Records, fault: FaultView, now: Timestamp)
    requires
        keyed_by_name(records),
    ensures
        keyed_by_name(posted(records, fault, now).0),
{
}

/// A second fault for a command is refused: once a fault has been stored,
/// a fault whose command differs from its command at most in letter case is
/// answered with a conflict, and the store stays as the first left it.
pub proof fn lemma_second_fault_conflicts(
    records: Records,
    first: FaultView,
    second: FaultView,
    now: Timestamp,
    later: Timestamp,
)
    requires
        posted(records, first, now).1 == CREATED,
        second.variant() is Some,
        second.applies_to(first.command),
    ensures
        posted(posted(records, first, now).0, second, later) == (
            posted(records, first, now).0,
            CONFLICT,
        ),
        posted(records, first, now).0.dom() == records.dom().insert(first.name),
{
    let after = posted(records, first, now).0;
    assert(after.dom().contains(first.name));
    assert(after[first.name].applies_to(second.command));
}

} // verus!
