use red_monkey::fault_config_server::handler::delete_all_faults;
use red_monkey::fault_config_server::handler::delete_fault;
use red_monkey::fault_config_server::handler::get_all_faults;
use red_monkey::fault_config_server::handler::get_fault;
use red_monkey::fault_config_server::handler::sort_newest_first;
use red_monkey::fault_config_server::handler::store_fault;
use red_monkey::fault_config_server::handler::ServerErrorResponse;
use red_monkey::fault_config_server::handler::BAD_REQUEST;
use red_monkey::fault_config_server::handler::CONFLICT;
use red_monkey::fault_config_server::handler::CREATED;
use red_monkey::fault_config_server::handler::INTERNAL_SERVER_ERROR;
use red_monkey::fault_config_server::handler::NO_CONTENT;
use red_monkey::fault_config_server::handler::OK;
use red_monkey::store::fault_store::Fault;
use red_monkey::store::fault_store::FaultStore;
use red_monkey::store::fault_store::Timestamp;
use red_monkey::store::mem_store::MemStore;

const NOW: Timestamp = Timestamp { secs: 1_700_000_000, nanos: 250 };

fn at(secs: i64) -> Timestamp {
    Timestamp { secs, nanos: 0 }
}

fn get_mock_fault() -> Fault {
    Fault {
        name: "get_custom_err".to_string(),
        description: Some("GET custom error".to_string()),
        fault_type: "error".to_string(),
        error_msg: Some("KEY not found".to_string()),
        duration: None,
        command: "GET".to_string(),
        last_modified: None,
    }
}

fn fault_named(name: &str, fault_type: &str, command: &str) -> Fault {
    Fault {
        name: name.to_string(),
        description: None,
        fault_type: fault_type.to_string(),
        error_msg: Some("failed".to_string()),
        duration: Some(10),
        command: command.to_string(),
        last_modified: None,
    }
}

#[test]
fn test_store_fault() {
    let mut fault_store = MemStore::new_db();
    let resp = store_fault(&mut fault_store, get_mock_fault(), NOW);
    assert_eq!(resp, Ok(CREATED));
}

#[test]
fn test_store_fault_against_invalid_fault_type() {
    let mut fault_store = MemStore::new_db();

    let mut fault = get_mock_fault();
    fault.fault_type = "invalid_fault_type".to_string();

    let resp = store_fault(&mut fault_store, fault, NOW);
    assert_eq!(resp.unwrap_err().status_code, BAD_REQUEST);
}

#[test]
fn test_conflict_store() {
    let mut fault_store = MemStore::new_db();

    let resp = store_fault(&mut fault_store, get_mock_fault(), NOW);
    assert_eq!(resp, Ok(CREATED));

    let resp = store_fault(&mut fault_store, get_mock_fault(), NOW);
    assert_eq!(resp.unwrap_err().status_code, CONFLICT);
}

#[test]
fn handler_test_get_all_faults() {
    let mut fault_store = MemStore::new_db();
    let fault = get_mock_fault();
    fault_store.store(&fault.name, &fault).unwrap();

    let faults = get_all_faults(&fault_store).unwrap();

    assert_eq!(faults.len(), 1);
    assert_eq!(faults[0], get_mock_fault());
}

#[test]
fn test_get_fault() {
    let mut fault_store = MemStore::new_db();
    let fault = get_mock_fault();
    fault_store.store(&fault.name, &fault).unwrap();

    let fault = get_fault(&fault_store, fault.name.as_str()).unwrap();
    assert_eq!(fault, get_mock_fault());
}

#[test]
fn handler_test_delete_fault() {
    let mut fault_store = MemStore::new_db();
    let fault = get_mock_fault();
    fault_store.store(&fault.name, &fault).unwrap();

    let resp = delete_fault(&mut fault_store, fault.name.as_str());
    assert_eq!(resp, Ok(NO_CONTENT));
}

#[test]
fn test_delete_all_faults() {
    let mut fault_store = MemStore::new_db();
    let fault = get_mock_fault();
    fault_store.store(&fault.name, &fault).unwrap();

    let resp = delete_all_faults(&mut fault_store);
    assert_eq!(resp, Ok(NO_CONTENT));
}

#[test]
fn status_codes() {
    assert_eq!(OK, 200);
    assert_eq!(CREATED, 201);
    assert_eq!(NO_CONTENT, 204);
    assert_eq!(BAD_REQUEST, 400);
    assert_eq!(CONFLICT, 409);
    assert_eq!(INTERNAL_SERVER_ERROR, 500);
}

#[test]
fn a_stored_fault_is_stamped() {
    let mut fault_store = MemStore::new_db();
    let mut fault = get_mock_fault();
    fault.last_modified = Some(at(1));
    assert_eq!(store_fault(&mut fault_store, fault, NOW), Ok(CREATED));
    let mut expected = get_mock_fault();
    expected.last_modified = Some(NOW);
    assert_eq!(get_fault(&fault_store, "get_custom_err"), Ok(expected));
}

#[test]
fn every_known_fault_type_is_accepted() {
    let mut fault_store = MemStore::new_db();
    assert_eq!(store_fault(&mut fault_store, fault_named("a", "delay", "GET"), NOW), Ok(CREATED));
    assert_eq!(store_fault(&mut fault_store, fault_named("b", "error", "SET"), NOW), Ok(CREATED));
    assert_eq!(store_fault(&mut fault_store, fault_named("c", "drop", "PING"), NOW), Ok(CREATED));
    assert_eq!(get_all_faults(&fault_store).unwrap().len(), 3);
}

#[test]
fn an_unknown_fault_type_is_a_bad_request() {
    let mut fault_store = MemStore::new_db();
    let resp = store_fault(&mut fault_store, fault_named("a", "invalid_fault_type", "GET"), NOW);
    assert_eq!(
        resp,
        Err(ServerErrorResponse {
            status_code: 400,
            message: "Error as unsupported fault type: invalid_fault_type".to_string(),
        })
    );
    assert_eq!(get_all_faults(&fault_store).unwrap().len(), 0);
}

#[test]
fn a_second_fault_for_a_command_is_a_conflict() {
    let mut fault_store = MemStore::new_db();
    assert_eq!(store_fault(&mut fault_store, fault_named("a", "delay", "GET"), at(1)), Ok(CREATED));
    let resp = store_fault(&mut fault_store, fault_named("b", "error", "get"), at(2));
    assert_eq!(
        resp,
        Err(ServerErrorResponse {
            status_code: 409,
            message: "There already exists a fault for the same get command".to_string(),
        })
    );
    let faults = get_all_faults(&fault_store).unwrap();
    assert_eq!(faults.len(), 1);
    assert_eq!(faults[0].name, "a");
    assert_eq!(faults[0].last_modified, Some(at(1)));
}

#[test]
fn the_type_is_checked_before_the_conflict() {
    let mut fault_store = MemStore::new_db();
    assert_eq!(store_fault(&mut fault_store, fault_named("a", "delay", "GET"), NOW), Ok(CREATED));
    let resp = store_fault(&mut fault_store, fault_named("b", "odd", "GET"), NOW);
    assert_eq!(resp.unwrap_err().status_code, BAD_REQUEST);
}

#[test]
fn a_missing_fault_is_a_bad_request() {
    let fault_store = MemStore::new_db();
    assert_eq!(
        get_fault(&fault_store, "nope"),
        Err(ServerErrorResponse {
            status_code: 400,
            message: "Fault nope not found".to_string(),
        })
    );
}

#[test]
fn faults_are_listed_newest_first() {
    let mut fault_store = MemStore::new_db();
    assert_eq!(store_fault(&mut fault_store, fault_named("old", "delay", "GET"), at(10)), Ok(CREATED));
    assert_eq!(store_fault(&mut fault_store, fault_named("new", "delay", "SET"), at(30)), Ok(CREATED));
    assert_eq!(store_fault(&mut fault_store, fault_named("mid", "delay", "DEL"), at(20)), Ok(CREATED));
    fault_store.store("never", &fault_named("never", "drop", "PING")).unwrap();
    let names: Vec<String> =
        get_all_faults(&fault_store).unwrap().into_iter().map(|f| f.name).collect();
    assert_eq!(names, vec!["new", "mid", "old", "never"]);
}

#[test]
fn sorting_orders_by_seconds_then_nanoseconds() {
    let mut faults = Vec::new();
    let stamps = [
        Some(Timestamp { secs: 5, nanos: 1 }),
        None,
        Some(Timestamp { secs: 7, nanos: 0 }),
        Some(Timestamp { secs: 5, nanos: 9 }),
        Some(Timestamp { secs: -3, nanos: 0 }),
        None,
        Some(Timestamp { secs: 7, nanos: 0 }),
    ];
    for (i, stamp) in stamps.iter().enumerate() {
        let mut fault = fault_named(format!("f{}", i).as_str(), "drop", "GET");
        fault.last_modified = *stamp;
        faults.push(fault);
    }
    let sorted = sort_newest_first(faults.clone());
    let got: Vec<Option<(i64, u32)>> =
        sorted.iter().map(|f| f.last_modified.map(|t| (t.secs, t.nanos))).collect();
    assert_eq!(
        got,
        vec![Some((7, 0)), Some((7, 0)), Some((5, 9)), Some((5, 1)), Some((-3, 0)), None, None]
    );
    let mut names: Vec<String> = sorted.into_iter().map(|f| f.name).collect();
    names.sort();
    assert_eq!(names, vec!["f0", "f1", "f2", "f3", "f4", "f5", "f6"]);
    assert_eq!(sort_newest_first(Vec::new()), Vec::<Fault>::new());
}

#[test]
fn deleting_is_idempotent() {
    let mut fault_store = MemStore::new_db();
    assert_eq!(store_fault(&mut fault_store, get_mock_fault(), NOW), Ok(CREATED));
    assert_eq!(delete_fault(&mut fault_store, "get_custom_err"), Ok(NO_CONTENT));
    assert_eq!(delete_fault(&mut fault_store, "get_custom_err"), Ok(NO_CONTENT));
    assert_eq!(delete_fault(&mut fault_store, "never there"), Ok(NO_CONTENT));
    assert_eq!(get_all_faults(&fault_store).unwrap().len(), 0);
}

#[test]
fn deleting_all_faults_empties_the_store() {
    let mut fault_store = MemStore::new_db();
    assert_eq!(store_fault(&mut fault_store, fault_named("d", "delay", "GET"), at(1)), Ok(CREATED));
    assert_eq!(store_fault(&mut fault_store, fault_named("e", "error", "SET"), at(2)), Ok(CREATED));
    assert_eq!(delete_all_faults(&mut fault_store), Ok(NO_CONTENT));
    assert_eq!(get_all_faults(&fault_store), Ok(Vec::new()));
    assert_eq!(delete_all_faults(&mut fault_store), Ok(NO_CONTENT));
    assert_eq!(get_all_faults(&fault_store), Ok(Vec::new()));
}

#[test]
fn deleting_all_faults_removes_by_the_name_a_fault_carries() {
    let mut fault_store = MemStore::new_db();
    fault_store.store("other key", &fault_named("a", "drop", "GET")).unwrap();
    fault_store.store("b", &fault_named("b", "drop", "SET")).unwrap();
    assert_eq!(delete_all_faults(&mut fault_store), Ok(NO_CONTENT));
    let left = get_all_faults(&fault_store).unwrap();
    assert_eq!(left, vec![fault_named("a", "drop", "GET")]);
}

#[test]
fn a_server_error_in_words() {
    let e = ServerErrorResponse::new(500, "store is down".to_string());
    assert_eq!(e.status_code, 500);
    assert_eq!(e.message, "store is down");
    assert_eq!(e.to_string(), "error: store is down");
}
