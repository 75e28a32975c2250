use red_monkey::proxy::faulter::execute_delay_fault;
use red_monkey::proxy::faulter::execute_error_fault;
use red_monkey::proxy::faulter::FaultStep;
use red_monkey::proxy::faulter::Faulter;
use red_monkey::proxy::faulter::FaulterErrors;
use red_monkey::proxy::faulter::RequestAction;
use red_monkey::proxy::resp_util::RespErrors;
use red_monkey::proxy::resp_util::RespValue;
use red_monkey::store::fault_store::Fault;
use red_monkey::store::fault_store::FaultStore;
use red_monkey::store::fault_store::FaultVariants;
use red_monkey::store::fault_store::Timestamp;
use red_monkey::store::mem_store::MemStore;

fn get_mock_fault_store() -> MemStore {
    let mock_faults = vec![
        Fault {
            name: "delay 1 second".to_string(),
            description: Some("inject a delay of 1 second".to_string()),
            fault_type: FaultVariants::Delay.as_str().to_string(),
            duration: Some(1000),
            error_msg: None,
            command: "GET".to_string(),
            last_modified: Some(Timestamp { secs: 1_700_000_000, nanos: 0 }),
        },
        Fault {
            name: "SET Error".to_string(),
            description: Some("inject set error".to_string()),
            fault_type: FaultVariants::Error.as_str().to_string(),
            duration: None,
            error_msg: Some("SET ERROR".to_string()),
            command: "SET".to_string(),
            last_modified: Some(Timestamp { secs: 1_700_000_060, nanos: 0 }),
        },
        Fault {
            name: "drop_conn_for_ping_cmd".to_string(),
            description: Some("PING error".to_string()),
            fault_type: FaultVariants::DropConn.as_str().to_string(),
            error_msg: None,
            duration: None,
            command: "PING".to_string(),
            last_modified: None,
        },
    ];

    let mut fault_store = MemStore::new_db();

    for fault in mock_faults {
        fault_store.store(fault.name.as_str(), &fault).unwrap();
    }

    fault_store
}

#[test]
fn test_check_fault() {
    let fault_store = get_mock_fault_store();
    let faulter = Faulter::new(&fault_store);

    let res = faulter.check_fault("*3\r\n$3\r\nset\r\n$4\r\nkey1\r\n$8\r\nvalue100\r\n");

    assert_eq!(res.is_ok(), true);
    let fault = res.unwrap().unwrap();

    assert_eq!(fault.name, "SET Error".to_string());
    assert_eq!(FaultVariants::from_name(fault.fault_type.as_str()), Some(FaultVariants::Error));
    assert_eq!(fault.command, "SET".to_string());
}

#[test]
fn test_check_fault_no_match() {
    let fault_store = MemStore::new_db();
    let faulter = Faulter::new(&fault_store);

    let res = faulter.check_fault("*3\r\n$3\r\nset\r\n$4\r\nkey1\r\n$8\r\nvalue100\r\n");

    assert_eq!(res.is_ok(), true);
    assert_eq!(res.unwrap(), None);
}

#[test]
fn test_execute_delay_fault() {
    let fault_store = get_mock_fault_store();
    let faulter = Faulter::new(&fault_store);

    let fault = faulter.check_fault("*2\r\n$3\r\nget\r\n$4\r\nkey1\r\n").unwrap();

    let step = faulter.execute_fault(fault);

    assert_eq!(step.is_ok(), true);
    let step = step.unwrap();
    assert_eq!(step.outcome(), RequestAction::Fallthrough);
    assert_eq!(step, FaultStep::Sleep(1000));
}

#[test]
fn test_execute_error_fault() {
    let fault_store = get_mock_fault_store();
    let faulter = Faulter::new(&fault_store);

    let fault = faulter
        .check_fault("*3\r\n$3\r\nset\r\n$4\r\nkey1\r\n$8\r\nvalue100\r\n")
        .unwrap();

    let step = faulter.execute_fault(fault);
    assert_eq!(step.is_ok(), true);
    let step = step.unwrap();
    assert_eq!(step.outcome(), RequestAction::Exit);
    assert_eq!(step, FaultStep::Reply(b"-SET ERROR\r\n".to_vec()));
}

#[test]
fn test_execute_drop_fault() {
    let fault_store = get_mock_fault_store();
    let faulter = Faulter::new(&fault_store);

    let fault = faulter.check_fault("*1\r\n$4\r\nping\r\n").unwrap();
    let step = faulter.execute_fault(fault);
    assert_eq!(step.is_ok(), true);
    let step = step.unwrap();
    assert_eq!(step.outcome(), RequestAction::Exit);
    assert_eq!(step, FaultStep::Hangup);
}

#[test]
fn check_fault_matches_the_command_in_any_letter_case() {
    let fault_store = get_mock_fault_store();
    let faulter = Faulter::new(&fault_store);
    for verb in ["set", "Set", "SET"] {
        let request = format!("*3\r\n$3\r\n{}\r\n$5\r\nmykey\r\n$1\r\n1\r\n", verb);
        let fault = faulter.check_fault(request.as_str()).unwrap().unwrap();
        assert_eq!(fault.name, "SET Error");
    }
}

#[test]
fn check_fault_passes_on_the_decoder_errors() {
    let fault_store = get_mock_fault_store();
    let faulter = Faulter::new(&fault_store);
    assert_eq!(faulter.check_fault(""), Err(RespErrors::DecodeError));
    assert_eq!(faulter.check_fault("$-1\r\n"), Err(RespErrors::UnsupportedRespValError));
    assert_eq!(faulter.check_fault("*0\r\n"), Err(RespErrors::RespArrEmptyError));
    assert_eq!(faulter.check_fault("*1\r\n:1\r\n"), Err(RespErrors::UnsupportedRespArrValError));
    assert!(matches!(faulter.check_fault("?\r\n"), Err(RespErrors::DecoderFeedError(_))));
}

#[test]
fn check_decoded_looks_up_the_command() {
    let fault_store = get_mock_fault_store();
    let faulter = Faulter::new(&fault_store);
    let ping = RespValue::Array(vec![RespValue::String("ping".to_string())]);
    assert_eq!(faulter.check_decoded(Ok(ping)).unwrap().unwrap().name, "drop_conn_for_ping_cmd");
    let del = RespValue::Array(vec![RespValue::Bulk("DEL".to_string())]);
    assert_eq!(faulter.check_decoded(Ok(del)), Ok(None));
    assert_eq!(faulter.check_decoded(Err(RespErrors::DecodeError)), Err(RespErrors::DecodeError));
}

#[test]
fn execute_fault_without_a_fault_proceeds() {
    let fault_store = MemStore::new_db();
    let faulter = Faulter::new(&fault_store);
    let step = faulter.execute_fault(None).unwrap();
    assert_eq!(step, FaultStep::Proceed);
    assert_eq!(step.outcome(), RequestAction::Fallthrough);
}

#[test]
fn execute_fault_of_an_unknown_type_fails() {
    let fault_store = MemStore::new_db();
    let faulter = Faulter::new(&fault_store);
    let fault = Fault {
        name: "odd".to_string(),
        description: None,
        fault_type: "pause".to_string(),
        duration: Some(5),
        error_msg: Some("x".to_string()),
        command: "GET".to_string(),
        last_modified: None,
    };
    assert_eq!(faulter.execute_fault(Some(fault)), Err(FaulterErrors::UnknownFaultTypeError));
}

#[test]
fn error_fault_without_a_message_fails() {
    let fault = Fault {
        name: "e".to_string(),
        description: None,
        fault_type: "error".to_string(),
        duration: None,
        error_msg: None,
        command: "GET".to_string(),
        last_modified: None,
    };
    assert_eq!(execute_error_fault(fault.clone()), Err(FaulterErrors::EncodeErrMsgError));
    let fault_store = MemStore::new_db();
    let faulter = Faulter::new(&fault_store);
    assert_eq!(faulter.execute_fault(Some(fault)), Err(FaulterErrors::EncodeErrMsgError));
}

#[test]
fn delay_fault_steps() {
    assert_eq!(execute_delay_fault(Some(20)), FaultStep::Sleep(20));
    assert_eq!(execute_delay_fault(Some(0)), FaultStep::Sleep(0));
    assert_eq!(execute_delay_fault(None), FaultStep::Proceed);
}

#[test]
fn faulter_errors_in_words() {
    assert_eq!(
        FaulterErrors::EncodeErrMsgError.to_string(),
        "Error decoding request body to RESP values"
    );
    assert_eq!(
        FaulterErrors::UnknownFaultTypeError.to_string(),
        "Error as unsupported fault type"
    );
}
