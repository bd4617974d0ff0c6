use robin_hood_manager::classification::{Evaluation, Tier};
use robin_hood_manager::contract::{
    confirm_registration, confirmed_request_id, execute, instantiate, keep_an_eye_on, query,
    query_config, query_objects, query_poor, query_rich, reply, sudo, sudo_kv_query_result,
};
use robin_hood_manager::msg::{
    Coin, ExecuteMsg, InstantiateMsg, QueryMsg, QueryResponse, RegistrationRequest, Reply,
    ReplyOutcome, Response, SudoMsg,
};
use robin_hood_manager::state::{Config, State, REGISTER_BALANCES_ICQ_REPLY_ID};
use robin_hood_manager::ManagerError;

fn setup() -> State {
    let mut state = State::new();
    let created = instantiate(
        &mut state,
        "owner".to_string(),
        InstantiateMsg {
            rich_line: 100,
            asset_denom: "uatom".to_string(),
            frequency: 10,
            connection_id: "conn-0".to_string(),
        },
    );
    assert_eq!(created, Ok(Response { registration: None }));
    state
}

fn watch(addr: &str) -> ExecuteMsg {
    ExecuteMsg::KeepAnEyeOn { addr: addr.to_string() }
}

fn confirmation(payload: &str) -> Reply {
    Reply {
        id: REGISTER_BALANCES_ICQ_REPLY_ID,
        result: ReplyOutcome::Success { data: Some(payload.as_bytes().to_vec()) },
    }
}

fn coin(denom: &str, amount: u128) -> Coin {
    Coin { denom: denom.to_string(), amount }
}

fn entry(subject: &str, marker: u64) -> Evaluation {
    Evaluation { subject: subject.to_string(), marker }
}

fn watched(state: &mut State, addr: &str, request_id: u64) {
    assert!(keep_an_eye_on(state, addr.to_string()).is_ok());
    assert_eq!(confirm_registration(state, request_id), Ok(Response { registration: None }));
}

#[test]
fn instantiate_stores_the_configuration() {
    let state = setup();
    assert_eq!(
        state.config(),
        Some(&Config {
            owner: "owner".to_string(),
            rich_line: 100,
            asset_denom: "uatom".to_string(),
            frequency: 10,
            connection_id: "conn-0".to_string(),
        })
    );
    assert_eq!(state.pending(), None);
    assert!(state.objects().list_all().is_empty());
    assert!(state.tiers().list_rich().is_empty());
    assert!(state.tiers().list_poor().is_empty());
}

#[test]
fn watch_confirm_then_poor_then_rich() {
    let mut state = setup();
    let issued = execute(&mut state, "owner".to_string(), watch("addrA"));
    assert_eq!(
        issued,
        Ok(Response {
            registration: Some(RegistrationRequest {
                reply_id: 1,
                connection_id: "conn-0".to_string(),
                addr: "addrA".to_string(),
                asset_denom: "uatom".to_string(),
                update_period: 10,
            }),
        })
    );
    assert_eq!(state.pending(), Some(&"addrA".to_string()));

    assert_eq!(reply(&mut state, confirmation("{\"id\":7}")), Ok(Response { registration: None }));
    assert_eq!(state.objects().resolve(7), Ok("addrA".to_string()));
    assert_eq!(state.pending(), None);

    let delivered = sudo(
        &mut state,
        1000,
        SudoMsg::KVQueryResult { query_id: 7 },
        &vec![coin("uatom", 50)],
    );
    assert_eq!(delivered, Ok(Response { registration: None }));
    assert_eq!(state.tiers().list_poor(), vec![entry("addrA", 1000)]);
    assert!(state.tiers().list_rich().is_empty());
    assert_eq!(state.tiers().marker_in(Tier::Rich, "addrA"), None);

    let delivered = sudo(
        &mut state,
        1010,
        SudoMsg::KVQueryResult { query_id: 7 },
        &vec![coin("uatom", 150)],
    );
    assert_eq!(delivered, Ok(Response { registration: None }));
    assert_eq!(state.tiers().list_rich(), vec![entry("addrA", 1010)]);
}

#[test]
fn measurement_for_unbound_request_is_not_found() {
    let mut state = setup();
    watched(&mut state, "addrA", 7);
    let delivered = sudo_kv_query_result(&mut state, 1000, 99, &vec![coin("uatom", 500)]);
    assert_eq!(delivered, Err(ManagerError::NotFound));
    assert!(state.tiers().list_rich().is_empty());
    assert!(state.tiers().list_poor().is_empty());
    let delivered = sudo(
        &mut state,
        1000,
        SudoMsg::KVQueryResult { query_id: 99 },
        &vec![coin("uatom", 5)],
    );
    assert_eq!(delivered, Err(ManagerError::NotFound));
    assert!(state.tiers().list_rich().is_empty());
    assert!(state.tiers().list_poor().is_empty());
}

#[test]
fn second_registration_in_flight_is_refused() {
    let mut state = setup();
    assert!(execute(&mut state, "owner".to_string(), watch("addrA")).is_ok());
    assert_eq!(
        execute(&mut state, "owner".to_string(), watch("addrB")),
        Err(ManagerError::ConcurrentRegistration)
    );
    assert_eq!(state.pending(), Some(&"addrA".to_string()));
    assert!(state.objects().list_all().is_empty());
    assert_eq!(
        keep_an_eye_on(&mut state, "addrB".to_string()),
        Err(ManagerError::ConcurrentRegistration)
    );
    assert_eq!(
        keep_an_eye_on(&mut state, "addrA".to_string()),
        Err(ManagerError::ConcurrentRegistration)
    );
    assert_eq!(state.pending(), Some(&"addrA".to_string()));

    assert!(reply(&mut state, confirmation("{\"id\":1}")).is_ok());
    assert_eq!(state.objects().resolve(1), Ok("addrA".to_string()));
    assert_eq!(state.pending(), None);

    let issued = execute(&mut state, "owner".to_string(), watch("addrB"));
    assert_eq!(
        issued,
        Ok(Response {
            registration: Some(RegistrationRequest {
                reply_id: 1,
                connection_id: "conn-0".to_string(),
                addr: "addrB".to_string(),
                asset_denom: "uatom".to_string(),
                update_period: 10,
            }),
        })
    );
    assert!(reply(&mut state, confirmation("{\"id\":2}")).is_ok());
    assert_eq!(state.objects().resolve(2), Ok("addrB".to_string()));
    assert_eq!(state.objects().resolve(1), Ok("addrA".to_string()));
}

#[test]
fn refused_registration_does_not_disturb_the_confirmation() {
    let mut state = setup();
    assert!(keep_an_eye_on(&mut state, "addrA".to_string()).is_ok());
    assert_eq!(
        keep_an_eye_on(&mut state, "addrB".to_string()),
        Err(ManagerError::ConcurrentRegistration)
    );
    assert!(confirm_registration(&mut state, 7).is_ok());
    assert_eq!(state.objects().resolve(7), Ok("addrA".to_string()));
    assert_eq!(confirm_registration(&mut state, 8), Err(ManagerError::State));
    assert_eq!(state.objects().resolve(8), Err(ManagerError::NotFound));
    assert_eq!(state.objects().list_all(), vec!["addrA".to_string()]);
}

#[test]
fn failed_confirmation_keeps_the_registration_pending() {
    let mut state = setup();
    watched(&mut state, "addrA", 7);
    assert!(keep_an_eye_on(&mut state, "addrB".to_string()).is_ok());
    assert_eq!(
        reply(&mut state, confirmation("{\"id\":7}")),
        Err(ManagerError::DuplicateBinding)
    );
    assert_eq!(reply(&mut state, confirmation("oops")), Err(ManagerError::ProtocolDecode));
    assert_eq!(
        keep_an_eye_on(&mut state, "addrC".to_string()),
        Err(ManagerError::ConcurrentRegistration)
    );
    assert!(reply(&mut state, confirmation("{\"id\":8}")).is_ok());
    assert_eq!(state.objects().resolve(8), Ok("addrB".to_string()));
    assert!(keep_an_eye_on(&mut state, "addrC".to_string()).is_ok());
}

#[test]
fn registered_and_confirmed_subject_resolves() {
    for (addr, request_id) in [("alice", 0u64), ("bob", 42), ("", 7), ("ünïcödé", u64::MAX)] {
        let mut state = setup();
        watched(&mut state, "earlier", 3);
        assert!(keep_an_eye_on(&mut state, addr.to_string()).is_ok());
        let payload = format!("{{\"id\":{}}}", request_id);
        assert!(reply(&mut state, confirmation(&payload)).is_ok());
        assert_eq!(state.objects().resolve(request_id), Ok(addr.to_string()));
        assert_eq!(state.objects().resolve(3), Ok("earlier".to_string()));
    }
}

#[test]
fn duplicate_confirmation_is_rejected_and_binding_stays() {
    let mut state = setup();
    watched(&mut state, "addrA", 7);
    assert!(keep_an_eye_on(&mut state, "addrB".to_string()).is_ok());
    assert_eq!(
        reply(&mut state, confirmation("{\"id\":7}")),
        Err(ManagerError::DuplicateBinding)
    );
    assert_eq!(state.objects().resolve(7), Ok("addrA".to_string()));
    assert_eq!(state.pending(), Some(&"addrB".to_string()));
    assert_eq!(state.objects().list_all(), vec!["addrA".to_string()]);
}

#[test]
fn confirmation_without_pending_registration_is_a_state_error() {
    let mut state = setup();
    assert_eq!(reply(&mut state, confirmation("{\"id\":7}")), Err(ManagerError::State));
    assert_eq!(state.objects().resolve(7), Err(ManagerError::NotFound));
    watched(&mut state, "addrA", 7);
    assert_eq!(reply(&mut state, confirmation("{\"id\":8}")), Err(ManagerError::State));
    assert_eq!(reply(&mut state, confirmation("{\"id\":7}")), Err(ManagerError::State));
}

#[test]
fn malformed_or_absent_payload_is_a_decode_error() {
    let mut state = setup();
    assert!(keep_an_eye_on(&mut state, "addrA".to_string()).is_ok());
    for payload in ["", "{", "{\"id\":\"seven\"}", "{\"id\":-1}", "[7]", "{\"id\":7} x", "{}"] {
        assert_eq!(
            reply(&mut state, confirmation(payload)),
            Err(ManagerError::ProtocolDecode),
            "payload {:?}",
            payload
        );
    }
    let absent = Reply { id: 1, result: ReplyOutcome::Success { data: None } };
    assert_eq!(reply(&mut state, absent), Err(ManagerError::ProtocolDecode));
    let failed = Reply { id: 1, result: ReplyOutcome::Failure { error: "out of gas".to_string() } };
    assert_eq!(reply(&mut state, failed), Err(ManagerError::ProtocolDecode));
    assert_eq!(state.pending(), Some(&"addrA".to_string()));
    assert!(state.objects().list_all().is_empty());
}

#[test]
fn reply_under_another_identifier_is_unsupported() {
    let mut state = setup();
    assert!(keep_an_eye_on(&mut state, "addrA".to_string()).is_ok());
    let other = Reply {
        id: 2,
        result: ReplyOutcome::Success { data: Some(b"{\"id\":7}".to_vec()) },
    };
    assert_eq!(reply(&mut state, other), Err(ManagerError::UnsupportedReply));
    let other = Reply { id: 0, result: ReplyOutcome::Success { data: None } };
    assert_eq!(confirmed_request_id(&other), Err(ManagerError::UnsupportedReply));
    assert_eq!(state.pending(), Some(&"addrA".to_string()));
    assert!(state.objects().list_all().is_empty());
}

#[test]
fn confirmed_request_id_reads_the_payload() {
    assert_eq!(confirmed_request_id(&confirmation("{\"id\":7}")), Ok(7));
    assert_eq!(confirmed_request_id(&confirmation(" { \"id\" : 18446744073709551615 } ")), Ok(u64::MAX));
    assert_eq!(confirmed_request_id(&confirmation("{\"id\":0}")), Ok(0));
    assert_eq!(
        confirmed_request_id(&confirmation("{\"id\":18446744073709551616}")),
        Err(ManagerError::ProtocolDecode)
    );
    assert_eq!(confirmed_request_id(&confirmation("7")), Err(ManagerError::ProtocolDecode));
}

#[test]
fn only_the_owner_may_register() {
    let mut state = setup();
    assert_eq!(
        execute(&mut state, "mallory".to_string(), watch("addrA")),
        Err(ManagerError::Unauthorized)
    );
    assert_eq!(state.pending(), None);
    assert_eq!(
        execute(&mut state, "".to_string(), watch("addrA")),
        Err(ManagerError::Unauthorized)
    );
    assert_eq!(
        execute(&mut state, "Owner".to_string(), watch("addrA")),
        Err(ManagerError::Unauthorized)
    );
    assert_eq!(state.pending(), None);
    assert!(execute(&mut state, "owner".to_string(), watch("addrA")).is_ok());
    assert_eq!(state.pending(), Some(&"addrA".to_string()));
}

#[test]
fn nothing_works_before_instantiation() {
    let mut state = State::new();
    assert_eq!(
        execute(&mut state, "owner".to_string(), watch("addrA")),
        Err(ManagerError::NotFound)
    );
    assert_eq!(keep_an_eye_on(&mut state, "addrA".to_string()), Err(ManagerError::NotFound));
    assert_eq!(state.pending(), None);
    assert_eq!(query_config(&state), Err(ManagerError::NotFound));
    assert_eq!(query(&state, QueryMsg::Config {}), Err(ManagerError::NotFound));
    assert_eq!(query(&state, QueryMsg::Objects {}), Ok(QueryResponse::Objects(vec![])));
    assert_eq!(query(&state, QueryMsg::Rich {}), Ok(QueryResponse::Rich(vec![])));
    assert_eq!(query(&state, QueryMsg::Poor {}), Ok(QueryResponse::Poor(vec![])));
}

#[test]
fn measurement_without_configuration_is_not_found() {
    let mut objects = robin_hood_manager::registry::ObjectRegistry::new();
    assert_eq!(objects.bind(7, "addrA".to_string()), Ok(()));
    let mut state = State::from_parts(
        None,
        None,
        objects,
        robin_hood_manager::classification::ClassificationStore::new(),
    );
    assert_eq!(
        sudo_kv_query_result(&mut state, 1, 7, &vec![coin("uatom", 500)]),
        Err(ManagerError::NotFound)
    );
    assert!(state.tiers().list_rich().is_empty());
    assert!(state.tiers().list_poor().is_empty());
}

#[test]
fn threshold_itself_is_rich() {
    let mut state = setup();
    watched(&mut state, "addrA", 1);
    watched(&mut state, "addrB", 2);
    watched(&mut state, "addrC", 3);
    assert!(sudo_kv_query_result(&mut state, 5, 1, &vec![coin("uatom", 100)]).is_ok());
    assert!(sudo_kv_query_result(&mut state, 6, 2, &vec![coin("uatom", 99)]).is_ok());
    assert!(sudo_kv_query_result(&mut state, 7, 3, &vec![coin("uatom", u128::MAX)]).is_ok());
    assert_eq!(state.tiers().list_rich(), vec![entry("addrA", 5), entry("addrC", 7)]);
    assert_eq!(state.tiers().list_poor(), vec![entry("addrB", 6)]);
}

#[test]
fn snapshot_without_the_tracked_asset_changes_nothing() {
    let mut state = setup();
    watched(&mut state, "addrA", 1);
    assert_eq!(
        sudo_kv_query_result(&mut state, 5, 1, &vec![]),
        Ok(Response { registration: None })
    );
    assert_eq!(
        sudo_kv_query_result(&mut state, 5, 1, &vec![coin("uosmo", 500), coin("UATOM", 500)]),
        Ok(Response { registration: None })
    );
    assert!(state.tiers().list_rich().is_empty());
    assert!(state.tiers().list_poor().is_empty());

    assert!(sudo_kv_query_result(&mut state, 6, 1, &vec![coin("uatom", 1)]).is_ok());
    assert!(sudo_kv_query_result(&mut state, 7, 1, &vec![coin("uosmo", 500)]).is_ok());
    assert_eq!(state.tiers().list_poor(), vec![entry("addrA", 6)]);
    assert!(state.tiers().list_rich().is_empty());
}

#[test]
fn first_coin_of_the_tracked_asset_decides() {
    let mut state = setup();
    watched(&mut state, "addrA", 1);
    let coins = vec![coin("uosmo", 1000), coin("uatom", 10), coin("uatom", 1000)];
    assert!(sudo_kv_query_result(&mut state, 5, 1, &coins).is_ok());
    assert_eq!(state.tiers().list_poor(), vec![entry("addrA", 5)]);
    assert!(state.tiers().list_rich().is_empty());
}

#[test]
fn reevaluation_overwrites_and_the_stale_entry_stays() {
    let mut state = setup();
    watched(&mut state, "addrA", 7);
    assert!(sudo_kv_query_result(&mut state, 10, 7, &vec![coin("uatom", 50)]).is_ok());
    assert!(sudo_kv_query_result(&mut state, 20, 7, &vec![coin("uatom", 60)]).is_ok());
    assert_eq!(state.tiers().list_poor(), vec![entry("addrA", 20)]);
    assert!(sudo_kv_query_result(&mut state, 30, 7, &vec![coin("uatom", 150)]).is_ok());
    assert_eq!(state.tiers().list_rich(), vec![entry("addrA", 30)]);
    assert_eq!(state.tiers().list_poor(), vec![entry("addrA", 20)]);
    assert!(sudo_kv_query_result(&mut state, 40, 7, &vec![coin("uatom", 250)]).is_ok());
    assert_eq!(state.tiers().list_rich(), vec![entry("addrA", 40)]);
    assert_eq!(state.tiers().list_poor(), vec![entry("addrA", 20)]);
    assert!(sudo_kv_query_result(&mut state, 50, 7, &vec![coin("uatom", 0)]).is_ok());
    assert_eq!(state.tiers().list_rich(), vec![entry("addrA", 40)]);
    assert_eq!(state.tiers().list_poor(), vec![entry("addrA", 50)]);
    assert_eq!(state.tiers().marker_in(Tier::Rich, "addrA"), Some(40));
    assert_eq!(state.tiers().marker_in(Tier::Poor, "addrA"), Some(50));
}

#[test]
fn other_callbacks_change_nothing() {
    let mut state = setup();
    watched(&mut state, "addrA", 7);
    for msg in [
        SudoMsg::Response,
        SudoMsg::Error,
        SudoMsg::Timeout,
        SudoMsg::OpenAck,
        SudoMsg::TxQueryResult,
    ] {
        assert_eq!(
            sudo(&mut state, 5, msg, &vec![coin("uatom", 500)]),
            Ok(Response { registration: None })
        );
    }
    assert!(state.tiers().list_rich().is_empty());
    assert!(state.tiers().list_poor().is_empty());
}

#[test]
fn queries_list_in_ascending_order() {
    let mut state = setup();
    watched(&mut state, "carol", 30);
    watched(&mut state, "alice", 20);
    watched(&mut state, "bob", 10);
    watched(&mut state, "Zed", 40);
    watched(&mut state, "al", 50);
    assert_eq!(
        query_objects(&state),
        Ok(QueryResponse::Objects(vec![
            "bob".to_string(),
            "alice".to_string(),
            "carol".to_string(),
            "Zed".to_string(),
            "al".to_string(),
        ]))
    );
    for (height, id) in [(1u64, 30u64), (2, 20), (3, 10), (4, 40), (5, 50)] {
        assert!(sudo_kv_query_result(&mut state, height, id, &vec![coin("uatom", 100)]).is_ok());
    }
    assert!(sudo_kv_query_result(&mut state, 6, 10, &vec![coin("uatom", 1)]).is_ok());
    assert!(sudo_kv_query_result(&mut state, 7, 40, &vec![coin("uatom", 2)]).is_ok());
    assert_eq!(
        query_rich(&state),
        Ok(QueryResponse::Rich(vec![
            entry("Zed", 4),
            entry("al", 5),
            entry("alice", 2),
            entry("bob", 3),
            entry("carol", 1),
        ]))
    );
    assert_eq!(
        query(&state, QueryMsg::Poor {}),
        Ok(QueryResponse::Poor(vec![entry("Zed", 7), entry("bob", 6)]))
    );
    assert_eq!(query(&state, QueryMsg::Rich {}), query_rich(&state));
    assert_eq!(query(&state, QueryMsg::Objects {}), query_objects(&state));
    assert_eq!(query_poor(&state), query(&state, QueryMsg::Poor {}));
    assert_eq!(
        query(&state, QueryMsg::Config {}),
        Ok(QueryResponse::Config(Config {
            owner: "owner".to_string(),
            rich_line: 100,
            asset_denom: "uatom".to_string(),
            frequency: 10,
            connection_id: "conn-0".to_string(),
        }))
    );
}

#[test]
fn bindings_survive_every_call() {
    let mut state = setup();
    watched(&mut state, "addrA", 7);
    let _ = execute(&mut state, "mallory".to_string(), watch("x"));
    let _ = execute(&mut state, "owner".to_string(), watch("addrB"));
    let _ = reply(&mut state, confirmation("{\"id\":7}"));
    let _ = reply(&mut state, confirmation("{\"id\":8}"));
    let _ = sudo(&mut state, 9, SudoMsg::KVQueryResult { query_id: 8 }, &vec![coin("uatom", 1)]);
    let _ = sudo(&mut state, 9, SudoMsg::Timeout, &vec![]);
    let _ = instantiate(
        &mut state,
        "other".to_string(),
        InstantiateMsg {
            rich_line: 1,
            asset_denom: "uosmo".to_string(),
            frequency: 2,
            connection_id: "conn-1".to_string(),
        },
    );
    assert_eq!(state.objects().resolve(7), Ok("addrA".to_string()));
    assert_eq!(state.objects().resolve(8), Ok("addrB".to_string()));
    assert_eq!(state.tiers().list_poor(), vec![entry("addrB", 9)]);
}

#[test]
fn confirmation_payload_may_carry_more_than_the_identifier() {
    assert_eq!(confirmed_request_id(&confirmation("{\"id\":7,\"note\":\"x\"}")), Ok(7));
    assert_eq!(confirmed_request_id(&confirmation("{\"note\":[1,{\"a\":null}],\"id\":9}")), Ok(9));
    assert_eq!(
        confirmed_request_id(&confirmation("{\"id\":7,\"id\":8}")),
        Err(ManagerError::ProtocolDecode)
    );
    let deep = format!("{{\"note\":{}1{},\"id\":7}}", "[".repeat(100_000), "]".repeat(100_000));
    assert_eq!(confirmed_request_id(&confirmation(&deep)), Err(ManagerError::ProtocolDecode));
    let long = format!("{{\"id\":{}7}}", "0".repeat(100_000));
    assert_eq!(confirmed_request_id(&confirmation(&long)), Err(ManagerError::ProtocolDecode));
    let bytes = Reply {
        id: 1,
        result: ReplyOutcome::Success { data: Some(vec![0xff, 0xfe, b'{', 0x00]) },
    };
    assert_eq!(confirmed_request_id(&bytes), Err(ManagerError::ProtocolDecode));
}
