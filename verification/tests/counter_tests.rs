use cosmwasm_std::Storage;
use counter::codec::decode_counter;
use counter::codec::encode_counter;
use counter::codec::encode_counter_response;
use counter::contract::execute;
use counter::contract::instantiate;
use counter::contract::load_state;
use counter::contract::query;
use counter::contract::query_counter;
use counter::contract::try_update_counter;
use counter::contract::ZERO_CODE;
use counter::error::ContractError;
use counter::error::StdError;
use counter::msg::CounterResponse;
use counter::msg::ExecuteMsg;
use counter::msg::InstantiateMsg;
use counter::msg::QueryMsg;
use counter::response::Attribute;
use counter::store::KvStore;

#[test]
fn test_instantiate() {
    let mut deps = KvStore::new();

    let msg = InstantiateMsg {};
    let resp = instantiate(&mut deps, msg).unwrap();

    assert_eq!(
        resp.attributes,
        vec![Attribute {
            key: "counter".to_string(),
            value: ZERO_CODE.to_string(),
        }]
    )
}

#[test]
fn test_execute() {
    let mut deps = KvStore::new();
    let expect_number = 1;

    // instantiate msg
    let msg = InstantiateMsg {};
    let _resp = instantiate(&mut deps, msg).unwrap();

    // execute first time
    let msg = ExecuteMsg::Update {};
    let _resp = execute(&mut deps, msg);
    let current_state = load_state(&deps).unwrap();
    println!("Execute twice!");
    assert_eq!(current_state.counter, expect_number);
}

#[test]
fn test_query() {
    let mut deps = KvStore::new();
    let mut map0 = serde_json::Map::new();
    map0.insert("counter".to_string(), serde_json::Value::from(0));
    let expect_data_0 = cosmwasm_std::to_binary(&serde_json::Value::Object(map0)).unwrap();
    let mut map1 = serde_json::Map::new();
    map1.insert("counter".to_string(), serde_json::Value::from(1));
    let expect_data_1 = cosmwasm_std::to_binary(&serde_json::Value::Object(map1)).unwrap();

    let msg = InstantiateMsg {};
    let _resp = instantiate(&mut deps, msg).unwrap();

    // query one time.
    let msg = QueryMsg::Counter {};
    let resp = query(&deps, msg).unwrap();
    assert_eq!(resp.as_slice(), expect_data_0.as_slice());

    // query two time
    let msg = ExecuteMsg::Update {};
    let _resp = execute(&mut deps, msg).unwrap();
    let msg = QueryMsg::Counter {};
    let resp = query(&deps, msg).unwrap();
    assert_eq!(resp.as_slice(), expect_data_1.as_slice());
}

#[test]
fn initialize_then_query_reads_zero() {
    let mut deps = KvStore::new();
    instantiate(&mut deps, InstantiateMsg {}).unwrap();
    let resp = query(&deps, QueryMsg::Counter {}).unwrap();
    assert_eq!(resp, b"{\"counter\":0}".to_vec());
}

#[test]
fn update_then_query_reflects_update() {
    let mut deps = KvStore::new();
    instantiate(&mut deps, InstantiateMsg {}).unwrap();
    let resp = try_update_counter(&mut deps).unwrap();
    assert_eq!(
        resp.attributes,
        vec![Attribute {
            key: "counter".to_string(),
            value: "1".to_string(),
        }]
    );
    let resp = query(&deps, QueryMsg::Counter {}).unwrap();
    assert_eq!(resp, b"{\"counter\":1}".to_vec());
}

#[test]
fn three_updates_count_to_three() {
    let mut deps = KvStore::new();
    instantiate(&mut deps, InstantiateMsg {}).unwrap();
    for _ in 0..3 {
        execute(&mut deps, ExecuteMsg::Update {}).unwrap();
    }
    let resp = query(&deps, QueryMsg::Counter {}).unwrap();
    assert_eq!(resp, b"{\"counter\":3}".to_vec());
    assert_eq!(load_state(&deps).unwrap().counter, 3);
}

#[test]
fn query_before_initialize_fails_not_found() {
    let deps = KvStore::new();
    let err = query(&deps, QueryMsg::Counter {}).unwrap_err();
    assert_eq!(err, StdError::NotFound);
    let err = query_counter(&deps).unwrap_err();
    assert_eq!(err, StdError::NotFound);
}

#[test]
fn update_before_initialize_fails_not_found() {
    let mut deps = KvStore::new();
    let err = execute(&mut deps, ExecuteMsg::Update {}).unwrap_err();
    assert_eq!(err, ContractError::Std(StdError::NotFound));
    let err = try_update_counter(&mut deps).unwrap_err();
    assert_eq!(err, ContractError::Std(StdError::NotFound));
}

#[test]
fn response_encoding_matches_host_serializer() {
    // The bytes the library frames for a response equal what the host's own
    // serializer produces for the same record, byte for byte.
    for n in [0i32, 1, 7, 42, 2147483647] {
        let mut map = serde_json::Map::new();
        map.insert("counter".to_string(), serde_json::Value::from(n));
        let host = cosmwasm_std::to_binary(&serde_json::Value::Object(map)).unwrap();
        let ours = encode_counter_response(&CounterResponse { counter: n });
        assert_eq!(ours.as_slice(), host.as_slice());
    }
}

#[test]
fn negative_counter_encoding_matches_host_serializer() {
    for n in [-1i32, -20, -2147483648] {
        let mut map = serde_json::Map::new();
        map.insert("counter".to_string(), serde_json::Value::from(n));
        let host = cosmwasm_std::to_binary(&serde_json::Value::Object(map)).unwrap();
        let ours = encode_counter(n);
        assert_eq!(ours.as_slice(), host.as_slice());
    }
}

#[test]
fn version_marker_matches_host_tooling() {
    // cw2 writes the version record the host tooling introspects; the
    // library writes the same bytes at the same key.
    let mut host_store = cosmwasm_std::MemoryStorage::new();
    cw2::set_contract_version(&mut host_store, "crates.io:counter", "0.1.0").unwrap();
    let expected = host_store.get(b"contract_info").unwrap();

    let mut deps = KvStore::new();
    instantiate(&mut deps, InstantiateMsg {}).unwrap();
    let got = deps.get(&b"contract_info".to_vec()).unwrap();
    assert_eq!(got, expected);
}

#[test]
fn state_record_matches_host_serializer() {
    let mut map = serde_json::Map::new();
    map.insert("counter".to_string(), serde_json::Value::from(0));
    let host = cosmwasm_std::to_binary(&serde_json::Value::Object(map)).unwrap();

    let mut deps = KvStore::new();
    instantiate(&mut deps, InstantiateMsg {}).unwrap();
    let got = deps.get(&b"state".to_vec()).unwrap();
    assert_eq!(got.as_slice(), host.as_slice());
}

#[test]
fn decode_inverts_encode() {
    for n in [0i32, 1, 9, 10, 99, 100, 65536, 2147483647] {
        assert_eq!(decode_counter(&encode_counter(n)), Some(n));
    }
}

#[test]
fn decode_rejects_malformed_records() {
    assert_eq!(decode_counter(&b"".to_vec()), None);
    assert_eq!(decode_counter(&b"{\"counter\":}".to_vec()), None);
    assert_eq!(decode_counter(&b"{\"counter\":01}".to_vec()), None);
    assert_eq!(decode_counter(&b"{\"counter\":1x}".to_vec()), None);
    assert_eq!(decode_counter(&b"{\"Counter\":1}".to_vec()), None);
    assert_eq!(decode_counter(&b"{\"counter\":2147483648}".to_vec()), None);
    assert_eq!(decode_counter(&b"{\"counter\":1}x".to_vec()), None);
}

#[test]
fn update_error_describes_not_found() {
    let mut deps = KvStore::new();
    let err = try_update_counter(&mut deps).unwrap_err();
    assert_eq!(err.describe(), "counter state not found");
}

#[test]
fn corrupt_state_fails_parse_err() {
    let mut deps = KvStore::new();
    deps.set(b"state".to_vec(), b"not a record".to_vec());
    let err = query(&deps, QueryMsg::Counter {}).unwrap_err();
    assert_eq!(err, StdError::ParseErr);
    let err = try_update_counter(&mut deps).unwrap_err();
    assert_eq!(err, ContractError::Std(StdError::ParseErr));
    assert_eq!(err.describe(), "counter state is not a well-formed record");
}

#[test]
fn saturation_at_largest_value() {
    let mut deps = KvStore::new();
    deps.set(b"state".to_vec(), encode_counter(2147483647));
    let resp = try_update_counter(&mut deps).unwrap();
    assert_eq!(
        resp.attributes,
        vec![Attribute {
            key: "counter".to_string(),
            value: "2147483647".to_string(),
        }]
    );
    assert_eq!(load_state(&deps).unwrap().counter, 2147483647);
}

#[test]
fn store_latest_write_wins() {
    let mut store = KvStore::new();
    assert_eq!(store.get(&b"k".to_vec()), None);
    store.set(b"k".to_vec(), b"a".to_vec());
    store.set(b"k".to_vec(), b"b".to_vec());
    assert_eq!(store.get(&b"k".to_vec()), Some(b"b".to_vec()));
    store.set(b"other".to_vec(), b"c".to_vec());
    assert_eq!(store.get(&b"k".to_vec()), Some(b"b".to_vec()));
    assert_eq!(store.get(&b"other".to_vec()), Some(b"c".to_vec()));
}
