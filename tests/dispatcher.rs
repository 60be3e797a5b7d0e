use cita_tool::client::{ChainIdStep, Client, RequestBatch};
use cita_tool::error::ClientError;
use cita_tool::rpc::{JsonRpcParams, JsonRpcResponse, ParamsValue, ResponseBody, RpcError};

fn client_with(urls: &[&str]) -> Client {
    let mut c = Client::new();
    for u in urls {
        c = c.add_url(u.to_string());
    }
    c
}

fn lookup<'a>(p: &'a JsonRpcParams, key: &str) -> Option<&'a ParamsValue> {
    p.entries().iter().find(|(k, _)| k == key).map(|(_, v)| v)
}

fn ok_response(id: u64, value: ParamsValue) -> JsonRpcResponse {
    JsonRpcResponse { id, body: ResponseBody::Success(value) }
}

fn meta_response(chain_id: u64) -> JsonRpcResponse {
    let entries = vec![
        ("chainName".to_string(), ParamsValue::String("test".to_string())),
        ("chainId".to_string(), ParamsValue::Int(chain_id)),
    ];
    ok_response(1, ParamsValue::Object(entries))
}

fn block_params() -> JsonRpcParams {
    JsonRpcParams::new().insert("method".to_string(), ParamsValue::String("cita_blockNumber".to_string()))
}

#[test]
fn new_client_is_empty() {
    let c = Client::new();
    assert!(c.urls().is_empty());
    assert_eq!(c.chain_id(), None);
}

#[test]
fn add_url_keeps_registration_order() {
    let c = client_with(&["http://a:1337", "http://b:1337", "http://c:1337"]);
    assert_eq!(c.urls(), &vec!["http://a:1337".to_string(), "http://b:1337".to_string(), "http://c:1337".to_string()]);
}

#[test]
fn params_new_holds_protocol_version() {
    let p = JsonRpcParams::new();
    assert_eq!(p.entries().len(), 1);
    assert_eq!(lookup(&p, "jsonrpc"), Some(&ParamsValue::String("2.0".to_string())));
}

#[test]
fn params_insert_replaces_in_place_and_appends_new_keys() {
    let p = JsonRpcParams::new()
        .insert("method".to_string(), ParamsValue::Int(1))
        .insert("params".to_string(), ParamsValue::List(vec![]))
        .insert("method".to_string(), ParamsValue::Int(2));
    let keys: Vec<&str> = p.entries().iter().map(|(k, _)| k.as_str()).collect();
    assert_eq!(keys, vec!["jsonrpc", "method", "params"]);
    assert_eq!(lookup(&p, "method"), Some(&ParamsValue::Int(2)));
}

#[test]
fn send_plans_one_call_per_endpoint_in_order() {
    let urls = ["http://a:1337", "http://b:1337", "http://c:1337"];
    let mut c = client_with(&urls);
    let batch = c.send_request("cita_blockNumber", block_params()).unwrap();
    assert_eq!(batch.urls.len(), 3);
    for (i, u) in urls.iter().enumerate() {
        assert_eq!(batch.urls[i], *u);
    }
    assert_eq!(batch.id, 1);
    assert_eq!(lookup(&batch.params, "id"), Some(&ParamsValue::Int(1)));
    assert_eq!(lookup(&batch.params, "method"), Some(&ParamsValue::String("cita_blockNumber".to_string())));
}

#[test]
fn send_with_single_endpoint() {
    let mut c = client_with(&["http://a:1337"]);
    let batch = c.send_request("cita_getMetaData", JsonRpcParams::new()).unwrap();
    assert_eq!(batch.urls, vec!["http://a:1337".to_string()]);
}

#[test]
fn send_rejects_unsupported_method_without_using_an_id() {
    let mut c = client_with(&["http://a:1337", "http://b:1337"]);
    let r = c.send_request("cita_sendTransaction", JsonRpcParams::new());
    assert!(matches!(r, Err(ClientError::UnsupportedMethod)));
    let batch = c.send_request("cita_blockNumber", block_params()).unwrap();
    assert_eq!(batch.id, 1);
}

#[test]
fn request_ids_increase_by_one() {
    let mut c = client_with(&["http://a:1337"]);
    let ids: Vec<u64> = (0..5)
        .map(|_| c.send_request("cita_blockNumber", block_params()).unwrap().id)
        .collect();
    assert_eq!(ids, vec![1, 2, 3, 4, 5]);
}

fn three_batch() -> RequestBatch {
    let mut c = client_with(&["http://a:1337", "http://b:1337", "http://c:1337"]);
    c.send_request("cita_blockNumber", block_params()).unwrap()
}

#[test]
fn collect_keeps_endpoint_order() {
    let batch = three_batch();
    let results = vec![
        Some(ok_response(1, ParamsValue::Int(10))),
        Some(ok_response(1, ParamsValue::Int(11))),
        Some(JsonRpcResponse {
            id: 1,
            body: ResponseBody::Failure(RpcError { code: -32603, message: "busy".to_string() }),
        }),
    ];
    let out = batch.collect_responses(results).unwrap();
    assert_eq!(out.len(), 3);
    assert_eq!(out[0].result(), Some(&ParamsValue::Int(10)));
    assert_eq!(out[1].result(), Some(&ParamsValue::Int(11)));
    assert_eq!(out[2].result(), None);
}

#[test]
fn collect_fails_whole_batch_on_one_transport_failure() {
    let batch = three_batch();
    let results = vec![Some(ok_response(1, ParamsValue::Int(10))), None, Some(ok_response(1, ParamsValue::Int(12)))];
    assert!(matches!(batch.collect_responses(results), Err(ClientError::TransportFailure)));
}

#[test]
fn collect_fails_on_missing_responses() {
    let batch = three_batch();
    let results = vec![Some(ok_response(1, ParamsValue::Int(10)))];
    assert!(matches!(batch.collect_responses(results), Err(ClientError::TransportFailure)));
}

#[test]
fn chain_id_is_fetched_once_then_cached() {
    let mut c = client_with(&["http://a:1337", "http://b:1337"]);
    let batch = match c.resolve_chain_id() {
        ChainIdStep::Fetch(b) => b,
        ChainIdStep::Known(_) => panic!("nothing is cached yet"),
    };
    assert_eq!(batch.id, 1);
    assert_eq!(batch.urls.len(), 2);
    assert_eq!(lookup(&batch.params, "method"), Some(&ParamsValue::String("cita_getMetaData".to_string())));
    assert_eq!(
        lookup(&batch.params, "params"),
        Some(&ParamsValue::List(vec![ParamsValue::String("latest".to_string())]))
    );
    let responses = vec![meta_response(7), meta_response(9)];
    assert_eq!(c.finish_chain_id(&responses), 7);
    assert_eq!(c.chain_id(), Some(7));
    for _ in 0..3 {
        assert!(matches!(c.resolve_chain_id(), ChainIdStep::Known(7)));
    }
    let next = c.send_request("cita_blockNumber", block_params()).unwrap();
    assert_eq!(next.id, 2);
}

#[test]
fn chain_id_of_unexpected_shape_is_zero_and_not_cached() {
    let mut c = client_with(&["http://a:1337"]);
    assert!(matches!(c.resolve_chain_id(), ChainIdStep::Fetch(_)));
    let responses = vec![ok_response(1, ParamsValue::Int(3))];
    assert_eq!(c.finish_chain_id(&responses), 0);
    assert_eq!(c.chain_id(), None);
    let missing = vec![ok_response(1, ParamsValue::Object(vec![]))];
    assert_eq!(c.finish_chain_id(&missing), 0);
    assert_eq!(c.finish_chain_id(&vec![]), 0);
    assert!(matches!(c.resolve_chain_id(), ChainIdStep::Fetch(_)));
}

#[test]
fn chain_id_is_truncated_to_32_bits() {
    let mut c = client_with(&["http://a:1337"]);
    let responses = vec![meta_response(0x1_0000_0005)];
    assert_eq!(c.finish_chain_id(&responses), 5);
}

#[test]
fn clients_are_independent() {
    let mut a = client_with(&["http://a:1337"]);
    let mut b = client_with(&["http://b:1337"]);
    a.send_request("cita_blockNumber", block_params()).unwrap();
    a.finish_chain_id(&vec![meta_response(4)]);
    assert_eq!(b.send_request("cita_blockNumber", block_params()).unwrap().id, 1);
    assert_eq!(b.chain_id(), None);
}
