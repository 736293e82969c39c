use std::collections::HashMap;

use serde_json::Number;
use serde_json::Value;

use rpc_cache_proxy::engine::assemble_response;
use rpc_cache_proxy::engine::build_upstream_batch;
use rpc_cache_proxy::engine::cache_probe;
use rpc_cache_proxy::engine::has_pending;
use rpc_cache_proxy::engine::normalize_body;
use rpc_cache_proxy::engine::plan_batch;
use rpc_cache_proxy::engine::reconcile_upstream;
use rpc_cache_proxy::engine::validate_requests;
use rpc_cache_proxy::engine::BatchAcc;
use rpc_cache_proxy::engine::CacheEvent;
use rpc_cache_proxy::engine::RpcError;
use rpc_cache_proxy::handler::HandlerError;
use rpc_cache_proxy::handler::RpcCacheHandler;
use rpc_cache_proxy::registry::AppState;
use rpc_cache_proxy::registry::CacheEntry;
use rpc_cache_proxy::registry::ChainState;

struct TestHandler {
    method: String,
    tag: u64,
}

impl RpcCacheHandler for TestHandler {
    fn method_name(&self) -> String {
        self.method.clone()
    }

    fn extract_cache_key(&self, params: &Value) -> Result<Option<String>, HandlerError> {
        match params.get(0) {
            None => Ok(None),
            Some(v) => {
                if v.as_str() == Some("fail") {
                    Err(HandlerError { message: String::from("key extraction failed") })
                } else if v.as_str() == Some("nokey") {
                    Ok(None)
                } else {
                    Ok(Some(format!("{}:{}", self.method, v)))
                }
            }
        }
    }

    fn extract_cache_value(&self, result: &Value) -> Result<(bool, String), HandlerError> {
        if result.as_str() == Some("volatile") {
            Ok((false, String::new()))
        } else if result.as_str() == Some("unextractable") {
            Err(HandlerError { message: String::from("value extraction failed") })
        } else {
            Ok((true, serde_json::to_string(result).unwrap()))
        }
    }
}

fn num(n: u64) -> Value {
    Value::Number(Number::from(n))
}

fn req_obj(id: u64, method: &str, params: Value) -> Value {
    let mut m = serde_json::Map::new();
    m.insert(String::from("id"), num(id));
    m.insert(String::from("method"), Value::String(String::from(method)));
    m.insert(String::from("params"), params);
    Value::Object(m)
}

fn resp_obj(id: u64, result: Value) -> Value {
    let mut m = serde_json::Map::new();
    m.insert(String::from("jsonrpc"), Value::String(String::from("2.0")));
    m.insert(String::from("id"), num(id));
    m.insert(String::from("result"), result);
    Value::Object(m)
}

fn err_resp_obj(id: u64) -> Value {
    let mut m = serde_json::Map::new();
    m.insert(String::from("jsonrpc"), Value::String(String::from("2.0")));
    m.insert(String::from("id"), num(id));
    let mut e = serde_json::Map::new();
    e.insert(String::from("code"), num(1));
    m.insert(String::from("error"), Value::Object(e));
    Value::Object(m)
}

fn params1(v: Value) -> Value {
    Value::Array(vec![v])
}

fn make_state(methods: &[&str]) -> AppState<TestHandler> {
    let mut chain = ChainState::new(String::from("http://upstream.test"));
    for m in methods {
        chain.register_handler(TestHandler { method: String::from(*m), tag: 0 });
    }
    let mut state = AppState::new();
    state.insert_chain(String::from("ETH"), chain);
    state
}

/// Drive one client call the way the server does: look up the chain,
/// normalize and validate the body, probe the cache, plan, send the misses
/// upstream, apply the write-backs, and assemble.  Returns the response or
/// the HTTP status of the failure.
fn run_call<F: FnMut(&Value) -> Value>(
    state: &AppState<TestHandler>,
    store: &mut HashMap<String, String>,
    chain_name: &str,
    body: &Value,
    mut upstream: F,
) -> Result<Value, u16> {
    let chain = match state.lookup_chain(chain_name) {
        Some(c) => c,
        None => return Err(404),
    };
    let raws = normalize_body(body);
    let reqs = match validate_requests(&raws) {
        Ok(r) => r,
        Err(e) => return Err(e.http_status()),
    };
    let mut pairs = Vec::new();
    for req in reqs {
        let ev = match cache_probe(chain, &req) {
            None => CacheEvent::NoKey,
            Some(key) => match store.get(&key) {
                Some(raw) => CacheEvent::Found { key, raw: raw.clone() },
                None => CacheEvent::Absent { key },
            },
        };
        pairs.push((req, ev));
    }
    let mut acc = match plan_batch(pairs) {
        Ok(a) => a,
        Err(e) => return Err(e.http_status()),
    };
    if has_pending(&acc) {
        let batch = build_upstream_batch(&acc);
        let resp = upstream(&batch);
        match reconcile_upstream(chain, &mut acc, &resp) {
            Ok(writes) => {
                for w in writes {
                    store.insert(w.key, w.value);
                }
            }
            Err(e) => {
                if e.is_invariant_violation() {
                    panic!("{}", e.message());
                }
                return Err(e.http_status());
            }
        }
    }
    match assemble_response(&acc) {
        Ok(v) => Ok(v),
        Err(e) => panic!("{}", e.message()),
    }
}

/// An upstream that answers each sub-call with the string "up<id>" and
/// counts its invocations.
fn echo_upstream(calls: &mut Vec<Value>) -> impl FnMut(&Value) -> Value + '_ {
    move |batch: &Value| {
        calls.push(batch.clone());
        let elems = batch.as_array().expect("upstream batch must be an array");
        let out: Vec<Value> = elems
            .iter()
            .map(|e| {
                let id = e["id"].as_u64().unwrap();
                resp_obj(id, Value::String(format!("up{}", id)))
            })
            .collect();
        Value::Array(out)
    }
}

#[test]
fn order_preserved_with_mixed_hits_and_misses() {
    let state = make_state(&["m"]);
    let mut store = HashMap::new();
    // The middle request is a cache hit; the outer two must go upstream.
    store.insert(String::from("m:2"), String::from("\"cached2\""));
    let body = Value::Array(vec![
        req_obj(1, "m", params1(num(1))),
        req_obj(2, "m", params1(num(2))),
        req_obj(3, "m", params1(num(3))),
    ]);
    let mut calls = Vec::new();
    let response = {
        let upstream = echo_upstream(&mut calls);
        // Answer the misses in reversed order: assembly must not care.
        let mut reversing = {
            let mut inner = upstream;
            move |batch: &Value| {
                let v = inner(batch);
                let mut elems = v.as_array().unwrap().clone();
                elems.reverse();
                Value::Array(elems)
            }
        };
        run_call(&state, &mut store, "ETH", &body, &mut reversing).unwrap()
    };
    let expected = Value::Array(vec![
        resp_obj(1, Value::String(String::from("up1"))),
        resp_obj(2, Value::String(String::from("cached2"))),
        resp_obj(3, Value::String(String::from("up3"))),
    ]);
    assert_eq!(response, expected);
    assert_eq!(calls.len(), 1);
}

#[test]
fn single_request_yields_bare_object() {
    let state = make_state(&[]);
    let mut store = HashMap::new();
    let body = req_obj(1, "m", params1(num(1)));
    let mut calls = Vec::new();
    let response = run_call(&state, &mut store, "ETH", &body, echo_upstream(&mut calls)).unwrap();
    // One request in: one bare (non-array) response object out.
    assert!(!response.is_array());
    assert_eq!(response, resp_obj(1, Value::String(String::from("up1"))));
}

#[test]
fn batch_yields_array_of_same_length() {
    let state = make_state(&[]);
    let mut store = HashMap::new();
    let body = Value::Array(vec![
        req_obj(1, "m", params1(num(1))),
        req_obj(2, "m", params1(num(2))),
    ]);
    let mut calls = Vec::new();
    let response = run_call(&state, &mut store, "ETH", &body, echo_upstream(&mut calls)).unwrap();
    assert_eq!(response.as_array().unwrap().len(), 2);
}

#[test]
fn all_hits_never_invoke_upstream() {
    let state = make_state(&["m"]);
    let mut store = HashMap::new();
    store.insert(String::from("m:1"), String::from("\"c1\""));
    store.insert(String::from("m:2"), String::from("\"c2\""));
    let body = Value::Array(vec![
        req_obj(1, "m", params1(num(1))),
        req_obj(2, "m", params1(num(2))),
    ]);
    let mut calls = Vec::new();
    let response = run_call(&state, &mut store, "ETH", &body, echo_upstream(&mut calls)).unwrap();
    assert_eq!(calls.len(), 0);
    let expected = Value::Array(vec![
        resp_obj(1, Value::String(String::from("c1"))),
        resp_obj(2, Value::String(String::from("c2"))),
    ]);
    assert_eq!(response, expected);
}

#[test]
fn no_handler_forwards_unchanged_and_writes_nothing() {
    let state = make_state(&[]);
    let mut store = HashMap::new();
    let body = Value::Array(vec![
        req_obj(7, "a", params1(num(1))),
        req_obj(8, "b", Value::Null),
    ]);
    let mut calls = Vec::new();
    run_call(&state, &mut store, "ETH", &body, echo_upstream(&mut calls)).unwrap();
    assert_eq!(calls.len(), 1);
    let batch = calls[0].as_array().unwrap();
    // Each forwarded element keeps the original id, method and params.
    assert_eq!(batch.len(), 2);
    assert_eq!(batch[0]["id"], num(7));
    assert_eq!(batch[0]["method"], Value::String(String::from("a")));
    assert_eq!(batch[0]["params"], params1(num(1)));
    assert_eq!(batch[1]["id"], num(8));
    assert_eq!(batch[1]["method"], Value::String(String::from("b")));
    assert_eq!(batch[1]["params"], Value::Null);
    assert_eq!(batch[0]["jsonrpc"], Value::String(String::from("2.0")));
    assert!(store.is_empty());
}

#[test]
fn miss_then_hit_round_trip() {
    let state = make_state(&["m"]);
    let mut store = HashMap::new();
    let body = Value::Array(vec![
        req_obj(1, "m", params1(num(10))),
        req_obj(2, "m", params1(num(20))),
    ]);
    // First call: store empty, one two-item upstream batch, both cached.
    let mut calls = Vec::new();
    let first = run_call(&state, &mut store, "ETH", &body, echo_upstream(&mut calls)).unwrap();
    assert_eq!(calls.len(), 1);
    assert_eq!(calls[0].as_array().unwrap().len(), 2);
    assert_eq!(store.get("m:10"), Some(&String::from("\"up1\"")));
    assert_eq!(store.get("m:20"), Some(&String::from("\"up2\"")));
    let expected = Value::Array(vec![
        resp_obj(1, Value::String(String::from("up1"))),
        resp_obj(2, Value::String(String::from("up2"))),
    ]);
    assert_eq!(first, expected);
    // Second call with the exact same batch: served from the store alone,
    // zero upstream calls, identical response.
    let mut calls2 = Vec::new();
    let second = run_call(&state, &mut store, "ETH", &body, echo_upstream(&mut calls2)).unwrap();
    assert_eq!(calls2.len(), 0);
    assert_eq!(second, first);
}

#[test]
fn same_stored_value_resolves_identically_twice() {
    let state = make_state(&["m"]);
    let mut store = HashMap::new();
    store.insert(String::from("m:1"), String::from("{\"x\":5}"));
    let body = req_obj(9, "m", params1(num(1)));
    let mut calls = Vec::new();
    let a = run_call(&state, &mut store, "ETH", &body, echo_upstream(&mut calls)).unwrap();
    let b = run_call(&state, &mut store, "ETH", &body, echo_upstream(&mut calls)).unwrap();
    assert_eq!(a, b);
    assert_eq!(calls.len(), 0);
}

#[test]
fn unknown_chain_is_404_whatever_the_casing() {
    let state = make_state(&[]);
    let mut store = HashMap::new();
    let body = req_obj(1, "m", Value::Null);
    let mut calls = Vec::new();
    for name in ["xyz", "XYZ", "Xyz"] {
        let r = run_call(&state, &mut store, name, &body, echo_upstream(&mut calls));
        assert_eq!(r, Err(404));
    }
    assert_eq!(calls.len(), 0);
    // The registered chain is found under any casing of its name.
    for name in ["ETH", "eth", "Eth"] {
        let r = run_call(&state, &mut store, name, &body, echo_upstream(&mut calls));
        assert!(r.is_ok());
    }
}

#[test]
fn missing_id_rejects_whole_batch_without_upstream() {
    let state = make_state(&[]);
    let mut store = HashMap::new();
    let mut no_id = serde_json::Map::new();
    no_id.insert(String::from("method"), Value::String(String::from("m")));
    let body = Value::Array(vec![
        req_obj(1, "m", Value::Null),
        Value::Object(no_id),
    ]);
    let mut calls = Vec::new();
    let r = run_call(&state, &mut store, "ETH", &body, echo_upstream(&mut calls));
    assert_eq!(r, Err(400));
    assert_eq!(calls.len(), 0);
}

#[test]
fn missing_method_rejects_whole_batch_without_upstream() {
    let state = make_state(&[]);
    let mut store = HashMap::new();
    let mut no_method = serde_json::Map::new();
    no_method.insert(String::from("id"), num(2));
    let body = Value::Array(vec![
        Value::Object(no_method),
        req_obj(1, "m", Value::Null),
    ]);
    let mut calls = Vec::new();
    let r = run_call(&state, &mut store, "ETH", &body, echo_upstream(&mut calls));
    assert_eq!(r, Err(400));
    assert_eq!(calls.len(), 0);
}

#[test]
fn one_sub_error_fails_the_whole_batch() {
    let state = make_state(&[]);
    let mut store = HashMap::new();
    let body = Value::Array(vec![
        req_obj(1, "m", Value::Null),
        req_obj(2, "m", Value::Null),
        req_obj(3, "m", Value::Null),
    ]);
    let r = run_call(&state, &mut store, "ETH", &body, |batch: &Value| {
        let elems = batch.as_array().unwrap();
        Value::Array(vec![
            resp_obj(elems[0]["id"].as_u64().unwrap(), num(1)),
            err_resp_obj(elems[1]["id"].as_u64().unwrap()),
            resp_obj(elems[2]["id"].as_u64().unwrap(), num(3)),
        ])
    });
    // The whole call fails; no id's result is returned.
    assert_eq!(r, Err(500));
}

#[test]
fn non_array_upstream_response_is_500() {
    let state = make_state(&[]);
    let mut store = HashMap::new();
    let body = req_obj(1, "m", Value::Null);
    let r = run_call(&state, &mut store, "ETH", &body, |_: &Value| {
        resp_obj(1, num(1))
    });
    assert_eq!(r, Err(500));
}

#[test]
fn unknown_upstream_id_is_400() {
    let state = make_state(&[]);
    let mut store = HashMap::new();
    let body = req_obj(1, "m", Value::Null);
    let r = run_call(&state, &mut store, "ETH", &body, |_: &Value| {
        Value::Array(vec![resp_obj(99, num(1))])
    });
    assert_eq!(r, Err(400));
}

#[test]
fn upstream_element_without_id_is_400() {
    let state = make_state(&[]);
    let mut store = HashMap::new();
    let body = req_obj(1, "m", Value::Null);
    let r = run_call(&state, &mut store, "ETH", &body, |_: &Value| {
        Value::Array(vec![Value::String(String::from("nonsense"))])
    });
    assert_eq!(r, Err(400));
}

#[test]
fn corrupt_cache_entry_fails_the_call() {
    let state = make_state(&["m"]);
    let mut store = HashMap::new();
    store.insert(String::from("m:1"), String::from("not json at all"));
    let body = req_obj(1, "m", params1(num(1)));
    let mut calls = Vec::new();
    let r = run_call(&state, &mut store, "ETH", &body, echo_upstream(&mut calls));
    assert_eq!(r, Err(500));
    assert_eq!(calls.len(), 0);
}

#[test]
fn key_extraction_failure_degrades_to_uncached() {
    let state = make_state(&["m"]);
    let mut store = HashMap::new();
    let body = req_obj(1, "m", params1(Value::String(String::from("fail"))));
    let mut calls = Vec::new();
    let r = run_call(&state, &mut store, "ETH", &body, echo_upstream(&mut calls)).unwrap();
    assert_eq!(calls.len(), 1);
    assert_eq!(r, resp_obj(1, Value::String(String::from("up1"))));
    // Nothing was written back: the request carried no cache key.
    assert!(store.is_empty());
}

#[test]
fn store_failure_degrades_to_uncached_without_write_back() {
    // A derived key whose store read failed forwards the request with no
    // key, so the later result must not be written back blindly.
    let pairs = vec![(
        rpc_cache_proxy::engine::ClientRequest {
            id: 4,
            method: String::from("m"),
            params: Value::Null,
        },
        CacheEvent::StoreFailed { key: String::from("m:4") },
    )];
    let acc = plan_batch(pairs).unwrap();
    assert_eq!(acc.pending.len(), 1);
    assert_eq!(acc.pending[0].id, 4);
    assert_eq!(acc.pending[0].cache_key, None);
}

#[test]
fn non_cacheable_result_is_not_written_back() {
    let state = make_state(&["m"]);
    let mut store = HashMap::new();
    let body = req_obj(1, "m", params1(num(1)));
    let r = run_call(&state, &mut store, "ETH", &body, |batch: &Value| {
        let elems = batch.as_array().unwrap();
        let id = elems[0]["id"].as_u64().unwrap();
        Value::Array(vec![resp_obj(id, Value::String(String::from("volatile")))])
    })
    .unwrap();
    assert_eq!(r, resp_obj(1, Value::String(String::from("volatile"))));
    assert!(store.is_empty());
}

#[test]
fn value_extraction_failure_skips_the_write_but_serves_the_result() {
    let state = make_state(&["m"]);
    let mut store = HashMap::new();
    let body = req_obj(1, "m", params1(num(1)));
    let r = run_call(&state, &mut store, "ETH", &body, |batch: &Value| {
        let elems = batch.as_array().unwrap();
        let id = elems[0]["id"].as_u64().unwrap();
        Value::Array(vec![resp_obj(id, Value::String(String::from("unextractable")))])
    })
    .unwrap();
    assert_eq!(r, resp_obj(1, Value::String(String::from("unextractable"))));
    assert!(store.is_empty());
}

#[test]
fn missing_result_at_assembly_is_the_invariant_error() {
    let acc = BatchAcc { ordered_ids: vec![1], table: Vec::new(), pending: Vec::new() };
    let r = assemble_response(&acc);
    assert!(matches!(r, Err(RpcError::MissingResult)));
}

#[test]
fn pending_key_without_handler_is_the_invariant_error() {
    let chain: ChainState<TestHandler> = ChainState::new(String::from("http://upstream.test"));
    let mut acc = BatchAcc {
        ordered_ids: vec![1],
        table: Vec::new(),
        pending: vec![rpc_cache_proxy::engine::PendingRequest {
            id: 1,
            method: String::from("m"),
            params: Value::Null,
            cache_key: Some(String::from("k")),
        }],
    };
    let response = Value::Array(vec![resp_obj(1, num(1))]);
    let r = reconcile_upstream(&chain, &mut acc, &response);
    assert!(matches!(r, Err(RpcError::HandlerMissing)));
}

#[test]
fn later_handler_registration_wins() {
    let mut chain = ChainState::new(String::from("http://upstream.test"));
    chain.register_handler(TestHandler { method: String::from("m"), tag: 1 });
    chain.register_handler(TestHandler { method: String::from("m"), tag: 2 });
    let entry = chain.lookup_handler(&String::from("m")).unwrap();
    assert_eq!(entry.handler.tag, 2);
    assert!(chain.lookup_handler(&String::from("other")).is_none());
}

#[test]
fn cache_entry_keeps_its_handler() {
    let entry = CacheEntry::new(TestHandler { method: String::from("m"), tag: 7 });
    assert_eq!(entry.handler.tag, 7);
    assert_eq!(entry.handler.method_name(), "m");
}

#[test]
fn handler_derived_no_key_forwards_without_key() {
    let state = make_state(&["m"]);
    let mut store = HashMap::new();
    let body = req_obj(1, "m", params1(Value::String(String::from("nokey"))));
    let mut calls = Vec::new();
    run_call(&state, &mut store, "ETH", &body, echo_upstream(&mut calls)).unwrap();
    assert_eq!(calls.len(), 1);
    assert!(store.is_empty());
}

#[test]
fn normalize_wraps_bare_object_as_batch_of_one() {
    let body = req_obj(1, "m", Value::Null);
    let raws = normalize_body(&body);
    assert_eq!(raws.len(), 1);
    assert_eq!(raws[0], body);
    let arr = Value::Array(vec![req_obj(1, "m", Value::Null), req_obj(2, "n", Value::Null)]);
    let raws2 = normalize_body(&arr);
    assert_eq!(raws2.len(), 2);
    assert_eq!(raws2[1], req_obj(2, "n", Value::Null));
}

#[test]
fn validate_reports_the_first_violation() {
    let mut only_id = serde_json::Map::new();
    only_id.insert(String::from("id"), num(1));
    let raws = vec![Value::Object(only_id), Value::Null];
    let r = validate_requests(&raws);
    assert!(matches!(r, Err(RpcError::MissingMethod)));
    let raws2 = vec![Value::Null];
    assert!(matches!(validate_requests(&raws2), Err(RpcError::MissingId)));
}

#[test]
fn empty_batch_yields_empty_array() {
    let state = make_state(&[]);
    let mut store = HashMap::new();
    let body = Value::Array(Vec::new());
    let mut calls = Vec::new();
    let r = run_call(&state, &mut store, "ETH", &body, echo_upstream(&mut calls)).unwrap();
    assert_eq!(r, Value::Array(Vec::new()));
    assert_eq!(calls.len(), 0);
}

#[test]
fn error_messages_and_statuses() {
    assert_eq!(RpcError::MissingId.message(), "id not found");
    assert_eq!(RpcError::MissingMethod.message(), "method not found");
    assert_eq!(RpcError::InvalidResponse.message(), "invalid rpc response");
    assert_eq!(RpcError::RemoteError.message(), "remote rpc error");
    assert_eq!(RpcError::MissingId.http_status(), 400);
    assert_eq!(RpcError::MissingMethod.http_status(), 400);
    assert_eq!(RpcError::UnknownCorrelation.http_status(), 400);
    assert_eq!(RpcError::InvalidResponse.http_status(), 500);
    assert_eq!(RpcError::RemoteError.http_status(), 500);
    assert_eq!(RpcError::CacheCorrupt.http_status(), 500);
    assert!(RpcError::HandlerMissing.is_invariant_violation());
    assert!(RpcError::MissingResult.is_invariant_violation());
    assert!(!RpcError::RemoteError.is_invariant_violation());
}

#[test]
fn cached_number_is_served_as_parsed_json() {
    // The stored text is parsed, not echoed: a stored "42" serves the
    // number 42, not the five-character string.
    let state = make_state(&["m"]);
    let mut store = HashMap::new();
    store.insert(String::from("m:1"), String::from("42"));
    let body = req_obj(1, "m", params1(num(1)));
    let mut calls = Vec::new();
    let r = run_call(&state, &mut store, "ETH", &body, echo_upstream(&mut calls)).unwrap();
    assert_eq!(r, resp_obj(1, num(42)));
}
