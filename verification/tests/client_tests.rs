use apiclient_rs::{ApiClient, ApiClientError, JsonValue, Method, RawResponse, RetryStep};
use apiclient_rs::{AuthStrategy, BearerAuth, RetryState};

fn client() -> ApiClient {
    ApiClient::new("https://api.example.com", None)
}

fn ok_reply(body: &str) -> RawResponse {
    RawResponse::Reply { status: 200, body: Some(body.to_string()) }
}

fn reply(status: u16, body: &str) -> RawResponse {
    RawResponse::Reply { status, body: Some(body.to_string()) }
}

#[test]
fn join_strips_redundant_slashes() {
    let c = ApiClient::new("https://api.example.com/", None);
    let req = c.get("/users", None);
    assert_eq!(req.url, "https://api.example.com/users");
    assert_eq!(req.method, Method::Get);
}

#[test]
fn join_handles_many_slashes() {
    let c = ApiClient::new("https://api.example.com///", None);
    let req = c.get("///v1/items", None);
    assert_eq!(req.url, "https://api.example.com/v1/items");
}

#[test]
fn join_without_any_slashes() {
    let c = ApiClient::new("https://api.example.com", None);
    let req = c.get("users", None);
    assert_eq!(req.url, "https://api.example.com/users");
}

#[test]
fn join_empty_endpoint_keeps_single_seam_slash() {
    let c = ApiClient::new("https://api.example.com/", None);
    let req = c.get("", None);
    assert_eq!(req.url, "https://api.example.com/");
}

#[test]
fn get_attaches_query_pairs() {
    let c = client();
    let pairs = vec![("q".to_string(), "x".to_string())];
    let req = c.get("search", Some(&pairs));
    assert_eq!(req.query, pairs);
    assert!(req.body.is_none());
}

#[test]
fn get_applies_bearer_auth_header() {
    let auth = AuthStrategy::Bearer(BearerAuth::new("tok123".to_string()));
    let c = ApiClient::new("https://api.example.com", Some(auth));
    let req = c.get("users", None);
    assert_eq!(req.headers, vec![("authorization".to_string(), "Bearer tok123".to_string())]);
}

#[test]
fn post_encodes_body_as_json() {
    let c = client();
    let body = JsonValue::Obj(vec![("a".to_string(), JsonValue::Num("1".to_string()))]);
    let req = c.post("items", Some(&body)).unwrap();
    assert_eq!(req.method, Method::Post);
    assert_eq!(req.body, Some("{\"a\":1}".to_string()));
}

#[test]
fn post_without_body_has_none() {
    let c = client();
    let req = c.post("items", None).unwrap();
    assert!(req.body.is_none());
}

#[test]
fn post_with_bad_number_is_deserialize_error() {
    let c = client();
    let body = JsonValue::Obj(vec![("a".to_string(), JsonValue::Num("abc".to_string()))]);
    match c.post("items", Some(&body)) {
        Err(ApiClientError::DeserializeError(_)) => {},
        other => panic!("expected DeserializeError, got {:?}", other.map(|r| r.url)),
    }
}

#[test]
fn success_body_parses_to_document() {
    let c = client();
    match c.handle_response(200, Some("{\"ok\":true}".to_string())) {
        Ok(v) => assert_eq!(
            v,
            JsonValue::Obj(vec![("ok".to_string(), JsonValue::Bool(true))])
        ),
        Err(e) => panic!("expected success, got {:?}", e),
    }
}

#[test]
fn malformed_success_body_is_json_parse_not_api_error() {
    let c = client();
    match c.handle_response(200, Some("{\"name\": }".to_string())) {
        Err(ApiClientError::JsonParse(_)) => {},
        other => panic!("expected JsonParse, got {:?}", other),
    }
}

#[test]
fn status_429_is_rate_limit_with_raw_body() {
    let c = client();
    match c.handle_response(429, Some("slow down".to_string())) {
        Err(ApiClientError::RateLimit(body)) => assert_eq!(body, "slow down"),
        other => panic!("expected RateLimit, got {:?}", other),
    }
}

#[test]
fn other_status_is_api_error_with_status_and_body() {
    let c = client();
    match c.handle_response(500, Some("boom".to_string())) {
        Err(ApiClientError::ApiError { status, body }) => {
            assert_eq!(status, 500);
            assert_eq!(body, "boom");
        },
        other => panic!("expected ApiError, got {:?}", other),
    }
}

#[test]
fn unreadable_body_degrades_to_placeholder() {
    let c = client();
    match c.handle_response(404, None) {
        Err(ApiClientError::ApiError { status, body }) => {
            assert_eq!(status, 404);
            assert_eq!(body, "Failed to read response body");
        },
        other => panic!("expected ApiError, got {:?}", other),
    }
}

#[test]
fn two_rate_limits_then_success_returns_payload() {
    let c = client();
    let script = vec![reply(429, "wait"), reply(429, "wait"), ok_reply("{\"ok\":true}")];
    match c.execute_request(&script) {
        Ok(v) => assert_eq!(
            v,
            JsonValue::Obj(vec![("ok".to_string(), JsonValue::Bool(true))])
        ),
        Err(e) => panic!("expected success after two retries, got {:?}", e),
    }
}

#[test]
fn retry_budget_is_consumed_exactly_twice_before_third_attempt() {
    let c = client();
    let mut state = RetryState::new();
    let mut sleeps = 0;
    for _ in 0..2 {
        match c.step(state, reply(429, "wait")) {
            RetryStep::SleepAndRetry(next) => {
                sleeps += 1;
                state = next;
            },
            RetryStep::Finish(_) => panic!("expected a retry"),
        }
    }
    assert_eq!(sleeps, 2);
    assert!(!state.exhausted());
    match c.step(state, ok_reply("{\"ok\":true}")) {
        RetryStep::Finish(Ok(v)) => assert_eq!(
            v,
            JsonValue::Obj(vec![("ok".to_string(), JsonValue::Bool(true))])
        ),
        _ => panic!("expected the success payload on the third attempt"),
    }
}

#[test]
fn four_rate_limits_yield_max_retries_not_rate_limit() {
    let c = client();
    let script = vec![
        reply(429, "a"),
        reply(429, "b"),
        reply(429, "c"),
        reply(429, "d"),
    ];
    match c.execute_request(&script) {
        Err(ApiClientError::MaxRetriesReached) => {},
        other => panic!("expected MaxRetriesReached, got {:?}", other),
    }
}

#[test]
fn server_error_returns_immediately_without_retry() {
    let c = client();
    let script = vec![reply(500, "boom"), ok_reply("{}"), ok_reply("{}")];
    match c.execute_request(&script) {
        Err(ApiClientError::ApiError { status, body }) => {
            assert_eq!(status, 500);
            assert_eq!(body, "boom");
        },
        other => panic!("expected immediate ApiError, got {:?}", other),
    }
}

#[test]
fn transport_failure_is_network_and_never_retried() {
    let c = client();
    let script = vec![
        RawResponse::Failure("dns lookup failed".to_string()),
        ok_reply("{}"),
        ok_reply("{}"),
    ];
    match c.execute_request(&script) {
        Err(ApiClientError::Network(msg)) => assert_eq!(msg, "dns lookup failed"),
        other => panic!("expected Network, got {:?}", other),
    }
}

#[test]
fn three_rate_limits_exhaust_the_budget_before_a_late_success() {
    let c = client();
    let script = vec![
        reply(429, "a"),
        reply(429, "b"),
        reply(429, "c"),
        ok_reply("{\"ok\":true}"),
    ];
    match c.execute_request(&script) {
        Err(ApiClientError::MaxRetriesReached) => {},
        other => panic!("expected MaxRetriesReached, got {:?}", other),
    }
}

#[test]
fn rate_limit_then_server_error_stops_retrying() {
    let c = client();
    let script = vec![reply(429, "wait"), reply(500, "boom"), ok_reply("{}")];
    match c.execute_request(&script) {
        Err(ApiClientError::ApiError { status, .. }) => assert_eq!(status, 500),
        other => panic!("expected ApiError, got {:?}", other),
    }
}

#[test]
fn rate_limit_then_malformed_success_is_json_parse() {
    let c = client();
    let script = vec![reply(429, "wait"), ok_reply("{\"name\": }"), ok_reply("{}")];
    match c.execute_request(&script) {
        Err(ApiClientError::JsonParse(_)) => {},
        other => panic!("expected JsonParse, got {:?}", other),
    }
}

#[test]
fn serialize_params_flattens_scalars_in_source_order() {
    let c = client();
    let params = JsonValue::Obj(vec![
        ("q".to_string(), JsonValue::Str("x".to_string())),
        ("page".to_string(), JsonValue::Num("2".to_string())),
        ("active".to_string(), JsonValue::Bool(true)),
        ("tags".to_string(), JsonValue::Arr(vec![JsonValue::Num("1".to_string())])),
        ("meta".to_string(), JsonValue::Obj(vec![])),
        ("gone".to_string(), JsonValue::Null),
    ]);
    let pairs = c.serialize_params(Some(&params)).unwrap().unwrap();
    assert_eq!(
        pairs,
        vec![
            ("q".to_string(), "x".to_string()),
            ("page".to_string(), "2".to_string()),
            ("active".to_string(), "true".to_string()),
        ]
    );
}

#[test]
fn serialize_params_none_stays_none() {
    let c = client();
    assert!(c.serialize_params(None).unwrap().is_none());
}

#[test]
fn serialize_params_non_object_gives_no_pairs() {
    let c = client();
    let pairs = c.serialize_params(Some(&JsonValue::Num("7".to_string()))).unwrap().unwrap();
    assert!(pairs.is_empty());
}
