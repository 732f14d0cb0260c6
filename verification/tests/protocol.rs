use hdn::durable::DurableWrite;
use hdn::protocol::{
    answer_read, connection_message, decimal_string, generate_response, greetings,
    handle_connection, handle_read, render_greeting, render_response, request_unit_len, respond,
    Field, LogEvent, Reply, Request, Response, REQUEST_END,
};
use hdn::store::{get_storage_size, Store};
use serde_json::Value;

fn object(members: &[(&str, &str)]) -> Value {
    let mut map = serde_json::Map::new();
    for (name, value) in members {
        map.insert(name.to_string(), Value::String(value.to_string()));
    }
    Value::Object(map)
}

fn request(request_type: Option<&str>, key: Option<&str>, hash: Option<&str>) -> Request {
    Request {
        request_type: request_type.map(str::to_string),
        key: key.map(str::to_string),
        hash: hash.map(str::to_string),
    }
}

fn as_json(response: &Response) -> Value {
    let text = render_response(response).expect("a response renders");
    serde_json::from_slice(&text).expect("a rendered response is JSON")
}

#[test]
fn test_greetings() {
    let text = render_greeting().expect("the greeting renders");
    let greetings: Value = serde_json::from_slice(&text).unwrap();
    assert_eq!(greetings, object(&[("student_name", "Anastasia Medvedeva")]));
}

#[test]
fn greeting_fields_are_exact() {
    assert_eq!(
        greetings(),
        vec![Field { name: "student_name".to_string(), value: "Anastasia Medvedeva".to_string() }]
    );
}

#[test]
fn greeting_is_pretty_printed() {
    let text = render_greeting().unwrap();
    assert_eq!(
        String::from_utf8(text).unwrap(),
        "{\n  \"student_name\": \"Anastasia Medvedeva\"\n}"
    );
}

#[test]
fn test_generate_response() {
    let mut store = Store::new();
    let store_request =
        request(Some("store"), Some("some_key"), Some("0b672dd94fd3da6a8d404b66ee3f0c80"));
    let load_request = request(Some("load"), Some("some_key"), None);
    let load_request_absent = request(Some("load"), Some("absent_key"), None);
    let load_request_unknown = request(Some("unknown"), None, None);
    let store_response = generate_response(&mut store, &store_request);
    let load_response = generate_response(&mut store, &load_request);
    let load_response_absent = generate_response(&mut store, &load_request_absent);
    let load_response_unknown = generate_response(&mut store, &load_request_unknown);
    assert_eq!(as_json(&store_response.response), object(&[("response_status", "success")]));
    assert_eq!(
        as_json(&load_response.response),
        object(&[
            ("requested_hash", "0b672dd94fd3da6a8d404b66ee3f0c80"),
            ("requested_key", "some_key"),
            ("response_status", "success"),
        ])
    );
    assert_eq!(
        as_json(&load_response_absent.response),
        object(&[("response_status", "key not found")])
    );
    assert_eq!(
        as_json(&load_response_unknown.response),
        object(&[("response_status", "unknown request")])
    );
}

#[test]
fn store_reply_carries_write_and_log() {
    let mut store = Store::new();
    let reply = generate_response(&mut store, &request(Some("store"), Some("k"), Some("h")));
    assert_eq!(
        reply,
        Reply {
            response: Response::Success,
            write: Some(DurableWrite::Append(b"k,h\n".to_vec())),
            log: Some(LogEvent::Stored { key: "k".to_string(), hash: "h".to_string(), size: 0 }),
        }
    );
    let again = generate_response(&mut store, &request(Some("store"), Some("k"), Some("h2")));
    assert_eq!(
        again,
        Reply {
            response: Response::Success,
            write: Some(DurableWrite::Rewrite(b"k,h2\n".to_vec())),
            log: Some(LogEvent::Stored { key: "k".to_string(), hash: "h2".to_string(), size: 1 }),
        }
    );
}

#[test]
fn load_reply_carries_log_and_no_write() {
    let mut store = Store::new();
    generate_response(&mut store, &request(Some("store"), Some("k"), Some("h")));
    let reply = generate_response(&mut store, &request(Some("load"), Some("k"), None));
    assert_eq!(
        reply,
        Reply {
            response: Response::Found { key: "k".to_string(), hash: "h".to_string() },
            write: None,
            log: Some(LogEvent::Loaded { key: "k".to_string(), size: 1 }),
        }
    );
}

#[test]
fn unknown_request_leaves_store_alone() {
    let mut store = Store::new();
    handle_connection(&mut store, br#"{"request_type": "store", "key": "a", "hash": "1"}"#);
    let reply = handle_connection(&mut store, br#"{"request_type": "delete"}"#);
    assert_eq!(
        reply,
        Reply { response: Response::UnknownRequest, write: None, log: None }
    );
    assert_eq!(as_json(&reply.response), object(&[("response_status", "unknown request")]));
    assert_eq!(get_storage_size(&store), 1);
    assert_eq!(store.get("a"), Some("1".to_string()));
}

#[test]
fn missing_request_type_is_unknown() {
    let mut store = Store::new();
    let reply = handle_connection(&mut store, br#"{"key": "a", "hash": "1"}"#);
    assert_eq!(reply.response, Response::UnknownRequest);
    let reply = handle_connection(&mut store, br#"{"request_type": 7}"#);
    assert_eq!(reply.response, Response::UnknownRequest);
    let reply = handle_connection(&mut store, b"[1, 2]");
    assert_eq!(reply.response, Response::UnknownRequest);
    assert_eq!(get_storage_size(&store), 0);
}

#[test]
fn load_miss_on_empty_store() {
    let mut store = Store::new();
    let reply = handle_connection(&mut store, br#"{"request_type": "load", "key": "absent_key"}"#);
    assert_eq!(reply.response, Response::KeyNotFound);
    assert_eq!(as_json(&reply.response), object(&[("response_status", "key not found")]));
    assert_eq!(reply.write, None);
}

#[test]
fn malformed_json_is_reported() {
    let mut store = Store::new();
    handle_connection(&mut store, br#"{"request_type": "store", "key": "a", "hash": "1"}"#);
    let input = br#"{"request_type": "store""#;
    let reply = handle_connection(&mut store, input);
    let expected = serde_json::from_slice::<Value>(input).unwrap_err().to_string();
    assert_eq!(
        reply,
        Reply {
            response: Response::ParseFailed { error: expected.clone() },
            write: None,
            log: None
        }
    );
    assert_eq!(
        as_json(&reply.response),
        object(&[("response_status", "json parsing failed"), ("error", expected.as_str())])
    );
    assert_eq!(get_storage_size(&store), 1);
    assert_eq!(store.get("a"), Some("1".to_string()));
}

#[test]
fn respond_reports_the_parsers_message() {
    let mut store = Store::new();
    let reply = respond(&mut store, Err("no JSON".to_string()));
    assert_eq!(reply.response, Response::ParseFailed { error: "no JSON".to_string() });
    let reply = respond(&mut store, Ok(request(Some("load"), Some("a"), None)));
    assert_eq!(reply.response, Response::KeyNotFound);
}

#[test]
fn store_then_load_scenario() {
    let mut store = Store::new();
    let stored = handle_connection(
        &mut store,
        br#"{ "request_type": "store", "key": "some_key6", "hash": "0b672dd94fd3da6a8d404b66ee3f0c80" }"#,
    );
    assert_eq!(as_json(&stored.response), object(&[("response_status", "success")]));
    let loaded = handle_connection(&mut store, br#"{ "request_type": "load", "key": "some_key6" }"#);
    assert_eq!(
        as_json(&loaded.response),
        object(&[
            ("response_status", "success"),
            ("requested_key", "some_key6"),
            ("requested_hash", "0b672dd94fd3da6a8d404b66ee3f0c80"),
        ])
    );
}

#[test]
fn store_without_hash_is_a_bad_request() {
    let mut store = Store::new();
    let reply = handle_connection(&mut store, br#"{"request_type": "store", "key": "a"}"#);
    assert_eq!(reply, Reply { response: Response::BadRequest, write: None, log: None });
    let reply = handle_connection(&mut store, br#"{"request_type": "store", "key": "a", "hash": 5}"#);
    assert_eq!(reply.response, Response::BadRequest);
    let reply = handle_connection(&mut store, br#"{"request_type": "load"}"#);
    assert_eq!(reply.response, Response::BadRequest);
    assert_eq!(as_json(&reply.response), object(&[("response_status", "bad request")]));
    assert_eq!(get_storage_size(&store), 0);
}

#[test]
fn response_fields_are_exact() {
    let field = |name: &str, value: &str| Field { name: name.to_string(), value: value.to_string() };
    assert_eq!(Response::Success.fields(), vec![field("response_status", "success")]);
    assert_eq!(
        Response::Found { key: "k".to_string(), hash: "h".to_string() }.fields(),
        vec![
            field("response_status", "success"),
            field("requested_key", "k"),
            field("requested_hash", "h"),
        ]
    );
    assert_eq!(Response::KeyNotFound.fields(), vec![field("response_status", "key not found")]);
    assert_eq!(Response::UnknownRequest.fields(), vec![field("response_status", "unknown request")]);
    assert_eq!(
        Response::ParseFailed { error: "e".to_string() }.fields(),
        vec![field("response_status", "json parsing failed"), field("error", "e")]
    );
    assert_eq!(Response::BadRequest.fields(), vec![field("response_status", "bad request")]);
    assert_eq!(Response::StorageFailure.fields(), vec![field("response_status", "internal error")]);
}

#[test]
fn rendered_response_is_pretty_printed() {
    let text = render_response(&Response::Success).unwrap();
    assert_eq!(String::from_utf8(text).unwrap(), "{\n  \"response_status\": \"success\"\n}");
}

#[test]
fn request_unit_ends_at_first_closing_brace() {
    assert_eq!(REQUEST_END, b'}');
    assert_eq!(request_unit_len(b""), None);
    assert_eq!(request_unit_len(b"{\"a\": 1"), None);
    assert_eq!(request_unit_len(b"}"), Some(1));
    assert_eq!(request_unit_len(b"{\"a\": 1}"), Some(8));
    assert_eq!(request_unit_len(b"{\"a\": 1} {\"b\": 2}"), Some(8));
    assert_eq!(request_unit_len(b"{\"a\": {\"b\": 2}}"), Some(14));
}

#[test]
fn read_path_answers_all_but_store() {
    let mut store = Store::new();
    handle_connection(&mut store, br#"{"request_type": "store", "key": "a", "hash": "1"}"#);
    assert_eq!(handle_read(&store, br#"{"request_type": "store", "key": "a", "hash": "2"}"#), None);
    assert_eq!(
        handle_read(&store, br#"{"request_type": "load", "key": "a"}"#),
        Some(Reply {
            response: Response::Found { key: "a".to_string(), hash: "1".to_string() },
            write: None,
            log: Some(LogEvent::Loaded { key: "a".to_string(), size: 1 }),
        })
    );
    assert_eq!(
        handle_read(&store, br#"{"request_type": "store", "key": "a"}"#),
        Some(Reply { response: Response::BadRequest, write: None, log: None })
    );
    assert_eq!(
        handle_read(&store, br#"{"request_type": "delete"}"#).map(|r| r.response),
        Some(Response::UnknownRequest)
    );
    assert!(matches!(
        handle_read(&store, b"{").map(|r| r.response),
        Some(Response::ParseFailed { .. })
    ));
    assert_eq!(answer_read(&store, &request(Some("store"), Some("a"), Some("2"))), None);
    assert_eq!(
        answer_read(&store, &request(Some("load"), Some("zz"), None)).map(|r| r.response),
        Some(Response::KeyNotFound)
    );
    assert_eq!(store.get("a"), Some("1".to_string()));
}

#[test]
fn log_messages_are_exact() {
    let stored = LogEvent::Stored { key: "k".to_string(), hash: "h".to_string(), size: 0 };
    assert_eq!(
        stored.message(),
        "Received request to write new value h by key k. Storage size: 0."
    );
    let loaded = LogEvent::Loaded { key: "some_key".to_string(), size: 12 };
    assert_eq!(
        loaded.message(),
        "Received request to get value by key some_key. Storage size: 12."
    );
    assert_eq!(connection_message(305), "Connection established. Storage size: 305.");
}

#[test]
fn decimal_text_of_numbers() {
    assert_eq!(decimal_string(0), "0");
    assert_eq!(decimal_string(7), "7");
    assert_eq!(decimal_string(10), "10");
    assert_eq!(decimal_string(1234567890), "1234567890");
    assert_eq!(decimal_string(usize::MAX), usize::MAX.to_string());
}
