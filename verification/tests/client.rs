use incus_executor::client::{
    check_response, console_endpoint, operation_outcome, read_response, wire_form, ApiRequest,
    IncusClient, IncusError, Method,
};
use incus_executor::json::{Json, Members};
use serde_json::Value;

fn read(text: &str) -> Json {
    Json::from_slice(text.as_bytes()).unwrap()
}

fn value(text: &str) -> Value {
    serde_json::from_str(text).unwrap()
}

fn body(request: ApiRequest) -> Value {
    serde_json::from_slice(&request.body.unwrap().to_vec().unwrap()).unwrap()
}

#[test]
fn requests_on_the_wire() {
    let client = IncusClient::new("/run/incus.sock");
    assert_eq!(client.socket_path, "/run/incus.sock");
    let json = Json::Object(Members::new().with_text("action", "start"));
    let http = client.request(Method::Put, "/1.0/instances/w-1/state", Some(json)).unwrap();
    assert_eq!(http.method, Method::Put);
    assert_eq!(http.uri, "http://localhost/1.0/instances/w-1/state");
    assert_eq!(http.body, br#"{"action":"start"}"#.to_vec());
    let expected: Vec<(String, String)> = [
        ("Host", "localhost"),
        ("Content-Type", "application/json"),
        ("Content-Length", "18"),
    ]
    .iter()
    .map(|(name, text)| (name.to_string(), text.to_string()))
    .collect();
    assert_eq!(http.headers, expected);
    let http = client.request(Method::Get, "/1.0", None).unwrap();
    assert_eq!(http.body, Vec::<u8>::new());
    assert_eq!(http.headers[2].1, "0");
    assert_eq!(wire_form(Method::Get, "/1.0", Vec::new()), http);
}

#[test]
fn methods_of_requests() {
    let client = IncusClient::new("s");
    let request = client.get("/a");
    assert_eq!((request.method, request.path.as_str()), (Method::Get, "/a"));
    assert_eq!(request.body, None);
    let request = client.delete("/a");
    assert_eq!((request.method, request.path.as_str()), (Method::Delete, "/a"));
    assert_eq!(request.body, None);
    for (request, method) in [
        (client.post("/b", Json::Unsigned(1)), Method::Post),
        (client.put("/b", Json::Unsigned(1)), Method::Put),
        (client.patch("/b", Json::Unsigned(1)), Method::Patch),
    ] {
        assert_eq!((request.method, request.path.as_str()), (method, "/b"));
        assert_eq!(request.body, Some(Json::Unsigned(1)));
    }
}

#[test]
fn responses_are_read() {
    assert_eq!(read_response(200, b"{\"a\": 1}").unwrap().u64_at(&["a"]), Some(1));
    assert_eq!(read_response(202, b"{}").unwrap(), read("{}"));
    assert_eq!(read_response(299, b"[]").unwrap(), read("[]"));
    let error = read_response(404, br#"{"error": "not found"}"#).unwrap_err();
    assert_eq!(error, IncusError::Api { status: 404, message: "not found".to_string() });
    assert_eq!(error.message(), "incus API error 404 Not Found: not found");
    let error = read_response(300, br#"{"error": 5}"#).unwrap_err();
    assert_eq!(error.message(), "incus API error 300 Multiple Choices: unknown error");
    assert_eq!(
        check_response(199, Json::Null).unwrap_err().message(),
        "incus API error 199 <unknown status code>: unknown error"
    );
    assert_eq!(check_response(1000, Json::Null).unwrap_err().message(),
        "incus API error 1000: unknown error");
    assert_eq!(check_response(99, Json::Null).unwrap_err().message(),
        "incus API error 99: unknown error");
}

#[test]
fn a_response_that_is_no_document_is_an_error_first() {
    for status in [200, 500] {
        let error = read_response(status, b"oops").unwrap_err();
        let text = serde_json::from_slice::<Value>(b"oops").unwrap_err().to_string();
        assert_eq!(error, IncusError::Json(text.clone()));
        assert_eq!(error.message(), text);
    }
}

#[test]
fn operations_are_waited_for() {
    let client = IncusClient::new("s");
    let response = read(r#"{"type": "async", "operation": "/1.0/operations/7"}"#);
    assert_eq!(client.ensure_done(&response), Some(client.get("/1.0/operations/7/wait")));
    for text in [
        r#"{"type": "sync", "operation": "/1.0/operations/7"}"#,
        r#"{"operation": "/1.0/operations/7"}"#,
        r#"{"type": "async"}"#,
        r#"{"type": "async", "operation": 7}"#,
        r#"{"type": 1, "operation": "x"}"#,
        "[]",
    ] {
        assert_eq!(client.ensure_done(&read(text)), None);
    }
}

#[test]
fn operations_may_fail() {
    let error =
        operation_outcome(read(r#"{"metadata": {"status": "Failure", "err": "boom"}}"#)).unwrap_err();
    assert_eq!(error, IncusError::OperationFailed("boom".to_string()));
    assert_eq!(error.message(), "incus operation failed: boom");
    let error = operation_outcome(read(r#"{"metadata": {"status": "Failure"}}"#)).unwrap_err();
    assert_eq!(error.message(), "incus operation failed: operation failed");
    for text in [r#"{"metadata": {"status": "Success", "err": "x"}}"#, "{}", "null"] {
        assert_eq!(operation_outcome(read(text)), Ok(read(text)));
    }
}

#[test]
fn consoles_are_asked_for() {
    let client = IncusClient::new("s");
    let request = client.console_websocket("w-1");
    assert_eq!(request.method, Method::Post);
    assert_eq!(request.path, "/1.0/instances/w-1/console");
    assert_eq!(body(request), value(r#"{"width": 220, "height": 50, "type": "console"}"#));
}

#[test]
fn consoles_have_an_address() {
    let response = read(
        r#"{"operation": "/1.0/operations/7", "metadata": {"metadata": {"fds": {"0": "abc"}}}}"#,
    );
    assert_eq!(
        console_endpoint(&response),
        Ok("ws://localhost/1.0/operations/7/websocket?secret=abc".to_string())
    );
    let error = console_endpoint(&read(r#"{"metadata": {"metadata": {"fds": {"0": "abc"}}}}"#))
        .unwrap_err();
    assert_eq!(error, IncusError::NoConsoleOperation);
    assert_eq!(error.message(), "no operation in console response");
    let error = console_endpoint(&read(r#"{"operation": "x"}"#)).unwrap_err();
    assert_eq!(error, IncusError::NoConsoleSecret);
    assert_eq!(error.message(), "no console secret in operation metadata");
}

#[test]
fn errors_have_texts() {
    assert_eq!(IncusError::Transport("refused".to_string()).message(), "refused");
    assert_eq!(
        IncusError::NoRunningInstance("0-1".to_string()).message(),
        "no running incus instance found for server 0-1"
    );
}
