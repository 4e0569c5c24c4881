//! The Incus API: its requests, and what its responses mean.
use crate::json::{json_document, parsed_json, tokens, Json, JsonView, Members};
use crate::text::{decimal, decimal_text, join2, join3, join4, same_text};
use vstd::prelude::*;

verus! {

/// The method of a request.
#[derive(Debug, Clone, Copy, PartialEq, Eq, Structural)]
pub enum Method {
    Get,
    Post,
    Put,
    Patch,
    Delete,
}

/// A request to the Incus API.
#[derive(Debug, PartialEq)]
pub struct ApiRequest {
    pub method: Method,
    pub path: String,
    pub body: Option<Json>,
}

/// What a request asks.
pub struct RequestView {
    pub method: Method,
    pub path: Seq<char>,
    pub body: Option<JsonView>,
}

/// What an optional body holds.
pub open spec fn body_view(body: Option<Json>) -> Option<JsonView> {
    match body {
        Some(json) => Some(json@),
        None => None,
    }
}

impl View for ApiRequest {
    type V = RequestView;

    open spec fn view(&self) -> RequestView {
        RequestView { method: self.method, path: self.path@, body: body_view(self.body) }
    }
}

/// A request without a body.
pub open spec fn plain_request(method: Method, path: Seq<char>) -> RequestView {
    RequestView { method, path, body: None }
}

/// A request with a body.
pub open spec fn body_request(method: Method, path: Seq<char>, body: JsonView) -> RequestView {
    RequestView { method, path, body: Some(body) }
}

/// A request as it goes over the wire.
#[derive(Debug, PartialEq)]
pub struct HttpRequest {
    pub method: Method,
    pub uri: String,
    pub headers: Vec<(String, String)>,
    pub body: Vec<u8>,
}

/// Why a request to the Incus API did not do what it was meant to.
#[derive(Debug, PartialEq)]
pub enum IncusError {
    /// The API could not be reached.
    Transport(String),
    /// A document could not be read or written.
    Json(String),
    /// The API refused the request.
    Api { status: u16, message: String },
    /// The operation that the request started failed.
    OperationFailed(String),
    /// The answer to the request for a console names no operation.
    NoConsoleOperation,
    /// The answer to the request for a console holds no secret.
    NoConsoleSecret,
    /// The server with this UUID has no running instance.
    NoRunningInstance(String),
}

/// What an error says.
pub enum ErrorView {
    Transport(Seq<char>),
    Json(Seq<char>),
    Api { status: u16, message: Seq<char> },
    OperationFailed(Seq<char>),
    NoConsoleOperation,
    NoConsoleSecret,
    NoRunningInstance(Seq<char>),
}

impl View for IncusError {
    type V = ErrorView;

    open spec fn view(&self) -> ErrorView {
        match *self {
            IncusError::Transport(message) => ErrorView::Transport(message@),
            IncusError::Json(message) => ErrorView::Json(message@),
            IncusError::Api { status, message } => ErrorView::Api { status, message: message@ },
            IncusError::OperationFailed(message) => ErrorView::OperationFailed(message@),
            IncusError::NoConsoleOperation => ErrorView::NoConsoleOperation,
            IncusError::NoConsoleSecret => ErrorView::NoConsoleSecret,
            IncusError::NoRunningInstance(uuid) => ErrorView::NoRunningInstance(uuid@),
        }
    }
}

/// How a request to the API came out.
pub open spec fn outcome_view(outcome: Result<Json, IncusError>) -> Result<JsonView, ErrorView> {
    match outcome {
        Ok(json) => Ok(json@),
        Err(error) => Err(error@),
    }
}

/// What `hyper::StatusCode` displays a status code as: the code and its canonical reason. It takes
/// no code outside the range that HTTP gives them.
pub uninterp spec fn status_line(status: u16) -> Option<Seq<char>>;

/// Displays a `hyper::StatusCode`, made by `from_u16`, by `to_string`. The text is determined by
/// the code alone, and there is one for each code from 100 to 999; the reasons are left unsaid.
#[verifier::external_body]
fn display_status(status: u16) -> (r: Option<String>)
    ensures
        match r {
            Some(line) => status_line(status) == Some(line@),
            None => status_line(status) is None,
        },
        r is Some <==> 100 <= status <= 999,
{
    match hyper::StatusCode::from_u16(status) {
        Ok(code) => Some(code.to_string()),
        Err(_) => None,
    }
}

/// The text of a status: its line, or the bare code where it has none.
pub open spec fn status_text(status: u16) -> Seq<char> {
    match status_line(status) {
        Some(line) => line,
        None => decimal_text(status as nat),
    }
}

/// The text of an error.
pub open spec fn error_text(error: ErrorView) -> Seq<char> {
    match error {
        ErrorView::Transport(message) => message,
        ErrorView::Json(message) => message,
        ErrorView::Api { status, message } => "incus API error "@ + status_text(status) + ": "@
            + message,
        ErrorView::OperationFailed(message) => "incus operation failed: "@ + message,
        ErrorView::NoConsoleOperation => "no operation in console response"@,
        ErrorView::NoConsoleSecret => "no console secret in operation metadata"@,
        ErrorView::NoRunningInstance(uuid) => "no running incus instance found for server "@ + uuid,
    }
}

impl IncusError {
    /// The text of the error.
    pub fn message(&self) -> (r: String)
        ensures
            r@ == error_text(self@),
    {
        match self {
            IncusError::Transport(message) => message.clone(),
            IncusError::Json(message) => message.clone(),
            IncusError::Api { status, message } => {
                let line: String = match display_status(*status) {
                    Some(line) => line,
                    None => decimal(*status as u64),
                };
                join4("incus API error ", line.as_str(), ": ", message.as_str())
            },
            IncusError::OperationFailed(message) => join2(
                "incus operation failed: ",
                message.as_str(),
            ),
            IncusError::NoConsoleOperation => "no operation in console response".to_string(),
            IncusError::NoConsoleSecret => "no console secret in operation metadata".to_string(),
            IncusError::NoRunningInstance(uuid) => join2(
                "no running incus instance found for server ",
                uuid.as_str(),
            ),
        }
    }
}

/// The headers of a request whose body has the given length.
pub open spec fn request_headers(length: nat) -> Seq<(Seq<char>, Seq<char>)> {
    seq![
        ("Host"@, "localhost"@),
        ("Content-Type"@, "application/json"@),
        ("Content-Length"@, decimal_text(length)),
    ]
}

/// The names and values of headers.
pub open spec fn header_views(headers: Seq<(String, String)>) -> Seq<(Seq<char>, Seq<char>)> {
    headers.map_values(|header: (String, String)| (header.0@, header.1@))
}

/// The document that an optional body is sent as.
pub open spec fn body_document(body: Option<JsonView>) -> Seq<u8> {
    match body {
        Some(json) => json_document(json),
        None => Seq::empty(),
    }
}

/// The wire form of a request whose body is the given document.
pub open spec fn is_wire_form(http: HttpRequest, request: RequestView, document: Seq<u8>) -> bool {
    &&& http.method == request.method
    &&& http.uri@ == "http://localhost"@ + request.path
    &&& header_views(http.headers@) == request_headers(document.len())
    &&& http.body@ == document
}

/// The wire form of a request, once its body has been written as a document.
pub fn wire_form(method: Method, path: &str, document: Vec<u8>) -> (r: HttpRequest)
    ensures
        is_wire_form(r, plain_request(method, path@), document@),
{
    let length = decimal(document.len() as u64);
    let headers: Vec<(String, String)> = vec![
        ("Host".to_string(), "localhost".to_string()),
        ("Content-Type".to_string(), "application/json".to_string()),
        ("Content-Length".to_string(), length),
    ];
    assert(header_views(headers@) =~= request_headers(document@.len()));
    HttpRequest { method, uri: join2("http://localhost", path), headers, body: document }
}

/// The message that a refusal carries.
pub open spec fn refusal_message(response: JsonView) -> Seq<char> {
    match response.member_text("error"@) {
        Some(message) => message,
        None => "unknown error"@,
    }
}

/// A status in the range that stands for success.
pub open spec fn is_success(status: u16) -> bool {
    200 <= status <= 299
}

/// What a response that has been read means: where its status is no success, the API refused the
/// request.
pub open spec fn checked_response(status: u16, response: JsonView) -> Result<JsonView, ErrorView> {
    if is_success(status) {
        Ok(response)
    } else {
        Err(ErrorView::Api { status, message: refusal_message(response) })
    }
}

/// Accepts a response that has been read, or refuses it for its status.
pub fn check_response(status: u16, response: Json) -> (r: Result<Json, IncusError>)
    ensures
        outcome_view(r) == checked_response(status, response@),
{
    if 200 <= status && status <= 299 {
        Ok(response)
    } else {
        let message: String = match response.get_str("error") {
            Some(message) => message.to_string(),
            None => "unknown error".to_string(),
        };
        Err(IncusError::Api { status, message })
    }
}

/// Reads a response. One that is no JSON document is an error whatever its status is.
pub fn read_response(status: u16, document: &[u8]) -> (r: Result<Json, IncusError>)
    ensures
        outcome_view(r) == match parsed_json(document@) {
            Ok(json) => checked_response(status, json),
            Err(text) => Err(ErrorView::Json(text)),
        },
{
    match Json::from_slice(document) {
        Ok(json) => check_response(status, json),
        Err(message) => Err(IncusError::Json(message)),
    }
}

/// The status that an operation ended with.
pub open spec fn operation_status(response: JsonView) -> Seq<char> {
    match response.text_at(seq!["metadata"@, "status"@]) {
        Some(status) => status,
        None => "Unknown"@,
    }
}

/// Why an operation failed.
pub open spec fn operation_error(response: JsonView) -> Seq<char> {
    match response.text_at(seq!["metadata"@, "err"@]) {
        Some(message) => message,
        None => "operation failed"@,
    }
}

/// The operation that a response tells to wait for.
pub open spec fn awaited_operation(response: JsonView) -> Option<Seq<char>> {
    if response.member_text("type"@) == Some("async"@) {
        response.member_text("operation"@)
    } else {
        None
    }
}

/// The path of the request that waits for an operation.
pub open spec fn wait_path(operation: Seq<char>) -> Seq<char> {
    operation + "/wait"@
}

/// The address of an instance in the API.
pub open spec fn instance_path(name: Seq<char>) -> Seq<char> {
    "/1.0/instances/"@ + name
}

/// What a request for a console asks for.
pub open spec fn console_body() -> JsonView {
    JsonView::Object(
        Map::empty().insert("width"@, JsonView::Unsigned(220)).insert(
            "height"@,
            JsonView::Unsigned(50),
        ).insert("type"@, JsonView::Text("console"@)),
    )
}

/// The connection to the Incus API.
pub struct IncusClient {
    pub socket_path: String,
}

impl IncusClient {
    /// The API that is served on the given Unix socket.
    pub fn new(socket_path: &str) -> (r: Self)
        ensures
            r.socket_path@ == socket_path@,
    {
        IncusClient { socket_path: socket_path.to_string() }
    }

    /// The wire form of a request. There is one for every request.
    pub fn request(&self, method: Method, path: &str, body: Option<Json>) -> (r: Result<
        HttpRequest,
        IncusError,
    >)
        ensures
            r matches Ok(http) && is_wire_form(
                http,
                RequestView { method, path: path@, body: body_view(body) },
                body_document(body_view(body)),
            ),
    {
        let document: Vec<u8> = match body {
            Some(json) => match json.to_vec() {
                Ok(document) => document,
                Err(message) => {
                    return Err(IncusError::Json(message));
                },
            },
            None => Vec::new(),
        };
        Ok(wire_form(method, path, document))
    }

    /// A request to read.
    pub fn get(&self, path: &str) -> (r: ApiRequest)
        ensures
            r@ == plain_request(Method::Get, path@),
    {
        ApiRequest { method: Method::Get, path: path.to_string(), body: None }
    }

    /// A request to create or to run.
    pub fn post(&self, path: &str, body: Json) -> (r: ApiRequest)
        ensures
            r@ == body_request(Method::Post, path@, body@),
    {
        ApiRequest { method: Method::Post, path: path.to_string(), body: Some(body) }
    }

    /// A request to replace.
    pub fn put(&self, path: &str, body: Json) -> (r: ApiRequest)
        ensures
            r@ == body_request(Method::Put, path@, body@),
    {
        ApiRequest { method: Method::Put, path: path.to_string(), body: Some(body) }
    }

    /// A request to change in part.
    pub fn patch(&self, path: &str, body: Json) -> (r: ApiRequest)
        ensures
            r@ == body_request(Method::Patch, path@, body@),
    {
        ApiRequest { method: Method::Patch, path: path.to_string(), body: Some(body) }
    }

    /// A request to remove.
    pub fn delete(&self, path: &str) -> (r: ApiRequest)
        ensures
            r@ == plain_request(Method::Delete, path@),
    {
        ApiRequest { method: Method::Delete, path: path.to_string(), body: None }
    }

    /// The request that is answered when an operation has finished.
    pub fn wait_for_operation(&self, operation: &str) -> (r: ApiRequest)
        ensures
            r@ == plain_request(Method::Get, wait_path(operation@)),
    {
        self.get(join2(operation, "/wait").as_str())
    }

    /// The request that is left to be made after a response: where the response is of the kind
    /// `async` and names an operation, to wait for it.
    pub fn ensure_done(&self, response: &Json) -> (r: Option<ApiRequest>)
        ensures
            match awaited_operation(response@) {
                Some(operation) => r matches Some(request) && request@ == plain_request(
                    Method::Get,
                    wait_path(operation),
                ),
                None => r is None,
            },
    {
        proof {
            reveal_strlit("sync");
            reveal_strlit("async");
            assert("sync"@.len() != "async"@.len());
        }
        let kind: &str = match response.get_str("type") {
            Some(kind) => kind,
            None => "sync",
        };
        if same_text(kind, "async") {
            match response.get_str("operation") {
                Some(operation) => Some(self.wait_for_operation(operation)),
                None => None,
            }
        } else {
            None
        }
    }

    /// The request for a console of an instance.
    pub fn console_websocket(&self, instance_name: &str) -> (r: ApiRequest)
        ensures
            r@ == body_request(
                Method::Post,
                instance_path(instance_name@) + "/console"@,
                console_body(),
            ),
    {
        let members = Members::new().with("width", Json::Unsigned(220)).with(
            "height",
            Json::Unsigned(50),
        ).with_text("type", "console");
        self.post(
            join3("/1.0/instances/", instance_name, "/console").as_str(),
            Json::Object(members),
        )
    }
}

/// What the answer to a request that waited for an operation means.
pub open spec fn finished_operation(response: JsonView) -> Result<JsonView, ErrorView> {
    if operation_status(response) == "Failure"@ {
        Err(ErrorView::OperationFailed(operation_error(response)))
    } else {
        Ok(response)
    }
}

/// Accepts the answer to a request that waited for an operation, or refuses it where the operation
/// failed.
pub fn operation_outcome(response: Json) -> (r: Result<Json, IncusError>)
    ensures
        outcome_view(r) == finished_operation(response@),
{
    let path: [&str; 2] = ["metadata", "status"];
    assert(tokens(path@) =~= seq!["metadata"@, "status"@]);
    let status: &str = match response.str_at(&path) {
        Some(status) => status,
        None => "Unknown",
    };
    if same_text(status, "Failure") {
        let path: [&str; 2] = ["metadata", "err"];
        assert(tokens(path@) =~= seq!["metadata"@, "err"@]);
        let message: &str = match response.str_at(&path) {
            Some(message) => message,
            None => "operation failed",
        };
        return Err(IncusError::OperationFailed(message.to_string()));
    }
    Ok(response)
}

/// The secret that opens a console.
pub open spec fn console_secret(response: JsonView) -> Option<Seq<char>> {
    response.text_at(seq!["metadata"@, "metadata"@, "fds"@, "0"@])
}

/// The address of the console that a response offers, or what the response lacks.
pub fn console_endpoint(response: &Json) -> (r: Result<String, IncusError>)
    ensures
        match (response@.text_at(seq!["operation"@]), console_secret(response@)) {
            (None, _) => r matches Err(error) && error@ == ErrorView::NoConsoleOperation,
            (Some(_), None) => r matches Err(error) && error@ == ErrorView::NoConsoleSecret,
            (Some(operation), Some(secret)) => r matches Ok(url) && url@ == "ws://localhost"@
                + operation + "/websocket?secret="@ + secret,
        },
{
    let path: [&str; 1] = ["operation"];
    assert(tokens(path@) =~= seq!["operation"@]);
    let operation: &str = match response.str_at(&path) {
        Some(operation) => operation,
        None => {
            return Err(IncusError::NoConsoleOperation);
        },
    };
    let path: [&str; 4] = ["metadata", "metadata", "fds", "0"];
    assert(tokens(path@) =~= seq!["metadata"@, "metadata"@, "fds"@, "0"@]);
    let secret: &str = match response.str_at(&path) {
        Some(secret) => secret,
        None => {
            return Err(IncusError::NoConsoleSecret);
        },
    };
    Ok(join4("ws://localhost", operation, "/websocket?secret=", secret))
}

} // verus!
