//! What requests ask for, and what answers to them mean.
use crate::client::{
    awaited_operation, body_document, body_request, body_view, checked_response, console_body,
    console_secret, error_text, finished_operation, instance_path, is_wire_form, outcome_view,
    plain_request, status_line, status_text, wait_path, ApiRequest, ErrorView, HttpRequest,
    IncusError, Method, RequestView,
};
use crate::config::{text_members, ServerConfigurationBuild};
use crate::instance::resource_config;
use crate::json::{json_document, Json, JsonView};
use crate::process::{
    optional_text, signal_name, stop_of, sync_request, Stop, StopView,
};
use crate::requests::{
    create_request, delete_request, force_stop_request, script_request, signal_request,
    start_request, stop_request,
};
use crate::text::{decimal_text, upper_text};
use crate::workflow::{accept, attempt, complete, step_views, Handling, Step, StepView};
use vstd::prelude::*;
use vstd::utf8::encode_utf8;

verus! {

/// A request goes over the wire to its own path, by its own method, with all of its body, whose
/// length it announces.
pub proof fn law_requests_go_over_the_wire_whole(
    http: HttpRequest,
    request: RequestView,
    document: Seq<u8>,
)
    requires
        is_wire_form(http, request, document),
    ensures
        http.method == request.method,
        http.uri@ == "http://localhost"@ + request.path,
        http.body@ == document,
        http.headers@.len() == 3,
        http.headers@[0].0@ == "Host"@ && http.headers@[0].1@ == "localhost"@,
        http.headers@[1].0@ == "Content-Type"@ && http.headers@[1].1@ == "application/json"@,
        http.headers@[2].0@ == "Content-Length"@,
        http.headers@[2].1@ == decimal_text(http.body@.len()),
{
    let views = crate::client::header_views(http.headers@);
    assert(views.len() == http.headers@.len());
    assert(views[0] == (http.headers@[0].0@, http.headers@[0].1@));
    assert(views[1] == (http.headers@[1].0@, http.headers@[1].1@));
    assert(views[2] == (http.headers@[2].0@, http.headers@[2].1@));
}

/// A body is sent as its document, and no body as no bytes; a request asks what its parts say.
pub proof fn law_requests_are_their_parts(
    method: Method,
    path: Seq<char>,
    body: JsonView,
    request: ApiRequest,
)
    ensures
        body_document(None) == Seq::<u8>::empty(),
        body_document(Some(body)) == json_document(body),
        plain_request(method, path) == (RequestView { method, path, body: None }),
        body_request(method, path, body) == (RequestView { method, path, body: Some(body) }),
        request@.method == request.method,
        request@.path == request.path@,
        request@.body is Some <==> request.body is Some,
        request.body matches Some(json) ==> request@.body == Some(json@) && body_view(request.body)
            == Some(json@),
{
}

/// An answer is accepted exactly where its status stands for success, and then as a whole. A refusal
/// carries the status, and the text that the answer gives as its error.
pub proof fn law_refused_requests_say_why(status: u16, response: JsonView)
    ensures
        200 <= status < 300 ==> checked_response(status, response) == Ok::<JsonView, ErrorView>(
            response,
        ),
        !(200 <= status < 300) ==> checked_response(status, response) == Err::<
            JsonView,
            ErrorView,
        >(
            ErrorView::Api {
                status,
                message: match response.member("error"@) {
                    Some(JsonView::Text(text)) => text,
                    _ => "unknown error"@,
                },
            },
        ),
{
}

/// An operation has failed exactly where its status says so, and then for the reason that it gives.
pub proof fn law_failed_operations_say_why(response: JsonView)
    ensures
        response.at(seq!["metadata"@, "status"@]) == Some(JsonView::Text("Failure"@))
            ==> finished_operation(response) == Err::<JsonView, ErrorView>(
            ErrorView::OperationFailed(
                match response.at(seq!["metadata"@, "err"@]) {
                    Some(JsonView::Text(text)) => text,
                    _ => "operation failed"@,
                },
            ),
        ),
        response.at(seq!["metadata"@, "status"@]) != Some(JsonView::Text("Failure"@))
            ==> finished_operation(response) == Ok::<JsonView, ErrorView>(response),
{
    reveal_strlit("Failure");
    reveal_strlit("Unknown");
    assert("Failure"@[0] != "Unknown"@[0]);
}

/// An operation is waited for exactly where the answer is of the kind `async` and names it, and it is
/// waited for under its own name.
pub proof fn law_started_operations_are_waited_for(response: JsonView, operation: Seq<char>)
    ensures
        awaited_operation(response) == Some(operation) <==> response.member("type"@) == Some(
            JsonView::Text("async"@),
        ) && response.member("operation"@) == Some(JsonView::Text(operation)),
        wait_path(operation) == operation + "/wait"@,
{
}

/// A console is asked for with its size and its kind, and opened by the secret that the answer holds
/// for it.
pub proof fn law_consoles_are_opened_by_their_secret(response: JsonView, name: Seq<char>)
    ensures
        console_body() == JsonView::Object(
            map![
                "width"@ => JsonView::Unsigned(220),
                "height"@ => JsonView::Unsigned(50),
                "type"@ => JsonView::Text("console"@),
            ],
        ),
        console_secret(response) == match response.at(
            seq!["metadata"@, "metadata"@, "fds"@, "0"@],
        ) {
            Some(JsonView::Text(text)) => Some(text),
            _ => None,
        },
        instance_path(name) == "/1.0/instances/"@ + name,
{
}

/// The text of each error says what it is about, and holds all of the message that it carries.
pub proof fn law_errors_say_what_happened(status: u16, message: Seq<char>)
    ensures
        error_text(ErrorView::Transport(message)) == message,
        error_text(ErrorView::Json(message)) == message,
        error_text(ErrorView::Api { status, message }) == "incus API error "@ + status_text(status)
            + ": "@ + message,
        error_text(ErrorView::OperationFailed(message)) == "incus operation failed: "@ + message,
        error_text(ErrorView::NoConsoleOperation) == "no operation in console response"@,
        error_text(ErrorView::NoConsoleSecret) == "no console secret in operation metadata"@,
        error_text(ErrorView::NoRunningInstance(message))
            == "no running incus instance found for server "@ + message,
        status_line(status) matches Some(line) ==> status_text(status) == line,
        status_line(status) is None ==> status_text(status) == decimal_text(status as nat),
{
}

/// What is said of an outcome and of an error is what it holds.
pub proof fn law_outcomes_are_what_they_hold(json: Json, error: IncusError)
    ensures
        outcome_view(Ok(json)) == Ok::<JsonView, ErrorView>(json@),
        outcome_view(Err(error)) == Err::<JsonView, ErrorView>(error@),
        match error {
            IncusError::Transport(message) => error@ == ErrorView::Transport(message@),
            IncusError::Json(message) => error@ == ErrorView::Json(message@),
            IncusError::Api { status, message } => error@ == (ErrorView::Api {
                status,
                message: message@,
            }),
            IncusError::OperationFailed(message) => error@ == ErrorView::OperationFailed(message@),
            IncusError::NoConsoleOperation => error@ == ErrorView::NoConsoleOperation,
            IncusError::NoConsoleSecret => error@ == ErrorView::NoConsoleSecret,
            IncusError::NoRunningInstance(uuid) => error@ == ErrorView::NoRunningInstance(uuid@),
        },
{
}

/// Each request on an instance goes to that instance, and says the same for every instance.
pub proof fn law_instance_requests(name: Seq<char>, body: JsonView)
    ensures
        create_request(body) == (RequestView {
            method: Method::Post,
            path: "/1.0/instances"@,
            body: Some(body),
        }),
        delete_request(name) == (RequestView {
            method: Method::Delete,
            path: "/1.0/instances/"@ + name,
            body: None,
        }),
        start_request(name) == (RequestView {
            method: Method::Put,
            path: "/1.0/instances/"@ + name + "/state"@,
            body: Some(JsonView::Object(map!["action"@ => JsonView::Text("start"@)])),
        }),
        stop_request(name) == (RequestView {
            method: Method::Put,
            path: "/1.0/instances/"@ + name + "/state"@,
            body: Some(
                JsonView::Object(
                    map![
                        "action"@ => JsonView::Text("stop"@),
                        "timeout"@ => JsonView::Unsigned(30),
                    ],
                ),
            ),
        }),
        force_stop_request(name) == (RequestView {
            method: Method::Put,
            path: "/1.0/instances/"@ + name + "/state"@,
            body: Some(
                JsonView::Object(
                    map![
                        "action"@ => JsonView::Text("stop"@),
                        "force"@ => JsonView::Bool(true),
                    ],
                ),
            ),
        }),
{
}

/// A command is run in its instance with all of its words: a signal is sent to the first process, and
/// a script is run by its entrypoint, with its output kept.
pub proof fn law_commands_are_run_whole(
    name: Seq<char>,
    signal: Seq<char>,
    entrypoint: Seq<char>,
    script: Seq<char>,
)
    ensures
        signal_request(name, signal) == (RequestView {
            method: Method::Post,
            path: "/1.0/instances/"@ + name + "/exec"@,
            body: Some(
                JsonView::Object(
                    map![
                        "command"@ => JsonView::Array(
                            seq![
                                JsonView::Text("kill"@),
                                JsonView::Text("-"@ + signal),
                                JsonView::Text("1"@),
                            ],
                        ),
                        "wait-for-websocket"@ => JsonView::Bool(false),
                        "interactive"@ => JsonView::Bool(false),
                    ],
                ),
            ),
        }),
        script_request(name, entrypoint, script) == (RequestView {
            method: Method::Post,
            path: "/1.0/instances/"@ + name + "/exec"@,
            body: Some(
                JsonView::Object(
                    map![
                        "command"@ => JsonView::Array(
                            seq![JsonView::Text(entrypoint), JsonView::Text(script)],
                        ),
                        "wait-for-websocket"@ => JsonView::Bool(false),
                        "interactive"@ => JsonView::Bool(true),
                        "record-output"@ => JsonView::Bool(true),
                    ],
                ),
            ),
        }),
{
    assert(seq!["kill"@, "-"@ + signal, "1"@].map_values(|word: Seq<char>| JsonView::Text(word))
        =~= seq![JsonView::Text("kill"@), JsonView::Text("-"@ + signal), JsonView::Text("1"@)]);
    assert(seq![entrypoint, script].map_values(|word: Seq<char>| JsonView::Text(word)) =~= seq![
        JsonView::Text(entrypoint),
        JsonView::Text(script),
    ]);
}

/// Each of four signals is sent where it is named, `C` names the first of them, and everything else
/// is a `SIGKILL`.
pub proof fn law_signals_are_those_named(text: Option<Seq<char>>)
    ensures
        signal_name(text) == "SIGINT"@ <==> text == Some("SIGINT"@) || text == Some("C"@),
        signal_name(text) == "SIGTERM"@ <==> text == Some("SIGTERM"@),
        signal_name(text) == "SIGQUIT"@ <==> text == Some("SIGQUIT"@),
        signal_name(text) == "SIGABRT"@ <==> text == Some("SIGABRT"@),
        text != Some("SIGINT"@) && text != Some("C"@) && text != Some("SIGTERM"@) && text != Some(
            "SIGQUIT"@,
        ) && text != Some("SIGABRT"@) ==> signal_name(text) == "SIGKILL"@,
{
    reveal_strlit("SIGINT");
    reveal_strlit("C");
    reveal_strlit("SIGTERM");
    reveal_strlit("SIGQUIT");
    reveal_strlit("SIGABRT");
    reveal_strlit("SIGKILL");
    assert("SIGINT"@.len() == 6);
    assert("C"@.len() == 1);
    assert("SIGTERM"@[3] == 'T' && "SIGTERM"@.len() == 7);
    assert("SIGQUIT"@[3] == 'Q' && "SIGQUIT"@.len() == 7);
    assert("SIGABRT"@[3] == 'A' && "SIGABRT"@.len() == 7);
    assert("SIGKILL"@[3] == 'K' && "SIGKILL"@.len() == 7);
}

/// A process is stopped by its whole command and a newline, by the signal that is named, or by the
/// API, and its kind alone decides which.
pub proof fn law_processes_are_stopped_as_configured(
    name: Seq<char>,
    kind: Seq<char>,
    value: Option<Seq<char>>,
)
    ensures
        kind == "command"@ ==> stop_of(name, kind, value) == StopView::Stdin(
            match value {
                Some(text) => encode_utf8(text) + seq![10u8],
                None => seq![10u8],
            },
        ),
        kind == "signal"@ ==> stop_of(name, kind, value) == StopView::Requests(
            seq![
                StepView {
                    request: signal_request(
                        name,
                        signal_name(
                            match value {
                                Some(text) => Some(upper_text(text)),
                                None => None,
                            },
                        ),
                    ),
                    handling: Handling::Complete,
                },
            ],
        ),
        kind != "command"@ && kind != "signal"@ ==> stop_of(name, kind, value)
            == StopView::Requests(
            seq![StepView { request: stop_request(name), handling: Handling::Complete }],
        ),
{
    reveal_strlit("command");
    reveal_strlit("signal");
    assert("command"@.len() != "signal"@.len());
    match value {
        Some(text) => {
            assert(encode_utf8(text) + seq![10u8] =~= encode_utf8(text).push(10u8));
        },
        None => {},
    }
}

/// What an instance may use is changed to the whole of what its server's configuration allows.
pub proof fn law_configurations_are_synchronized_whole(
    name: Seq<char>,
    build: ServerConfigurationBuild,
    memory_bytes: u64,
    pid_limit: u64,
)
    ensures
        sync_request(name, build, memory_bytes, pid_limit) == (RequestView {
            method: Method::Patch,
            path: "/1.0/instances/"@ + name,
            body: Some(
                JsonView::Object(
                    map![
                        "config"@ => JsonView::Object(
                            text_members(resource_config(build, memory_bytes, pid_limit)),
                        ),
                    ],
                ),
            ),
        }),
{
}

/// A step is its request and what becomes of the answer, and a list of steps is its steps.
pub proof fn law_steps_are_their_requests(
    request: RequestView,
    steps: Seq<Step>,
    i: int,
    stop: Stop,
    text: Option<&str>,
)
    requires
        0 <= i < steps.len(),
    ensures
        complete(request) == (StepView { request, handling: Handling::Complete }),
        accept(request) == (StepView { request, handling: Handling::Accept }),
        attempt(request) == (StepView { request, handling: Handling::Attempt }),
        step_views(steps).len() == steps.len(),
        step_views(steps)[i].request == steps[i].request@,
        step_views(steps)[i].handling == steps[i].handling,
        stop matches Stop::Stdin(bytes) ==> stop@ == StopView::Stdin(bytes@),
        stop matches Stop::Requests(taken) ==> stop@ == StopView::Requests(step_views(taken@)),
        text matches Some(s) ==> optional_text(text) == Some(s@),
        text is None ==> optional_text(text) is None,
{
}

} // verus!
