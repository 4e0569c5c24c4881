use incus_executor::client::{IncusClient, Method};
use incus_executor::config::ServerConfigurationBuild;
use incus_executor::process::{signal_of, IncusProcessHandle, Stop};
use incus_executor::workflow::{Handling, Step};
use serde_json::Value;

fn handle() -> IncusProcessHandle {
    IncusProcessHandle { instance_name: "w-1".to_string() }
}

fn client() -> IncusClient {
    IncusClient::new("s")
}

/// The only step of a list: its method, path, body and handling.
fn only(steps: Vec<Step>) -> (Method, String, Value, Handling) {
    assert_eq!(steps.len(), 1);
    let step = steps.into_iter().next().unwrap();
    let body = step.request.body.unwrap().to_vec().unwrap();
    let value = serde_json::from_slice(&body).unwrap();
    (step.request.method, step.request.path, value, step.handling)
}

fn expected(
    method: Method,
    path: &str,
    body: &str,
    handling: Handling,
) -> (Method, String, Value, Handling) {
    (method, path.to_string(), serde_json::from_str(body).unwrap(), handling)
}

#[test]
fn processes_are_started_and_killed() {
    assert_eq!(
        only(handle().start(&client())),
        expected(
            Method::Put,
            "/1.0/instances/w-1/state",
            r#"{"action": "start"}"#,
            Handling::Complete
        )
    );
    assert_eq!(
        only(handle().kill(&client())),
        expected(
            Method::Put,
            "/1.0/instances/w-1/state",
            r#"{"action": "stop", "force": true}"#,
            Handling::Complete
        )
    );
}

#[test]
fn configurations_are_synchronized() {
    let build = ServerConfigurationBuild {
        memory_limit: 10,
        overhead_memory: 0,
        cpu_limit: 50,
        threads: None,
    };
    assert_eq!(
        only(handle().sync_configuration(&client(), &build, 123, 4)),
        expected(
            Method::Patch,
            "/1.0/instances/w-1",
            r#"{"config": {
                "limits.memory": "123B", "limits.cpu.allowance": "50%", "limits.processes": "4"
            }}"#,
            Handling::Accept
        )
    );
}

#[test]
fn stop_by_command() {
    for (value, bytes) in [
        (Some("stop"), b"stop\n".to_vec()),
        (Some("\u{e9}"), vec![0xc3, 0xa9, 10]),
        (Some(""), b"\n".to_vec()),
        (None, b"\n".to_vec()),
    ] {
        assert_eq!(handle().stop(&client(), "command", value), Stop::Stdin(bytes));
    }
}

fn signalled(signal: &str) -> (Method, String, Value, Handling) {
    expected(
        Method::Post,
        "/1.0/instances/w-1/exec",
        &format!(
            r#"{{"command": ["kill", "-{}", "1"], "wait-for-websocket": false, "interactive": false}}"#,
            signal
        ),
        Handling::Complete,
    )
}

#[test]
fn stop_by_signal() {
    for (value, signal) in [
        (Some("SIGINT"), "SIGINT"),
        (Some("sigint"), "SIGINT"),
        (Some("c"), "SIGINT"),
        (Some("C"), "SIGINT"),
        (Some("SigTerm"), "SIGTERM"),
        (Some("sigquit"), "SIGQUIT"),
        (Some("sigabrt"), "SIGABRT"),
        (Some("SIGHUP"), "SIGKILL"),
        (Some(" SIGINT"), "SIGKILL"),
        (Some(""), "SIGKILL"),
        (None, "SIGKILL"),
    ] {
        match handle().stop(&client(), "signal", value) {
            Stop::Requests(steps) => assert_eq!(only(steps), signalled(signal)),
            Stop::Stdin(_) => panic!("a signal is no command"),
        }
    }
    assert_eq!(only(handle().stop_by_signal(&client(), Some("SIGTERM"))), signalled("SIGTERM"));
    assert_eq!(signal_of(Some("sigterm")), "SIGKILL");
    assert_eq!(signal_of(Some("C")), "SIGINT");
}

#[test]
fn signals_ignore_case() {
    for (lower, mixed) in [("sigterm", "SigTerm"), ("c", "C"), ("sighup", "sigHUP")] {
        assert_eq!(
            handle().stop(&client(), "signal", Some(lower)),
            handle().stop(&client(), "signal", Some(mixed))
        );
    }
    for signal in ["sigint", "sigterm", "sigquit", "sigabrt", "sigkill"] {
        match handle().stop(&client(), "signal", Some(signal)) {
            Stop::Requests(steps) => {
                assert_eq!(only(steps), signalled(&signal.to_ascii_uppercase()))
            }
            Stop::Stdin(_) => panic!("a signal is no command"),
        }
    }
}

#[test]
fn stop_by_the_api() {
    for kind in ["stop", "", "Command", "native"] {
        match handle().stop(&client(), kind, Some("x")) {
            Stop::Requests(steps) => assert_eq!(
                only(steps),
                expected(
                    Method::Put,
                    "/1.0/instances/w-1/state",
                    r#"{"action": "stop", "timeout": 30}"#,
                    Handling::Complete
                )
            ),
            Stop::Stdin(_) => panic!("there is no command"),
        }
    }
}

#[test]
fn process_logs() {
    let request = handle().logs(&client());
    assert_eq!(request.path, "/1.0/instances/w-1/console?action=show");
}
