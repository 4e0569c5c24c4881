use incus_executor::client::{IncusError, Method};
use incus_executor::config::{
    IncusConfig, IncusNetwork, InnerConfig, InstallationScript, ServerConfiguration,
    ServerConfigurationAllocations, ServerConfigurationBuild,
};
use incus_executor::executor::IncusExecutor;
use incus_executor::instance::build_server_instance;
use incus_executor::json::Json;
use incus_executor::naming::{installer_name, instance_name, uuid_text};
use incus_executor::workflow::{Handling, Step};
use serde_json::Value;

const UUID: u128 = 0x0123_4567_89ab_cdef_0123_4567_89ab_cdef;
const TEXT: &str = "01234567-89ab-cdef-0123-456789abcdef";

fn read(text: &str) -> Json {
    Json::from_slice(text.as_bytes()).unwrap()
}

fn value(text: &str) -> Value {
    serde_json::from_str(text).unwrap()
}

fn settings() -> InnerConfig {
    InnerConfig {
        incus: IncusConfig {
            socket: "/run/incus.sock".to_string(),
            network: IncusNetwork { bridge: "br0".to_string() },
            container_pid_limit: 512,
            server_name_in_container_name: false,
            installer_cpu: 150,
        },
    }
}

fn server() -> ServerConfiguration {
    ServerConfiguration {
        uuid: UUID,
        name: "one".to_string(),
        build: ServerConfigurationBuild {
            memory_limit: 1,
            overhead_memory: 0,
            cpu_limit: 0,
            threads: None,
        },
        allocations: ServerConfigurationAllocations { mappings: vec![] },
        environment: vec![],
        mounts: vec![],
        image: "alpine".to_string(),
        entrypoint: None,
        base: "/var/servers/1".to_string(),
    }
}

fn script() -> InstallationScript {
    InstallationScript {
        container_image: "alpine:3".to_string(),
        entrypoint: "ash".to_string(),
        script: "a\r\nb\nc\r\r\n".to_string(),
        environment: vec![("A".to_string(), Json::Unsigned(1))],
    }
}

fn executor() -> IncusExecutor {
    IncusExecutor::new(&settings())
}

fn failure() -> IncusError {
    IncusError::Transport("refused".to_string())
}

/// What a step asks: its method, its path, its body, and what becomes of the answer.
fn asked(step: Step) -> (Method, String, Option<Value>, Handling) {
    let body = step
        .request
        .body
        .map(|json| serde_json::from_slice(&json.to_vec().unwrap()).unwrap());
    (step.request.method, step.request.path, body, step.handling)
}

fn all_asked(steps: Vec<Step>) -> Vec<(Method, String, Option<Value>, Handling)> {
    steps.into_iter().map(asked).collect()
}

fn removal(name: &str) -> Vec<(Method, String, Option<Value>, Handling)> {
    vec![
        (
            Method::Put,
            format!("/1.0/instances/{}/state", name),
            Some(value(r#"{"action": "stop", "force": true}"#)),
            Handling::Attempt,
        ),
        (Method::Delete, format!("/1.0/instances/{}", name), None, Handling::Attempt),
    ]
}

fn start(name: &str) -> (Method, String, Option<Value>, Handling) {
    (
        Method::Put,
        format!("/1.0/instances/{}/state", name),
        Some(value(r#"{"action": "start"}"#)),
        Handling::Complete,
    )
}

fn listing(instances: &[String]) -> Json {
    read(&format!(r#"{{"metadata": [{}]}}"#, instances.join(",")))
}

fn instance(name: &str, status: &str) -> String {
    format!(r#"{{"name": "{}", "state": {{"status": "{}"}}}}"#, name, status)
}

#[test]
fn executor_uses_the_socket() {
    assert_eq!(executor().client.socket_path, "/run/incus.sock");
}

#[test]
fn instances_are_listed() {
    let request = executor().list_instances();
    assert_eq!((request.method, request.path.as_str()), (Method::Get, "/1.0/instances?recursion=1"));
    assert_eq!(request.body, None);
}

#[test]
fn a_running_instance_is_found() {
    let list = [
        instance("w-other", "Running"),
        instance("w-abc-installer", "Running"),
        instance("w-abc", "Stopped"),
        instance("w-abc-2", "Running"),
        instance("w-abc-3", "Running"),
    ];
    let find = |exclude| {
        executor().find_running_instance(Ok(listing(&list)), "abc", exclude)
    };
    assert_eq!(find(Some("installer")), Some("w-abc-2".to_string()));
    assert_eq!(find(None), Some("w-abc-installer".to_string()));
    assert_eq!(find(Some("w-")), None);
    let none = executor().find_running_instance(Ok(listing(&list)), "xyz", None);
    assert_eq!(none, None);
}

#[test]
fn the_status_is_that_of_the_state() {
    for (text, found) in [
        (r#"{"name": "x", "status": "Running"}"#, true),
        (r#"{"name": "x", "status": "Stopped"}"#, false),
        (r#"{"name": "x", "status": "Running", "state": {"status": "Stopped"}}"#, false),
        (r#"{"name": "x", "status": "Running", "state": {"status": 1}}"#, false),
        (r#"{"name": "x", "status": "Running", "state": null}"#, true),
        (r#"{"name": "x"}"#, false),
    ] {
        let list = listing(&[text.to_string()]);
        let result = executor().find_running_instance(Ok(list), "x", None);
        assert_eq!(result.is_some(), found);
    }
}

#[test]
fn an_instance_without_a_name_is_passed_over() {
    let nameless = r#"{"state": {"status": "Running"}}"#.to_string();
    let odd = r#"{"name": 5, "status": "Running"}"#.to_string();
    for list in [
        [nameless.clone(), odd.clone(), instance("x", "Running")],
        [instance("x", "Running"), nameless.clone(), odd.clone()],
    ] {
        assert_eq!(
            executor().find_running_instance(Ok(listing(&list)), "x", None),
            Some("x".to_string())
        );
    }
    let list = [
        r#"{"status": "Running"}"#.to_string(),
        r#"{"name": "w-abc", "status": "Running"}"#.to_string(),
    ];
    assert_eq!(
        executor().find_running_instance(Ok(listing(&list)), "abc", None),
        Some("w-abc".to_string())
    );
    let list = [nameless, odd];
    assert_eq!(executor().find_running_instance(Ok(listing(&list)), "x", None), None);
}

#[test]
fn nothing_is_found_without_a_list() {
    assert_eq!(executor().find_running_instance(Err(failure()), "x", None), None);
    assert_eq!(executor().find_running_instance(Ok(read("{}")), "x", None), None);
    let object = read(r#"{"metadata": {"name": "x"}}"#);
    assert_eq!(executor().find_running_instance(Ok(object), "x", None), None);
}

#[test]
fn matching_instances_are_removed() {
    let list = listing(&[
        instance("a-x", "Stopped"),
        r#"{"state": {}}"#.to_string(),
        instance("b", "Running"),
        instance("c-x", "Running"),
    ]);
    let steps = executor().delete_instances_matching(Ok(list), "x").unwrap();
    let mut expected = removal("a-x");
    expected.extend(removal("c-x"));
    assert_eq!(all_asked(steps), expected);
    assert_eq!(executor().delete_instances_matching(Ok(read("{}")), "x"), Ok(vec![]));
    assert_eq!(executor().delete_instances_matching(Err(failure()), "x"), Err(failure()));
}

#[test]
fn the_network_is_created_where_it_is_missing() {
    let request = executor().find_network(&settings());
    assert_eq!((request.method, request.path.as_str()), (Method::Get, "/1.0/networks/br0"));
    assert_eq!(executor().boot(&settings(), Ok(Json::Null)), vec![]);
    let steps = executor().boot(&settings(), Err(failure()));
    let body = r#"{
        "name": "br0", "type": "bridge",
        "config": {"ipv4.address": "auto", "ipv4.nat": "true", "ipv6.address": "none"}
    }"#;
    assert_eq!(
        all_asked(steps),
        vec![(
            Method::Post,
            "/1.0/networks".to_string(),
            Some(value(body)),
            Handling::Complete
        )]
    );
}

#[test]
fn servers_are_set_up() {
    let setup = executor().setup_server_process(&settings(), &server(), 5000);
    let name = format!("w-{}", TEXT);
    assert_eq!(setup.name, name);
    let body = build_server_instance(&name, &settings(), &server(), 5000).to_vec().unwrap();
    assert_eq!(
        all_asked(setup.steps),
        vec![
            (
                Method::Post,
                "/1.0/instances".to_string(),
                Some(serde_json::from_slice(&body).unwrap()),
                Handling::Complete
            ),
            start(&name),
        ]
    );
}

#[test]
fn what_is_set_up_is_found_again() {
    let name = executor().setup_server_process(&settings(), &server(), 0).name;
    let other = instance_name(UUID + 1, &settings(), "");
    let list = [
        instance(&other, "Running"),
        instance(&installer_name(UUID), "Running"),
        instance(&name, "Running"),
    ];
    assert_eq!(executor().attach_server_process(UUID, Ok(listing(&list))), Ok(name));
    for outcome in [Ok(listing(&list[..2])), Ok(read("[]")), Err(failure())] {
        assert_eq!(
            executor().attach_server_process(UUID, outcome),
            Err(IncusError::NoRunningInstance(TEXT.to_string()))
        );
    }
}

#[test]
fn clean_up_removes_all_of_a_server_and_leaves_others() {
    let plain = instance_name(UUID, &settings(), "");
    let helper = format!("w-{}-script-abcdEFGH", TEXT);
    let list = listing(&[
        instance(&instance_name(UUID + 1, &settings(), ""), "Running"),
        instance(&plain, "Running"),
        instance(&installer_name(UUID + 1), "Running"),
        instance(&installer_name(UUID), "Stopped"),
        instance(&helper, "Running"),
    ]);
    let steps = executor().cleanup_server_process(UUID, Ok(list)).unwrap();
    let mut expected = removal(&plain);
    expected.extend(removal(&installer_name(UUID)));
    expected.extend(removal(&helper));
    assert_eq!(all_asked(steps), expected);
    assert_eq!(executor().cleanup_server_process(UUID, Err(failure())), Err(failure()));
}

/// The requests that run a script in an instance.
fn script_requests(
    name: &str,
    target: &str,
    file: &str,
) -> Vec<(Method, String, Option<Value>, Handling)> {
    let body = format!(
        r#"{{
            "name": "{}",
            "type": "container",
            "source": {{"type": "image", "protocol": "oci", "server": "https://docker.io", "alias": "alpine:3"}},
            "config": {{"limits.memory": "9000B", "limits.cpu.allowance": "150%", "environment.A": "1"}},
            "devices": {{
                "eth0": {{"type": "nic", "name": "eth0", "network": "br0"}},
                "server-data": {{"type": "disk", "path": "/mnt/server", "source": "/var/servers/1"}},
                "install-scripts": {{"type": "disk", "path": "{}", "source": "/tmp/x"}}
            }}
        }}"#,
        name, target
    );
    let command = format!(
        r#"{{
            "command": ["ash", "{}"], "wait-for-websocket": false, "interactive": true,
            "record-output": true
        }}"#,
        file
    );
    vec![
        (Method::Post, "/1.0/instances".to_string(), Some(value(&body)), Handling::Complete),
        start(name),
        (
            Method::Post,
            format!("/1.0/instances/{}/exec", name),
            Some(value(&command)),
            Handling::Complete,
        ),
    ]
}

#[test]
fn installations_are_set_up() {
    let setup = executor().setup_installation_process(
        &settings(),
        UUID,
        "/var/servers/1",
        script(),
        9000,
        "/tmp/x",
    );
    assert_eq!(setup.name, format!("w-{}-installer", TEXT));
    assert_eq!(
        all_asked(setup.steps),
        script_requests(&setup.name, "/mnt/install", "/mnt/install/install.sh")
    );
    assert_eq!(executor().attach_installation_process(UUID), setup.name);
    assert_eq!(all_asked(executor().cleanup_installation_process(UUID)), removal(&setup.name));
}

#[test]
fn scripts_are_set_up() {
    let setup = executor().setup_script_process(
        &settings(),
        UUID,
        "/var/servers/1",
        script(),
        9000,
        "/tmp/x",
    );
    assert!(setup.name.starts_with(&format!("w-{}-script-", uuid_text(UUID))));
    assert_eq!(
        all_asked(setup.steps),
        script_requests(&setup.name, "/mnt/script", "/mnt/script/script.sh")
    );
    let setup = executor().setup_named_script(
        "w-9".to_string(),
        &settings(),
        "/var/servers/1",
        script(),
        9000,
        "/tmp/x",
    );
    assert_eq!(
        all_asked(setup.steps),
        script_requests("w-9", "/mnt/script", "/mnt/script/script.sh")
    );
}

#[test]
fn script_files_have_unix_line_ends() {
    let file = executor().installation_file(&script());
    assert_eq!(file.name, "install.sh");
    assert_eq!(file.contents, "a\nb\nc\r\n");
    let file = executor().script_file(&script());
    assert_eq!(file.name, "script.sh");
    assert_eq!(file.contents, script().script.replace("\r\n", "\n"));
}
