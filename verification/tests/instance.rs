use incus_executor::config::{
    ConfigTable, IncusConfig, IncusNetwork, InnerConfig, Mount, ServerConfiguration,
    ServerConfigurationAllocations, ServerConfigurationBuild,
};
use incus_executor::instance::{
    build_installer_instance, build_nic_device, build_proxy_devices, build_resource_config,
    build_script_container, build_server_instance, environment_texts, parse_image_source,
    real_memory, ScriptMounts,
};
use incus_executor::json::Json;
use serde_json::Value;

const CAPABILITIES: &str = "lxc.cap.drop = setpcap mknod audit_write net_raw dac_override fowner fsetid net_bind_service sys_chroot setfcap sys_ptrace";

fn read(text: &str) -> Json {
    Json::from_slice(text.as_bytes()).unwrap()
}

fn value(text: &str) -> Value {
    serde_json::from_str(text).unwrap()
}

fn written(json: Json) -> Value {
    serde_json::from_slice(&json.to_vec().unwrap()).unwrap()
}

fn settings() -> InnerConfig {
    InnerConfig {
        incus: IncusConfig {
            socket: "/run/incus.sock".to_string(),
            network: IncusNetwork { bridge: "br0".to_string() },
            container_pid_limit: 512,
            server_name_in_container_name: false,
            installer_cpu: 150,
        },
    }
}

fn build(memory: i64, overhead: i64, cpu: i64, threads: Option<&str>) -> ServerConfigurationBuild {
    ServerConfigurationBuild {
        memory_limit: memory,
        overhead_memory: overhead,
        cpu_limit: cpu,
        threads: threads.map(|text| text.to_string()),
    }
}

fn mount(target: &str, source: &str, read_only: bool) -> Mount {
    Mount { target: target.to_string(), source: source.to_string(), read_only }
}

fn server() -> ServerConfiguration {
    ServerConfiguration {
        uuid: 1,
        name: "one".to_string(),
        build: build(1024, 0, 200, None),
        allocations: ServerConfigurationAllocations {
            mappings: vec![("1.2.3.4".to_string(), vec![25565])],
        },
        environment: vec!["A=1".to_string(), "B=x=y".to_string(), "C=".to_string()],
        mounts: vec![mount("/opt/a/b", "/srv/ab", true)],
        image: "ghcr.io/org/image:tag".to_string(),
        entrypoint: None,
        base: "/var/servers/1".to_string(),
    }
}

fn lookup(table: &ConfigTable, key: &str) -> Option<String> {
    table.entries.iter().find(|entry| entry.0 == key).map(|entry| entry.1.clone())
}

fn source(server: &str, alias: &str) -> Value {
    value(&format!(
        r#"{{"type": "image", "protocol": "oci", "server": "{}", "alias": "{}"}}"#,
        server, alias
    ))
}

#[test]
fn image_sources() {
    for (image, server, alias) in [
        ("alpine", "https://docker.io", "alpine"),
        ("library/alpine:3", "https://docker.io", "library/alpine:3"),
        ("ghcr.io/org/image:tag", "https://ghcr.io", "org/image:tag"),
        ("localhost:5000/image", "https://localhost:5000", "image"),
        ("localhost/image", "https://docker.io", "localhost/image"),
        ("ghcr.io/org/image~~", "https://ghcr.io", "org/image"),
        ("~alpine~", "https://docker.io", "~alpine"),
        ("image.with.dots", "https://docker.io", "image.with.dots"),
        ("image:tag", "https://docker.io", "image:tag"),
        ("a.b/", "https://a.b", ""),
        ("/a.b", "https://docker.io", "/a.b"),
        ("", "https://docker.io", ""),
    ] {
        assert_eq!(written(parse_image_source(image)), source(server, alias));
    }
}

#[test]
fn memory_counts_where_it_is_limited() {
    assert_eq!(real_memory(&build(1024, 256, 0, None)), Some(1280));
    assert_eq!(real_memory(&build(0, 0, 0, None)), None);
    assert_eq!(real_memory(&build(-5, 4, 0, None)), None);
    assert_eq!(real_memory(&build(-5, 6, 0, None)), Some(1));
    assert_eq!(real_memory(&build(i64::MAX, 0, 0, None)), Some(i64::MAX));
}

#[test]
fn resource_limits() {
    let table = build_resource_config(&build(1024, 0, 150, Some("0-3")), 1_126_170_624, 512);
    assert_eq!(table.entries.len(), 4);
    assert_eq!(lookup(&table, "limits.memory"), Some("1126170624B".to_string()));
    assert_eq!(lookup(&table, "limits.cpu.allowance"), Some("150%".to_string()));
    assert_eq!(lookup(&table, "limits.cpu"), Some("0-3".to_string()));
    assert_eq!(lookup(&table, "limits.processes"), Some("512".to_string()));
    let table = build_resource_config(&build(0, 0, 0, None), 7, 0);
    assert_eq!(table.entries.len(), 0);
    let table = build_resource_config(&build(0, 0, -1, None), 7, u64::MAX);
    assert_eq!(table.entries.len(), 1);
    assert_eq!(lookup(&table, "limits.processes"), Some("18446744073709551615".to_string()));
}

#[test]
fn ports_are_forwarded() {
    let devices = build_proxy_devices(&ServerConfigurationAllocations {
        mappings: vec![
            ("1.2.3.4".to_string(), vec![80, 65535]),
            ("5.6.7.8".to_string(), vec![80, 0]),
        ],
    });
    assert_eq!(devices.entries.len(), 6);
    assert_eq!(
        written(Json::Object(devices)),
        value(
            r#"{
                "proxy-80-tcp": {"type": "proxy", "listen": "tcp:5.6.7.8:80", "connect": "tcp:127.0.0.1:80"},
                "proxy-80-udp": {"type": "proxy", "listen": "udp:5.6.7.8:80", "connect": "udp:127.0.0.1:80"},
                "proxy-65535-tcp": {"type": "proxy", "listen": "tcp:1.2.3.4:65535", "connect": "tcp:127.0.0.1:65535"},
                "proxy-65535-udp": {"type": "proxy", "listen": "udp:1.2.3.4:65535", "connect": "udp:127.0.0.1:65535"},
                "proxy-0-tcp": {"type": "proxy", "listen": "tcp:5.6.7.8:0", "connect": "tcp:127.0.0.1:0"},
                "proxy-0-udp": {"type": "proxy", "listen": "udp:5.6.7.8:0", "connect": "udp:127.0.0.1:0"}
            }"#
        )
    );
}

#[test]
fn no_ports_need_no_devices() {
    let devices = build_proxy_devices(&ServerConfigurationAllocations {
        mappings: vec![("1.2.3.4".to_string(), vec![])],
    });
    assert_eq!(devices.entries.len(), 0);
}

#[test]
fn network_device() {
    assert_eq!(
        written(build_nic_device("incusbr0")),
        value(r#"{"type": "nic", "name": "eth0", "network": "incusbr0"}"#)
    );
}

#[test]
fn server_instances() {
    let body = written(build_server_instance("w-1", &settings(), &server(), 5000));
    assert_eq!(
        body,
        value(&format!(
            r#"{{
                "name": "w-1",
                "type": "container",
                "source": {{"type": "image", "protocol": "oci", "server": "https://ghcr.io", "alias": "org/image:tag"}},
                "config": {{
                    "limits.memory": "5000B",
                    "limits.cpu.allowance": "200%",
                    "limits.processes": "512",
                    "environment.A": "1",
                    "environment.B": "x=y",
                    "environment.C": "",
                    "security.nesting": "false",
                    "security.privileged": "false",
                    "raw.lxc": "{}"
                }},
                "devices": {{
                    "eth0": {{"type": "nic", "name": "eth0", "network": "br0"}},
                    "server-data": {{"type": "disk", "path": "/home/container", "source": "/var/servers/1"}},
                    "proxy-25565-tcp": {{"type": "proxy", "listen": "tcp:1.2.3.4:25565", "connect": "tcp:127.0.0.1:25565"}},
                    "proxy-25565-udp": {{"type": "proxy", "listen": "udp:1.2.3.4:25565", "connect": "udp:127.0.0.1:25565"}},
                    "mount-opt-a-b": {{"type": "disk", "path": "/opt/a/b", "source": "/srv/ab", "readonly": true}}
                }}
            }}"#,
            CAPABILITIES
        ))
    );
}

#[test]
fn entrypoints_are_put_before_the_capabilities() {
    let mut server = server();
    server.entrypoint = Some(vec!["/bin/sh".to_string(), "-c".to_string(), "x".to_string()]);
    let body = written(build_server_instance("w-1", &settings(), &server, 0));
    assert_eq!(
        body["config"]["raw.lxc"],
        Value::String(format!("lxc.init.cmd = /bin/sh -c x\n{}", CAPABILITIES))
    );
    server.entrypoint = Some(vec![]);
    let body = written(build_server_instance("w-1", &settings(), &server, 0));
    assert_eq!(
        body["config"]["raw.lxc"],
        Value::String(format!("lxc.init.cmd = \n{}", CAPABILITIES))
    );
}

#[test]
fn later_variables_and_mounts_win() {
    let mut server = server();
    server.environment = vec!["A=1".to_string(), "=odd".to_string(), "A=2".to_string()];
    server.mounts = vec![
        mount("/a/b", "/one", false),
        mount("a-b", "/two", true),
        mount("//", "/three", false),
    ];
    let body = written(build_server_instance("w-1", &settings(), &server, 0));
    assert_eq!(body["config"]["environment.A"], Value::String("2".to_string()));
    assert_eq!(body["config"]["environment."], Value::String("odd".to_string()));
    assert_eq!(
        body["devices"]["mount-a-b"],
        value(r#"{"type": "disk", "path": "a-b", "source": "/two", "readonly": true}"#)
    );
    assert_eq!(
        body["devices"]["mount-"],
        value(r#"{"type": "disk", "path": "//", "source": "/three", "readonly": false}"#)
    );
    assert_eq!(body["devices"].as_object().unwrap().len(), 6);
}

#[test]
fn variables_and_mounts_change_no_guarantee() {
    let mut server = server();
    server.environment = vec![
        "limits.memory=1".to_string(),
        "security.privileged=true".to_string(),
        "raw.lxc=x".to_string(),
    ];
    server.mounts = vec![mount("eth0", "/x", false), mount("/server-data", "/y", false)];
    let body = written(build_server_instance("w-1", &settings(), &server, 5000));
    assert_eq!(body["config"]["limits.memory"], Value::String("5000B".to_string()));
    assert_eq!(body["config"]["security.privileged"], Value::String("false".to_string()));
    assert_eq!(body["config"]["security.nesting"], Value::String("false".to_string()));
    assert_eq!(body["config"]["raw.lxc"], Value::String(CAPABILITIES.to_string()));
    assert_eq!(body["devices"]["eth0"]["type"], Value::String("nic".to_string()));
    assert_eq!(
        body["devices"]["server-data"]["source"],
        Value::String("/var/servers/1".to_string())
    );
    assert_eq!(
        body["devices"]["proxy-25565-tcp"]["listen"],
        Value::String("tcp:1.2.3.4:25565".to_string())
    );
}

fn mounts() -> ScriptMounts {
    ScriptMounts {
        base: "/var/servers/1".to_string(),
        server_mount_target: "/mnt/server".to_string(),
        script_mount_source: "/tmp/1".to_string(),
        script_mount_target: "/mnt/install".to_string(),
    }
}

#[test]
fn script_variables_are_texts() {
    let environment = vec![
        ("T".to_string(), Json::text("as \"is\"")),
        ("N".to_string(), read("-1.5")),
        ("B".to_string(), Json::Bool(true)),
        ("L".to_string(), read("[1, \"a\"]")),
        ("Z".to_string(), Json::Null),
    ];
    let expected: Vec<(String, String)> =
        [("T", "as \"is\""), ("N", "-1.5"), ("B", "true"), ("L", "[1,\"a\"]"), ("Z", "null")]
            .iter()
            .map(|(name, text)| (name.to_string(), text.to_string()))
            .collect();
    assert_eq!(environment_texts(environment), expected);
}

#[test]
fn installer_instances() {
    let environment =
        vec![("A".to_string(), Json::text("1")), ("B".to_string(), Json::Unsigned(2))];
    let body = build_installer_instance(
        "w-1-installer",
        &settings(),
        "alpine:3",
        environment,
        9000,
        &mounts(),
    );
    let expected = r#"{
        "name": "w-1-installer",
        "type": "container",
        "source": {"type": "image", "protocol": "oci", "server": "https://docker.io", "alias": "alpine:3"},
        "config": {
            "limits.memory": "9000B",
            "limits.cpu.allowance": "150%",
            "environment.A": "1",
            "environment.B": "2"
        },
        "devices": {
            "eth0": {"type": "nic", "name": "eth0", "network": "br0"},
            "server-data": {"type": "disk", "path": "/mnt/server", "source": "/var/servers/1"},
            "install-scripts": {"type": "disk", "path": "/mnt/install", "source": "/tmp/1"}
        }
    }"#;
    assert_eq!(written(body), value(expected));
    let variables = vec![
        ("A".to_string(), "0".to_string()),
        ("B".to_string(), "2".to_string()),
        ("A".to_string(), "1".to_string()),
    ];
    let body = build_script_container(
        "w-1-installer",
        &settings(),
        "alpine:3",
        &variables,
        9000,
        &mounts(),
    );
    assert_eq!(written(body), value(expected));
}
