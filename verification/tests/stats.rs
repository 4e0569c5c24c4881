use incus_executor::json::Json;
use incus_executor::stats::{
    process_status, state_path_of, CpuLoad, CpuMeter, ProcessStatus, ResourceUsage,
};

fn read(text: &str) -> Json {
    Json::from_slice(text.as_bytes()).unwrap()
}

#[test]
fn path_of_the_state() {
    assert_eq!(state_path_of("w-1"), "/1.0/instances/w-1/state");
}

#[test]
fn usage_is_read() {
    let mut usage = ResourceUsage::new(3);
    assert_eq!(usage.disk_bytes, 3);
    usage.uptime = 9;
    let state = read(
        r#"{"metadata": {
            "memory": {"usage": 100, "total": 200},
            "network": {
                "lo": {"counters": {"bytes_received": 1, "bytes_sent": 2}},
                "wlan0": {"counters": {"bytes_received": 3, "bytes_sent": 4}},
                "eth0": {"counters": {"bytes_received": 5, "bytes_sent": 6}}
            }
        }}"#,
    );
    usage.read_state(&state, 77);
    let expected = ResourceUsage {
        memory_bytes: 100,
        memory_limit_bytes: 200,
        disk_bytes: 77,
        rx_bytes: 5,
        tx_bytes: 6,
        uptime: 9,
    };
    assert_eq!(usage, expected);
    usage.read_state(&read("{}"), 78);
    assert_eq!(usage, ResourceUsage { disk_bytes: 78, ..expected });
}

#[test]
fn what_is_not_reported_stays() {
    let mut usage = ResourceUsage {
        memory_bytes: 1,
        memory_limit_bytes: 2,
        disk_bytes: 3,
        rx_bytes: 4,
        tx_bytes: 5,
        uptime: 6,
    };
    let before = usage;
    usage.read_state(
        &read(
            r#"{"metadata": {
                "memory": {"usage": -1, "total": "9"},
                "network": {"lo": {"counters": {"bytes_received": 7, "bytes_sent": 7}}}
            }}"#,
        ),
        3,
    );
    assert_eq!(usage, before);
    usage.read_state(
        &read(
            r#"{"metadata": {"network": {
                "a": {"counters": {"bytes_sent": 8}},
                "b": {"counters": {"bytes_received": 9, "bytes_sent": 9}}
            }}}"#,
        ),
        3,
    );
    assert_eq!(usage, ResourceUsage { tx_bytes: 8, ..before });
    usage.read_state(&read(r#"{"metadata": {"network": ["x"]}}"#), 3);
    assert_eq!(usage, ResourceUsage { tx_bytes: 8, ..before });
}

#[test]
fn the_first_interface_is_that_of_serde_json() {
    let text = r#"{"eth10": 0, "lo": 0, "é": 0, "Eth": 0, "eth1": 0, "et": 0, "": 0}"#;
    let value: serde_json::Value = serde_json::from_str(text).unwrap();
    let names: Vec<String> = value.as_object().unwrap().keys().cloned().collect();
    for skipped in 0..names.len() {
        let mut network = String::new();
        for (i, name) in names.iter().enumerate().skip(skipped) {
            if !network.is_empty() {
                network.insert(0, ',');
            }
            network.insert_str(
                0,
                &format!(r#""{}": {{"counters": {{"bytes_received": {}}}}}"#, name, i),
            );
        }
        let state = read(&format!(r#"{{"metadata": {{"network": {{{}}}}}}}"#, network));
        let mut usage = ResourceUsage::new(0);
        usage.rx_bytes = 99;
        usage.read_state(&state, 0);
        let first = names.iter().enumerate().skip(skipped).find(|(_, name)| *name != "lo");
        assert_eq!(usage.rx_bytes, first.map_or(99, |(i, _)| i as u64));
    }
}

fn cpu(total: u64) -> Json {
    read(&format!(r#"{{"metadata": {{"cpu": {{"usage": {}}}}}}}"#, total))
}

#[test]
fn processor_time_is_measured() {
    let mut meter = CpuMeter::new();
    assert_eq!(meter.read_state(&cpu(1000), 5), CpuLoad::Idle);
    assert_eq!(meter.read_state(&cpu(1500), 2005), CpuLoad::Busy { cpu: 500, wall: 2000 });
    assert_eq!(meter.read_state(&read("{}"), 3000), CpuLoad::Unreported);
    assert_eq!((meter.total, meter.read_at), (1500, Some(2005)));
    assert_eq!(meter.read_state(&cpu(1500), 4005), CpuLoad::Idle);
    assert_eq!(meter.read_state(&cpu(1400), 5005), CpuLoad::Idle);
    assert_eq!(meter.read_state(&cpu(1500), 5005), CpuLoad::Idle);
    assert_eq!(meter.read_state(&cpu(1600), 5000), CpuLoad::Idle);
    assert_eq!(meter.read_state(&cpu(1601), 5001), CpuLoad::Busy { cpu: 1, wall: 1 });
}

#[test]
fn states_of_processes() {
    let stopped = ProcessStatus::Stopped { exit_code: -1, oom_killed: false };
    for (text, status, uptime) in [
        (r#"{"metadata": {"status": "Running"}}"#, ProcessStatus::Running, 5),
        (r#"{"metadata": {"status": "Frozen"}}"#, ProcessStatus::Paused, 5),
        (r#"{"metadata": {"status": "Stopped"}}"#, stopped, 0),
        (r#"{"metadata": {"status": "running"}}"#, stopped, 0),
        (r#"{"metadata": {"status": 1}}"#, stopped, 0),
        ("{}", stopped, 0),
    ] {
        let mut usage = ResourceUsage::new(1);
        usage.uptime = 5;
        assert_eq!(process_status(&read(text), &mut usage), status);
        assert_eq!(usage.uptime, uptime);
        assert_eq!(usage.disk_bytes, 1);
    }
}
