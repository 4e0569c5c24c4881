use incus_executor::config::{IncusConfig, IncusNetwork, InnerConfig};
use incus_executor::naming::{
    installer_name, instance_name, new_script_name, script_name, uuid_text,
};

const UUID: u128 = 0x0123_4567_89ab_cdef_0123_4567_89ab_cdef;
const TEXT: &str = "01234567-89ab-cdef-0123-456789abcdef";

fn settings(with_name: bool) -> InnerConfig {
    InnerConfig {
        incus: IncusConfig {
            socket: "/run/incus.sock".to_string(),
            network: IncusNetwork { bridge: "br0".to_string() },
            container_pid_limit: 0,
            server_name_in_container_name: with_name,
            installer_cpu: 100,
        },
    }
}

fn is_valid(name: &str) -> bool {
    name.len() <= 63
        && name.chars().next().map_or(false, |c| c.is_ascii_alphabetic())
        && name.chars().all(|c| c.is_ascii_alphanumeric() || c == '-')
}

#[test]
fn uuid_is_hyphenated() {
    assert_eq!(uuid_text(UUID), TEXT);
    assert_eq!(uuid_text(0), "00000000-0000-0000-0000-000000000000");
    assert_eq!(uuid_text(u128::MAX), "ffffffff-ffff-ffff-ffff-ffffffffffff");
    assert_eq!(uuid_text(UUID), uuid::Uuid::from_u128(UUID).to_string());
}

#[test]
fn plain_instance_name() {
    assert_eq!(instance_name(UUID, &settings(false), "My Server"), format!("w-{}", TEXT));
}

#[test]
fn instance_name_with_server_name() {
    assert_eq!(
        instance_name(UUID, &settings(true), "My Server_\u{e9} #1-x"),
        format!("w-MyServer1-x-{}", TEXT)
    );
    assert_eq!(instance_name(UUID, &settings(true), ""), format!("w--{}", TEXT));
}

#[test]
fn long_server_names_cut_the_uuid() {
    let longest = "a".repeat(24);
    assert_eq!(
        instance_name(UUID, &settings(true), &longest),
        format!("w-{}-{}", longest, TEXT)
    );
    let longer = "a".repeat(25);
    let name = instance_name(UUID, &settings(true), &longer);
    assert_eq!(name.len(), 63);
    assert_eq!(name, format!("w-{}-{}", longer, &TEXT[..35]));
    assert!(!name.contains(TEXT));
    let name = instance_name(UUID, &settings(true), &"b".repeat(100));
    assert_eq!(name, format!("w-{}-{}", "b".repeat(55), &TEXT[..5]));
}

#[test]
fn names_are_valid() {
    for with_name in [false, true] {
        for server_name in ["", "x", "--", "\u{1f600}!", &"long name ".repeat(20)] {
            assert!(is_valid(&instance_name(UUID, &settings(with_name), server_name)));
        }
    }
    assert!(is_valid(&installer_name(UUID)));
    assert!(is_valid(&script_name(UUID, "AZaz0189")));
}

#[test]
fn helper_names() {
    assert_eq!(installer_name(UUID), format!("w-{}-installer", TEXT));
    assert_eq!(script_name(UUID, "AZaz0189"), format!("w-{}-script-AZaz0189", TEXT));
    assert!(installer_name(UUID).contains("installer"));
    assert!(!instance_name(UUID, &settings(false), "installer").contains("installer"));
}

#[test]
fn names_hold_one_uuid() {
    let other = uuid_text(UUID + 1);
    let names =
        [instance_name(UUID, &settings(false), ""), installer_name(UUID), new_script_name(UUID)];
    for name in names {
        assert!(name.contains(TEXT));
        assert!(!name.contains(&other));
    }
}

#[test]
fn script_names_differ_by_chance() {
    let prefix = format!("w-{}-script-", TEXT);
    let names: Vec<String> = (0..20).map(|_| new_script_name(UUID)).collect();
    for name in &names {
        assert!(name.starts_with(&prefix));
        let suffix = &name[prefix.len()..];
        assert_eq!(suffix.len(), 8);
        assert!(suffix.chars().all(|c| c.is_ascii_alphanumeric()));
        assert!(is_valid(name));
    }
    assert!(names.iter().any(|name| *name != names[0]));
}
