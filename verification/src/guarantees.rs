//! What holds of every instance, whatever its server's configuration says.
use crate::config::{InnerConfig, Mount, ServerConfiguration, ServerConfigurationBuild};
use crate::instance::{
    disk_device, installer_config, mount_device, mount_key, nic_device, proxy_device,
    proxy_devices, proxy_key, raw_settings, resource_config, server_config, server_devices,
    with_mounts, with_named_variables, with_ports, with_variables, DROPPED_CAPABILITIES,
};
use crate::json::JsonView;
use crate::text::{decimal_text, digit, joined, position};
use vstd::prelude::*;

verus! {

/// Different numbers are written differently.
pub proof fn law_decimal_text_is_unique(a: nat, b: nat)
    requires
        decimal_text(a) == decimal_text(b),
    ensures
        a == b,
    decreases a + b,
{
    if a < 10 && b < 10 {
        assert(decimal_text(a)[0] == digit(a));
        assert(decimal_text(b)[0] == digit(b));
        lemma_digits_differ(a, b);
    } else if a < 10 {
        lemma_decimal_text_is_filled(b / 10);
        assert(decimal_text(a).len() == 1);
        assert(decimal_text(b).len() == decimal_text(b / 10).len() + 1);
    } else if b < 10 {
        lemma_decimal_text_is_filled(a / 10);
        assert(decimal_text(b).len() == 1);
        assert(decimal_text(a).len() == decimal_text(a / 10).len() + 1);
    } else {
        assert(decimal_text(a).drop_last() =~= decimal_text(a / 10));
        assert(decimal_text(b).drop_last() =~= decimal_text(b / 10));
        assert(decimal_text(a).last() == digit(a % 10));
        assert(decimal_text(b).last() == digit(b % 10));
        law_decimal_text_is_unique(a / 10, b / 10);
        lemma_digits_differ(a % 10, b % 10);
        assert(a == 10 * (a / 10) + a % 10);
        assert(b == 10 * (b / 10) + b % 10);
    }
}

/// Different digits are written differently.
proof fn lemma_digits_differ(a: nat, b: nat)
    requires
        a < 10,
        b < 10,
        digit(a) == digit(b),
    ensures
        a == b,
{
    assert(digit(a) as nat == 48 + a);
    assert(digit(b) as nat == 48 + b);
}

/// A number is written with at least one digit.
proof fn lemma_decimal_text_is_filled(n: nat)
    ensures
        decimal_text(n).len() >= 1,
    decreases n,
{
    if n >= 10 {
        lemma_decimal_text_is_filled(n / 10);
    }
}

/// Different ports and protocols are forwarded by different devices.
proof fn lemma_proxy_keys_differ(protocol: Seq<char>, port: u16, other: Seq<char>, number: u16)
    requires
        protocol == "tcp"@ || protocol == "udp"@,
        other == "tcp"@ || other == "udp"@,
        proxy_key(protocol, port) == proxy_key(other, number),
    ensures
        protocol == other,
        port == number,
{
    reveal_strlit("proxy-");
    reveal_strlit("-");
    reveal_strlit("tcp");
    reveal_strlit("udp");
    let key = proxy_key(protocol, port);
    let a = decimal_text(port as nat);
    let b = decimal_text(number as nat);
    assert(key.len() == 6 + a.len() + 4);
    assert(proxy_key(other, number).len() == 6 + b.len() + 4);
    assert(a =~= key.subrange(6, 6 + a.len() as int));
    assert(b =~= proxy_key(other, number).subrange(6, 6 + b.len() as int));
    law_decimal_text_is_unique(port as nat, number as nat);
    assert(protocol =~= key.skip(7 + a.len() as int));
    assert(other =~= proxy_key(other, number).skip(7 + b.len() as int));
}

/// The ports of an address hold `port`.
pub open spec fn has_port(mapping: (String, Vec<u16>), port: u16) -> bool {
    mapping.1@.contains(port)
}

/// The last address that a port stands under.
pub open spec fn last_address(mappings: Seq<(String, Vec<u16>)>, port: u16) -> Option<Seq<char>>
    decreases mappings.len(),
{
    if mappings.len() == 0 {
        None
    } else if has_port(mappings.last(), port) {
        Some(mappings.last().0@)
    } else {
        last_address(mappings.drop_last(), port)
    }
}

/// What the ports of one address do to the device of a port.
proof fn lemma_with_ports(
    devices: Map<Seq<char>, JsonView>,
    ip: Seq<char>,
    ports: Seq<u16>,
    protocol: Seq<char>,
    port: u16,
)
    requires
        protocol == "tcp"@ || protocol == "udp"@,
    ensures
        ({
            let key = proxy_key(protocol, port);
            let after = with_ports(devices, ip, ports);
            if ports.contains(port) {
                after.contains_key(key) && after[key] == proxy_device(protocol, ip, port)
            } else {
                &&& after.contains_key(key) <==> devices.contains_key(key)
                &&& after.contains_key(key) ==> after[key] == devices[key]
            }
        }),
    decreases ports.len(),
{
    if ports.len() > 0 {
        let rest = ports.drop_last();
        let last = ports.last();
        lemma_with_ports(devices, ip, rest, protocol, port);
        assert(ports =~= rest.push(last));
        if proxy_key(protocol, port) == proxy_key("tcp"@, last) {
            lemma_proxy_keys_differ(protocol, port, "tcp"@, last);
        }
        if proxy_key(protocol, port) == proxy_key("udp"@, last) {
            lemma_proxy_keys_differ(protocol, port, "udp"@, last);
        }
        reveal_strlit("tcp");
        reveal_strlit("udp");
        assert("tcp"@[0] != "udp"@[0]);
        if last == port {
            assert(ports[ports.len() - 1] == port);
        } else {
            if ports.contains(port) {
                let i = choose|i: int| 0 <= i < ports.len() && ports[i] == port;
                assert(rest[i] == port);
            }
            if rest.contains(port) {
                let i = choose|i: int| 0 <= i < rest.len() && rest[i] == port;
                assert(ports[i] == port);
            }
        }
    }
}

/// Each port of a server is forwarded, for TCP and for UDP, from an address that it stands under
/// to the same port of the instance, and no other port is: where it stands under several
/// addresses, from the last of them.
pub proof fn law_ports_are_forwarded(
    mappings: Seq<(String, Vec<u16>)>,
    protocol: Seq<char>,
    port: u16,
)
    requires
        protocol == "tcp"@ || protocol == "udp"@,
    ensures
        ({
            let key = proxy_key(protocol, port);
            match last_address(mappings, port) {
                Some(ip) => proxy_devices(mappings).contains_key(key) && proxy_devices(
                    mappings,
                )[key] == proxy_device(protocol, ip, port),
                None => !proxy_devices(mappings).contains_key(key),
            }
        }),
        last_address(mappings, port) is Some <==> exists|i: int|
            0 <= i < mappings.len() && has_port(#[trigger] mappings[i], port),
    decreases mappings.len(),
{
    if mappings.len() > 0 {
        let rest = mappings.drop_last();
        law_ports_are_forwarded(rest, protocol, port);
        lemma_with_ports(
            proxy_devices(rest),
            mappings.last().0@,
            mappings.last().1@,
            protocol,
            port,
        );
        if has_port(mappings.last(), port) {
            assert(has_port(mappings[mappings.len() - 1], port));
        } else {
            if exists|i: int| 0 <= i < mappings.len() && has_port(#[trigger] mappings[i], port) {
                let i = choose|i: int|
                    0 <= i < mappings.len() && has_port(#[trigger] mappings[i], port);
                assert(has_port(rest[i], port));
            }
            if exists|i: int| 0 <= i < rest.len() && has_port(#[trigger] rest[i], port) {
                let i = choose|i: int| 0 <= i < rest.len() && has_port(#[trigger] rest[i], port);
                assert(has_port(mappings[i], port));
            }
        }
    }
}

/// The names of the devices that forward ports start with a `p`.
proof fn lemma_with_ports_keys(
    devices: Map<Seq<char>, JsonView>,
    ip: Seq<char>,
    ports: Seq<u16>,
    key: Seq<char>,
)
    requires
        key.len() > 0,
        key[0] != 'p',
    ensures
        with_ports(devices, ip, ports).contains_key(key) <==> devices.contains_key(key),
        devices.contains_key(key) ==> with_ports(devices, ip, ports)[key] == devices[key],
    decreases ports.len(),
{
    if ports.len() > 0 {
        lemma_with_ports_keys(devices, ip, ports.drop_last(), key);
        reveal_strlit("proxy-");
        assert(proxy_key("tcp"@, ports.last())[0] == 'p');
        assert(proxy_key("udp"@, ports.last())[0] == 'p');
    }
}

/// A name that does not start with a `p` is that of no device that forwards a port.
proof fn lemma_proxy_devices_keys(mappings: Seq<(String, Vec<u16>)>, key: Seq<char>)
    requires
        key.len() > 0,
        key[0] != 'p',
    ensures
        !proxy_devices(mappings).contains_key(key),
    decreases mappings.len(),
{
    if mappings.len() > 0 {
        let rest = mappings.drop_last();
        lemma_proxy_devices_keys(rest, key);
        lemma_with_ports_keys(
            proxy_devices(rest),
            mappings.last().0@,
            mappings.last().1@,
            key,
        );
    }
}

/// The names of the devices that mount directories start with an `m`.
proof fn lemma_with_mounts_keys(
    devices: Map<Seq<char>, JsonView>,
    mounts: Seq<Mount>,
    key: Seq<char>,
)
    requires
        key.len() > 0,
        key[0] != 'm',
    ensures
        with_mounts(devices, mounts).contains_key(key) <==> devices.contains_key(key),
        devices.contains_key(key) ==> with_mounts(devices, mounts)[key] == devices[key],
    decreases mounts.len(),
{
    if mounts.len() > 0 {
        lemma_with_mounts_keys(devices, mounts.drop_last(), key);
        reveal_strlit("mount-");
        assert(mount_key(mounts.last().target@)[0] == 'm');
    }
}

/// No port and no mount takes the place of an instance's network or of its server's directory.
pub proof fn law_base_devices_stay(cfg: InnerConfig, server: ServerConfiguration)
    ensures
        server_devices(cfg, server).contains_key("eth0"@),
        server_devices(cfg, server)["eth0"@] == nic_device(cfg.incus.network.bridge@),
        server_devices(cfg, server).contains_key("server-data"@),
        server_devices(cfg, server)["server-data"@] == disk_device(
            "/home/container"@,
            server.base@,
        ),
{
    reveal_strlit("eth0");
    reveal_strlit("server-data");
    assert("eth0"@.len() != "server-data"@.len());
    let mappings = server.allocations.mappings@;
    let devices = crate::instance::base_devices(
        cfg.incus.network.bridge@,
        "/home/container"@,
        server.base@,
    ).union_prefer_right(proxy_devices(mappings));
    lemma_proxy_devices_keys(mappings, "eth0"@);
    lemma_proxy_devices_keys(mappings, "server-data"@);
    lemma_with_mounts_keys(devices, server.mounts@, "eth0"@);
    lemma_with_mounts_keys(devices, server.mounts@, "server-data"@);
}

/// Mounts take no port's device away: each port of a server's instance is forwarded as its
/// allocations say.
pub proof fn law_server_ports_are_forwarded(
    cfg: InnerConfig,
    server: ServerConfiguration,
    protocol: Seq<char>,
    port: u16,
)
    requires
        protocol == "tcp"@ || protocol == "udp"@,
        last_address(server.allocations.mappings@, port) is Some,
    ensures
        server_devices(cfg, server).contains_key(proxy_key(protocol, port)),
        server_devices(cfg, server)[proxy_key(protocol, port)] == proxy_device(
            protocol,
            last_address(server.allocations.mappings@, port)->0,
            port,
        ),
{
    reveal_strlit("proxy-");
    let key = proxy_key(protocol, port);
    assert(key[0] == 'p');
    law_ports_are_forwarded(server.allocations.mappings@, protocol, port);
    let devices = crate::instance::base_devices(
        cfg.incus.network.bridge@,
        "/home/container"@,
        server.base@,
    ).union_prefer_right(proxy_devices(server.allocations.mappings@));
    lemma_with_mounts_keys(devices, server.mounts@, key);
}

/// Every mount of a server stands among the devices of its instance, except where a later one's
/// place is written alike.
pub proof fn law_mounts_are_kept(devices: Map<Seq<char>, JsonView>, mounts: Seq<Mount>, i: int)
    requires
        0 <= i < mounts.len(),
        forall|j: int|
            i < j < mounts.len() ==> mount_key((#[trigger] mounts[j]).target@) != mount_key(
                mounts[i].target@,
            ),
    ensures
        with_mounts(devices, mounts).contains_key(mount_key(mounts[i].target@)),
        with_mounts(devices, mounts)[mount_key(mounts[i].target@)] == mount_device(mounts[i]),
    decreases mounts.len(),
{
    if i < mounts.len() - 1 {
        let rest = mounts.drop_last();
        assert(mounts[mounts.len() - 1] == mounts.last());
        assert forall|j: int| i < j < rest.len() implies mount_key((#[trigger] rest[j]).target@)
            != mount_key(rest[i].target@) by {
            assert(rest[j] == mounts[j]);
        }
        law_mounts_are_kept(devices, rest, i);
    }
}

/// Variables change nothing but what starts with an `e`.
proof fn lemma_with_variables_keys(
    config: Map<Seq<char>, Seq<char>>,
    variables: Seq<String>,
    key: Seq<char>,
)
    requires
        key.len() > 0,
        key[0] != 'e',
    ensures
        with_variables(config, variables).contains_key(key) <==> config.contains_key(key),
        config.contains_key(key) ==> with_variables(config, variables)[key] == config[key],
    decreases variables.len(),
{
    if variables.len() > 0 {
        lemma_with_variables_keys(config, variables.drop_last(), key);
        reveal_strlit("environment.");
        let variable = variables.last()@;
        let end = position(variable, '=');
        assert(("environment."@ + variable.take(end))[0] == 'e');
    }
}

/// A server's instance is unprivileged, holds no instances of its own, and lacks the dropped
/// capabilities, whatever its variables are.
pub proof fn law_server_is_confined(
    cfg: InnerConfig,
    server: ServerConfiguration,
    memory_bytes: u64,
)
    ensures
        ({
            let config = server_config(cfg, server, memory_bytes);
            &&& config.contains_key("security.nesting"@) && config["security.nesting"@]
                == "false"@
            &&& config.contains_key("security.privileged"@) && config["security.privileged"@]
                == "false"@
            &&& config.contains_key("raw.lxc"@) && DROPPED_CAPABILITIES@.is_suffix_of(
                config["raw.lxc"@],
            )
        }),
{
    reveal_strlit("security.nesting");
    reveal_strlit("security.privileged");
    reveal_strlit("raw.lxc");
    assert("security.nesting"@.len() == 16);
    assert("security.privileged"@.len() == 19);
    assert("raw.lxc"@.len() == 7);
    let raw = raw_settings(server.entrypoint);
    let capabilities = DROPPED_CAPABILITIES@;
    match server.entrypoint {
        Some(words) => {
            let front = "lxc.init.cmd = "@ + joined(words@, " "@) + "\n"@;
            assert(raw =~= front + capabilities);
            assert(raw.subrange(front.len() as int, raw.len() as int) =~= capabilities);
        },
        None => {
            assert(raw.subrange(0, raw.len() as int) =~= capabilities);
        },
    }
}

/// The keys that limit resources start with an `l`.
proof fn lemma_resource_keys(
    build: ServerConfigurationBuild,
    memory_bytes: u64,
    pid_limit: u64,
    key: Seq<char>,
)
    requires
        resource_config(build, memory_bytes, pid_limit).contains_key(key),
    ensures
        key.len() > 0,
        key[0] == 'l',
{
    reveal_strlit("limits.memory");
    reveal_strlit("limits.cpu.allowance");
    reveal_strlit("limits.cpu");
    reveal_strlit("limits.processes");
}

/// A server's instance is held to the limits of its resources, whatever its variables are.
pub proof fn law_server_limits_hold(
    cfg: InnerConfig,
    server: ServerConfiguration,
    memory_bytes: u64,
    key: Seq<char>,
)
    requires
        resource_config(
            server.build,
            memory_bytes,
            cfg.incus.container_pid_limit,
        ).contains_key(key),
    ensures
        server_config(cfg, server, memory_bytes).contains_key(key),
        server_config(cfg, server, memory_bytes)[key] == resource_config(
            server.build,
            memory_bytes,
            cfg.incus.container_pid_limit,
        )[key],
{
    let limits = resource_config(server.build, memory_bytes, cfg.incus.container_pid_limit);
    lemma_resource_keys(server.build, memory_bytes, cfg.incus.container_pid_limit, key);
    lemma_with_variables_keys(limits, server.environment@, key);
    reveal_strlit("security.nesting");
    reveal_strlit("security.privileged");
    reveal_strlit("raw.lxc");
    assert("security.nesting"@[0] == 's');
    assert("security.privileged"@[0] == 's');
    assert("raw.lxc"@[0] == 'r');
}

/// The name of a variable, as a key of a configuration.
pub open spec fn variable_key(variable: Seq<char>) -> Seq<char> {
    "environment."@ + variable.take(position(variable, '='))
}

/// Each variable of a server has its value in the configuration, except where a later one has the
/// same name.
pub proof fn law_variables_are_set(
    config: Map<Seq<char>, Seq<char>>,
    variables: Seq<String>,
    i: int,
)
    requires
        0 <= i < variables.len(),
        forall|j: int|
            i < j < variables.len() ==> variable_key((#[trigger] variables[j])@) != variable_key(
                variables[i]@,
            ),
    ensures
        with_variables(config, variables).contains_key(variable_key(variables[i]@)),
        with_variables(config, variables)[variable_key(variables[i]@)] == variables[i]@.skip(
            position(variables[i]@, '=') + 1,
        ),
    decreases variables.len(),
{
    if i < variables.len() - 1 {
        let rest = variables.drop_last();
        assert(variables[variables.len() - 1] == variables.last());
        assert forall|j: int| i < j < rest.len() implies variable_key((#[trigger] rest[j])@)
            != variable_key(rest[i]@) by {
            assert(rest[j] == variables[j]);
        }
        law_variables_are_set(config, rest, i);
    }
}

/// Named variables change nothing but what starts with an `e`.
proof fn lemma_with_named_variables_keys(
    config: Map<Seq<char>, Seq<char>>,
    variables: Seq<(Seq<char>, Seq<char>)>,
    key: Seq<char>,
)
    requires
        key.len() > 0,
        key[0] != 'e',
    ensures
        with_named_variables(config, variables).contains_key(key) <==> config.contains_key(key),
        config.contains_key(key) ==> with_named_variables(config, variables)[key] == config[key],
    decreases variables.len(),
{
    if variables.len() > 0 {
        lemma_with_named_variables_keys(config, variables.drop_last(), key);
        reveal_strlit("environment.");
        assert(("environment."@ + variables.last().0)[0] == 'e');
    }
}

/// The instance in which a script is run is held to the limits of installers, whatever the script's
/// variables are.
pub proof fn law_installer_limits_hold(
    cfg: InnerConfig,
    memory_bytes: u64,
    variables: Seq<(Seq<char>, Seq<char>)>,
)
    ensures
        ({
            let config = installer_config(cfg, memory_bytes, variables);
            &&& config.contains_key("limits.memory"@) && config["limits.memory"@]
                == decimal_text(memory_bytes as nat) + "B"@
            &&& config.contains_key("limits.cpu.allowance"@) && config["limits.cpu.allowance"@]
                == decimal_text(cfg.incus.installer_cpu as nat) + "%"@
        }),
{
    reveal_strlit("limits.memory");
    reveal_strlit("limits.cpu.allowance");
    assert("limits.memory"@.len() != "limits.cpu.allowance"@.len());
    let limits = installer_config(cfg, memory_bytes, Seq::empty());
    lemma_with_named_variables_keys(limits, variables, "limits.memory"@);
    lemma_with_named_variables_keys(limits, variables, "limits.cpu.allowance"@);
}

/// Each variable of a script has its text in the configuration of the instance in which it is run,
/// except where a later one has the same name.
pub proof fn law_named_variables_are_set(
    config: Map<Seq<char>, Seq<char>>,
    variables: Seq<(Seq<char>, Seq<char>)>,
    i: int,
)
    requires
        0 <= i < variables.len(),
        forall|j: int| i < j < variables.len() ==> (#[trigger] variables[j]).0 != variables[i].0,
    ensures
        with_named_variables(config, variables).contains_key("environment."@ + variables[i].0),
        with_named_variables(config, variables)["environment."@ + variables[i].0]
            == variables[i].1,
    decreases variables.len(),
{
    if i < variables.len() - 1 {
        let rest = variables.drop_last();
        let last = variables.last();
        assert(variables[variables.len() - 1] == last);
        law_named_variables_are_set(config, rest, i);
        let prefix = "environment."@;
        if prefix + last.0 == prefix + variables[i].0 {
            assert((prefix + last.0).skip(prefix.len() as int) =~= last.0);
            assert((prefix + variables[i].0).skip(prefix.len() as int) =~= variables[i].0);
        }
    }
}

} // verus!
