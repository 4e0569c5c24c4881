//! What the documents say from which instances are made.
use crate::config::{text_members, InnerConfig, Mount, ServerConfiguration, ServerConfigurationBuild};
use crate::guarantees::{
    last_address, law_mounts_are_kept, law_named_variables_are_set, law_ports_are_forwarded,
};
use crate::instance::{
    are_variables, base_devices, container, disk_device, image_source, installer_config, installer_devices,
    installer_instance, memory_of, mount_device, mount_key, nic_device, proxy_device,
    proxy_devices, proxy_key, resource_config, server_config, server_devices, server_instance,
    text_pairs, variable_texts, with_mounts, with_ports, with_variables, ScriptMounts,
    ScriptMountsView,
};
use crate::json::{displayed, Json, JsonView};
use crate::text::{
    decimal_text, joined, lemma_position, lemma_position_is, position, replaced_char, stripped_end,
    stripped_start,
};
use vstd::prelude::*;

verus! {

/// Each limit stands in the configuration exactly where its own setting asks for it, with that
/// setting's value, whatever the others are, and nothing else stands there.
pub proof fn law_limits_depend_on_their_own_settings(
    build: ServerConfigurationBuild,
    memory_bytes: u64,
    pid_limit: u64,
    key: Seq<char>,
)
    ensures
        ({
            let config = resource_config(build, memory_bytes, pid_limit);
            &&& config.contains_key("limits.memory"@) <==> build.memory_limit
                + build.overhead_memory > 0
            &&& config.contains_key("limits.memory"@) ==> config["limits.memory"@]
                == decimal_text(memory_bytes as nat) + "B"@
            &&& config.contains_key("limits.cpu.allowance"@) <==> build.cpu_limit > 0
            &&& config.contains_key("limits.cpu.allowance"@) ==> config["limits.cpu.allowance"@]
                == decimal_text(build.cpu_limit as nat) + "%"@
            &&& config.contains_key("limits.cpu"@) <==> build.threads is Some
            &&& config.contains_key("limits.cpu"@) ==> config["limits.cpu"@]
                == build.threads->0@
            &&& config.contains_key("limits.processes"@) <==> pid_limit > 0
            &&& config.contains_key("limits.processes"@) ==> config["limits.processes"@]
                == decimal_text(pid_limit as nat)
            &&& config.contains_key(key) ==> key == "limits.memory"@ || key
                == "limits.cpu.allowance"@ || key == "limits.cpu"@ || key == "limits.processes"@
        }),
        memory_of(build) == build.memory_limit + build.overhead_memory,
{
    reveal_strlit("limits.memory");
    reveal_strlit("limits.cpu.allowance");
    reveal_strlit("limits.cpu");
    reveal_strlit("limits.processes");
    assert("limits.memory"@.len() == 13);
    assert("limits.cpu.allowance"@.len() == 20);
    assert("limits.cpu"@.len() == 10);
    assert("limits.processes"@.len() == 16);
}

/// Some tildes.
pub open spec fn tildes(n: nat) -> Seq<char> {
    Seq::new(n, |i: int| '~')
}

/// Tildes behind a text that ends otherwise are stripped from it, and nothing else is.
proof fn lemma_tildes_are_stripped(s: Seq<char>, n: nat)
    requires
        s.len() > 0 ==> s.last() != '~',
    ensures
        stripped_end(s + tildes(n), '~') == s,
    decreases n,
{
    let whole = s + tildes(n);
    if n > 0 {
        assert(whole.drop_last() =~= s + tildes((n - 1) as nat));
        assert(whole.last() == '~');
        lemma_tildes_are_stripped(s, (n - 1) as nat);
    } else {
        assert(whole =~= s);
    }
}

/// The source of an image, as Incus takes it.
pub open spec fn oci_image(server: Seq<char>, alias: Seq<char>) -> JsonView {
    JsonView::Object(
        map![
            "type"@ => JsonView::Text("image"@),
            "protocol"@ => JsonView::Text("oci"@),
            "server"@ => JsonView::Text(server),
            "alias"@ => JsonView::Text(alias),
        ],
    )
}

/// An image whose name has a registry in front, that is a part with a dot or a colon before the first
/// slash, is taken from that registry, under all of the name that follows the slash. Tildes at the
/// end do not count.
pub proof fn law_images_come_from_their_registry(registry: Seq<char>, name: Seq<char>, n: nat)
    requires
        !registry.contains('/'),
        registry.contains('.') || registry.contains(':'),
        name.len() > 0 ==> name.last() != '~',
    ensures
        image_source(registry + seq!['/'] + name + tildes(n)) == oci_image(
            "https://"@ + registry,
            name,
        ),
{
    let image = registry + seq!['/'] + name;
    lemma_tildes_are_stripped(image, n);
    let slash = registry.len() as int;
    assert forall|k: int| 0 <= k < slash implies image[k] != '/' by {
        assert(image[k] == registry[k]);
        assert(registry.contains(registry[k]));
    }
    lemma_position_is(image, '/', slash);
    assert(image.take(slash) =~= registry);
    assert(image.skip(slash + 1) =~= name);
}

/// An image whose name has no registry in front is taken from Docker's, under all of its name. Tildes
/// at the end do not count.
pub proof fn law_other_images_come_from_docker(image: Seq<char>, n: nat)
    requires
        image.len() > 0 ==> image.last() != '~',
        forall|slash: int|
            0 <= slash < image.len() && #[trigger] image[slash] == '/' && !image.take(
                slash,
            ).contains('/') ==> !image.take(slash).contains('.') && !image.take(slash).contains(
                ':',
            ),
    ensures
        image_source(image + tildes(n)) == oci_image("https://docker.io"@, image),
{
    lemma_tildes_are_stripped(image, n);
    lemma_position(image, '/');
    let slash = position(image, '/');
    if slash < image.len() {
        assert(image[slash] == '/');
        assert(!image.take(slash).contains('/')) by {
            assert forall|k: int| 0 <= k < slash implies image.take(slash)[k] != '/' by {
                assert(image[k] != '/');
            }
        }
    }
}

/// What the device of a port, of the network and of a mounted directory says.
pub proof fn law_devices_say_what_they_are_for(
    protocol: Seq<char>,
    ip: Seq<char>,
    port: u16,
    bridge: Seq<char>,
    path: Seq<char>,
    source: Seq<char>,
    mount: Mount,
)
    ensures
        proxy_key(protocol, port) == "proxy-"@ + decimal_text(port as nat) + "-"@ + protocol,
        proxy_device(protocol, ip, port) == JsonView::Object(
            map![
                "type"@ => JsonView::Text("proxy"@),
                "listen"@ => JsonView::Text(
                    protocol + ":"@ + ip + ":"@ + decimal_text(port as nat),
                ),
                "connect"@ => JsonView::Text(
                    protocol + ":127.0.0.1:"@ + decimal_text(port as nat),
                ),
            ],
        ),
        nic_device(bridge) == JsonView::Object(
            map![
                "type"@ => JsonView::Text("nic"@),
                "name"@ => JsonView::Text("eth0"@),
                "network"@ => JsonView::Text(bridge),
            ],
        ),
        disk_device(path, source) == JsonView::Object(
            map![
                "type"@ => JsonView::Text("disk"@),
                "path"@ => JsonView::Text(path),
                "source"@ => JsonView::Text(source),
            ],
        ),
        mount_device(mount) == JsonView::Object(
            map![
                "type"@ => JsonView::Text("disk"@),
                "path"@ => JsonView::Text(mount.target@),
                "source"@ => JsonView::Text(mount.source@),
                "readonly"@ => JsonView::Bool(mount.read_only),
            ],
        ),
{
}

/// The name of a mount's device is `mount-` and the place, without the slashes and hyphens in front
/// of it and with a hyphen for each other slash.
pub proof fn law_mounts_are_named_by_their_place(front: Seq<char>, place: Seq<char>)
    requires
        forall|i: int| 0 <= i < front.len() ==> #[trigger] front[i] == '/' || front[i] == '-',
        place.len() > 0 ==> place[0] != '/' && place[0] != '-',
    ensures
        mount_key(front + place) == "mount-"@ + Seq::new(
            place.len(),
            |i: int|
                if place[i] == '/' {
                    '-'
                } else {
                    place[i]
                },
        ),
{
    let dashed = replaced_char(front + place, '/', '-');
    let rest = replaced_char(place, '/', '-');
    assert(dashed =~= replaced_char(front, '/', '-') + rest);
    lemma_hyphens_are_stripped(replaced_char(front, '/', '-'), rest);
    assert(rest =~= Seq::new(
        place.len(),
        |i: int|
            if place[i] == '/' {
                '-'
            } else {
                place[i]
            },
    ));
}

/// Hyphens before a text that starts otherwise are stripped from it, and nothing else is.
proof fn lemma_hyphens_are_stripped(front: Seq<char>, rest: Seq<char>)
    requires
        forall|i: int| 0 <= i < front.len() ==> #[trigger] front[i] == '-',
        rest.len() > 0 ==> rest[0] != '-',
    ensures
        stripped_start(front + rest, '-') == rest,
    decreases front.len(),
{
    if front.len() > 0 {
        assert((front + rest)[0] == front[0]);
        assert((front + rest).skip(1) =~= front.skip(1) + rest);
        assert forall|i: int| 0 <= i < front.skip(1).len() implies #[trigger] front.skip(1)[i]
            == '-' by {
            assert(front.skip(1)[i] == front[i + 1]);
        }
        lemma_hyphens_are_stripped(front.skip(1), rest);
    } else {
        assert(front + rest =~= rest);
    }
}

/// A device that the ports of one address add is one of theirs.
proof fn lemma_added_ports(
    devices: Map<Seq<char>, JsonView>,
    ip: Seq<char>,
    ports: Seq<u16>,
    key: Seq<char>,
) -> (port: u16)
    requires
        with_ports(devices, ip, ports).contains_key(key),
        !devices.contains_key(key),
    ensures
        key == proxy_key("tcp"@, port) || key == proxy_key("udp"@, port),
    decreases ports.len(),
{
    if ports.len() == 0 {
        0
    } else if key == proxy_key("tcp"@, ports.last()) || key == proxy_key("udp"@, ports.last()) {
        ports.last()
    } else {
        lemma_added_ports(devices, ip, ports.drop_last(), key)
    }
}

/// A device that forwards a port is one of a port's.
proof fn lemma_proxy_keys(mappings: Seq<(String, Vec<u16>)>, key: Seq<char>) -> (port: u16)
    requires
        proxy_devices(mappings).contains_key(key),
    ensures
        key == proxy_key("tcp"@, port) || key == proxy_key("udp"@, port),
    decreases mappings.len(),
{
    if mappings.len() == 0 {
        0
    } else {
        let rest = proxy_devices(mappings.drop_last());
        if rest.contains_key(key) {
            lemma_proxy_keys(mappings.drop_last(), key)
        } else {
            lemma_added_ports(rest, mappings.last().0@, mappings.last().1@, key)
        }
    }
}

/// Every device that forwards something forwards an allocated port.
pub proof fn law_only_allocated_ports_are_forwarded(
    mappings: Seq<(String, Vec<u16>)>,
    key: Seq<char>,
)
    requires
        proxy_devices(mappings).contains_key(key),
    ensures
        exists|port: u16|
            last_address(mappings, port) is Some && (key == #[trigger] proxy_key("tcp"@, port)
                || key == proxy_key("udp"@, port)),
{
    let port = lemma_proxy_keys(mappings, key);
    law_ports_are_forwarded(mappings, "tcp"@, port);
    law_ports_are_forwarded(mappings, "udp"@, port);
    assert(key == proxy_key("tcp"@, port) || key == proxy_key("udp"@, port));
}

/// A device that the mounts add is one of theirs.
proof fn lemma_added_mounts(devices: Map<Seq<char>, JsonView>, mounts: Seq<Mount>, key: Seq<char>)
    requires
        with_mounts(devices, mounts).contains_key(key),
        !devices.contains_key(key),
    ensures
        exists|i: int| 0 <= i < mounts.len() && mount_key((#[trigger] mounts[i]).target@) == key,
    decreases mounts.len(),
{
    if mounts.len() > 0 {
        if mount_key(mounts.last().target@) == key {
            assert(mount_key(mounts[mounts.len() - 1].target@) == key);
        } else {
            let rest = mounts.drop_last();
            lemma_added_mounts(devices, rest, key);
            let i = choose|i: int|
                0 <= i < rest.len() && mount_key((#[trigger] rest[i]).target@) == key;
            assert(mount_key(mounts[i].target@) == key);
        }
    }
}

/// The devices of a server's instance are its network, its directory, those of its ports and its
/// mounts, and no others.
pub proof fn law_server_has_no_other_devices(
    cfg: InnerConfig,
    server: ServerConfiguration,
    key: Seq<char>,
)
    requires
        server_devices(cfg, server).contains_key(key),
    ensures
        ({
            ||| key == "eth0"@
            ||| key == "server-data"@
            ||| exists|port: u16|
                last_address(server.allocations.mappings@, port) is Some && (key
                    == #[trigger] proxy_key("tcp"@, port) || key == proxy_key("udp"@, port))
            ||| exists|i: int|
                0 <= i < server.mounts@.len() && mount_key((#[trigger] server.mounts@[i]).target@)
                    == key
        }),
{
    let mappings = server.allocations.mappings@;
    let base = base_devices(cfg.incus.network.bridge@, "/home/container"@, server.base@);
    let devices = base.union_prefer_right(proxy_devices(mappings));
    if !devices.contains_key(key) {
        lemma_added_mounts(devices, server.mounts@, key);
    } else if proxy_devices(mappings).contains_key(key) {
        law_only_allocated_ports_are_forwarded(mappings, key);
    }
}

/// Of a server's variables, each written as a name, an equals sign and a value, the value of each is
/// set whole under its whole name, except where a later one has the same name. The name ends at the
/// first equals sign.
pub proof fn law_variables_are_names_and_values(
    config: Map<Seq<char>, Seq<char>>,
    variables: Seq<String>,
    name: Seq<char>,
    value: Seq<char>,
    i: int,
)
    requires
        0 <= i < variables.len(),
        !name.contains('='),
        variables[i]@ == name + seq!['='] + value,
        forall|j: int|
            i < j < variables.len() ==> !(name + seq!['=']).is_prefix_of(
                (#[trigger] variables[j])@,
            ) && variables[j]@.contains('='),
    ensures
        with_variables(config, variables).contains_key("environment."@ + name),
        with_variables(config, variables)["environment."@ + name] == value,
    decreases variables.len(),
{
    let last = variables.last()@;
    let end = position(last, '=');
    lemma_position(last, '=');
    let key = "environment."@ + name;
    if i == variables.len() - 1 {
        assert forall|k: int| 0 <= k < name.len() implies last[k] != '=' by {
            assert(last[k] == name[k]);
            assert(name.contains(name[k]));
        }
        lemma_position_is(last, '=', name.len() as int);
        assert(last.take(end) =~= name);
        assert(last.skip(end + 1) =~= value);
    } else {
        let rest = variables.drop_last();
        assert forall|j: int| i < j < rest.len() implies !(name + seq!['=']).is_prefix_of(
            (#[trigger] rest[j])@,
        ) && rest[j]@.contains('=') by {
            assert(rest[j] == variables[j]);
        }
        law_variables_are_names_and_values(config, rest, name, value, i);
        assert(variables[variables.len() - 1]@ == last);
        assert(last.contains('='));
        if "environment."@ + last.take(end) == key {
            let front = "environment."@;
            assert((front + last.take(end)).skip(front.len() as int) =~= last.take(end));
            assert(key.skip(front.len() as int) =~= name);
            assert(last[end] == '=');
            assert((name + seq!['=']) =~= last.take(end + 1));
            assert((name + seq!['=']).is_prefix_of(last));
        }
    }
}

/// Variables set nothing but `environment.` keys of their own names.
pub proof fn law_variables_set_nothing_else(
    config: Map<Seq<char>, Seq<char>>,
    variables: Seq<String>,
    key: Seq<char>,
)
    requires
        forall|i: int, k: int|
            0 <= i < variables.len() && 0 <= k < variables[i]@.len() && #[trigger] variables[i]@[k]
                == '=' ==> key != "environment."@ + variables[i]@.take(k),
        forall|i: int| 0 <= i < variables.len() ==> (#[trigger] variables[i])@.contains('='),
    ensures
        with_variables(config, variables).contains_key(key) <==> config.contains_key(key),
        config.contains_key(key) ==> with_variables(config, variables)[key] == config[key],
    decreases variables.len(),
{
    if variables.len() > 0 {
        let rest = variables.drop_last();
        assert forall|i: int, k: int|
            0 <= i < rest.len() && 0 <= k < rest[i]@.len() && #[trigger] rest[i]@[k]
                == '=' implies key != "environment."@ + rest[i]@.take(k) by {
            assert(variables[i]@[k] == '=');
        }
        assert forall|i: int| 0 <= i < rest.len() implies (#[trigger] rest[i])@.contains('=') by {
            assert(rest[i] == variables[i]);
        }
        law_variables_set_nothing_else(config, rest, key);
        let n = variables.len() - 1;
        let last = variables[n]@;
        assert(last.contains('='));
        lemma_position(last, '=');
        let end = position(last, '=');
        assert(variables[n]@[end] == '=');
        assert(key != "environment."@ + last.take(end));
    }
}

/// The configuration of a server's instance is that of its limits and its variables, but for three
/// settings that are the same for every server, with the entrypoint before them where there is one.
pub proof fn law_server_configuration(
    cfg: InnerConfig,
    server: ServerConfiguration,
    memory_bytes: u64,
    key: Seq<char>,
)
    requires
        key != "security.nesting"@,
        key != "security.privileged"@,
        key != "raw.lxc"@,
    ensures
        ({
            let config = server_config(cfg, server, memory_bytes);
            let given = with_variables(
                resource_config(server.build, memory_bytes, cfg.incus.container_pid_limit),
                server.environment@,
            );
            let capabilities = "lxc.cap.drop = setpcap mknod audit_write net_raw dac_override fowner fsetid net_bind_service sys_chroot setfcap sys_ptrace"@;
            &&& config.contains_key(key) <==> given.contains_key(key)
            &&& config.contains_key(key) ==> config[key] == given[key]
            &&& config.contains_key("raw.lxc"@)
            &&& config["raw.lxc"@] == match server.entrypoint {
                Some(words) => "lxc.init.cmd = "@ + joined(words@, " "@) + "\n"@ + capabilities,
                None => capabilities,
            }
            &&& config.contains_key("security.nesting"@)
            &&& config["security.nesting"@] == "false"@
            &&& config.contains_key("security.privileged"@)
            &&& config["security.privileged"@] == "false"@
        }),
{
    reveal_strlit("security.nesting");
    reveal_strlit("security.privileged");
    reveal_strlit("raw.lxc");
    assert("security.nesting"@.len() == 16);
    assert("security.privileged"@.len() == 19);
    assert("raw.lxc"@.len() == 7);
}

/// A document that makes a container says its name, where its image comes from, its configuration and
/// its devices, each whole; that of a server says those of the server, and that of a script those of
/// the script.
pub proof fn law_documents_say_what_they_make(
    name: Seq<char>,
    image: Seq<char>,
    config: Map<Seq<char>, Seq<char>>,
    devices: Map<Seq<char>, JsonView>,
    cfg: InnerConfig,
    server: ServerConfiguration,
    memory_bytes: u64,
    variables: Seq<(Seq<char>, Seq<char>)>,
    mounts: ScriptMountsView,
)
    ensures
        container(name, image, config, devices) == JsonView::Object(
            map![
                "name"@ => JsonView::Text(name),
                "type"@ => JsonView::Text("container"@),
                "source"@ => image_source(image),
                "config"@ => JsonView::Object(text_members(config)),
                "devices"@ => JsonView::Object(devices),
            ],
        ),
        server_instance(name, cfg, server, memory_bytes) == container(
            name,
            server.image@,
            server_config(cfg, server, memory_bytes),
            server_devices(cfg, server),
        ),
        installer_instance(name, cfg, image, variables, memory_bytes, mounts) == container(
            name,
            image,
            installer_config(cfg, memory_bytes, variables),
            installer_devices(cfg, mounts),
        ),
{
}

/// The instance in which a script is run has three devices: the network, the server's directory and
/// the script's, each where it is to stand.
pub proof fn law_script_devices(cfg: InnerConfig, mounts: ScriptMountsView)
    ensures
        installer_devices(cfg, mounts) == map![
            "eth0"@ => nic_device(cfg.incus.network.bridge@),
            "server-data"@ => disk_device(mounts.server_mount_target, mounts.base),
            "install-scripts"@ => disk_device(
                mounts.script_mount_target,
                mounts.script_mount_source,
            ),
        ],
{
}

/// Besides its two limits, a script's configuration holds its variables and nothing else.
pub proof fn law_script_configuration_holds_nothing_else(
    cfg: InnerConfig,
    memory_bytes: u64,
    variables: Seq<(Seq<char>, Seq<char>)>,
    key: Seq<char>,
)
    requires
        installer_config(cfg, memory_bytes, variables).contains_key(key),
    ensures
        ({
            ||| key == "limits.memory"@
            ||| key == "limits.cpu.allowance"@
            ||| exists|i: int|
                0 <= i < variables.len() && key == "environment."@ + (#[trigger] variables[i]).0
        }),
    decreases variables.len(),
{
    if variables.len() > 0 {
        let rest = variables.drop_last();
        if key == "environment."@ + variables.last().0 {
            assert(key == "environment."@ + variables[variables.len() - 1].0);
        } else {
            law_script_configuration_holds_nothing_else(cfg, memory_bytes, rest, key);
            if exists|i: int|
                0 <= i < rest.len() && key == "environment."@ + (#[trigger] rest[i]).0 {
                let i = choose|i: int|
                    0 <= i < rest.len() && key == "environment."@ + (#[trigger] rest[i]).0;
                assert(key == "environment."@ + variables[i].0);
            }
        }
    }
}

/// Each variable of a script is taken with its name and its value: a text as it is, and any other
/// value as it is displayed.
pub proof fn law_script_variables_are_taken_whole(environment: Seq<(String, Json)>, i: int)
    requires
        0 <= i < environment.len(),
    ensures
        variable_texts(environment).len() == environment.len(),
        variable_texts(environment)[i].0 == environment[i].0@,
        variable_texts(environment)[i].1 == match environment[i].1@ {
            JsonView::Text(text) => text,
            other => displayed(other),
        },
{
}

/// Pairs of texts are read as they are, one for one.
pub proof fn law_pairs_are_taken_whole(pairs: Seq<(String, String)>, i: int)
    requires
        0 <= i < pairs.len(),
    ensures
        text_pairs(pairs).len() == pairs.len(),
        text_pairs(pairs)[i] == (pairs[i].0@, pairs[i].1@),
{
}

/// A port is forwarded from the last of the addresses that it stands under, for both protocols.
pub proof fn law_ports_are_forwarded_from_the_last_address(
    mappings: Seq<(String, Vec<u16>)>,
    protocol: Seq<char>,
    port: u16,
    i: int,
)
    requires
        protocol == "tcp"@ || protocol == "udp"@,
        0 <= i < mappings.len(),
        mappings[i].1@.contains(port),
        forall|j: int| i < j < mappings.len() ==> !(#[trigger] mappings[j]).1@.contains(port),
    ensures
        proxy_devices(mappings).contains_key(proxy_key(protocol, port)),
        proxy_devices(mappings)[proxy_key(protocol, port)] == proxy_device(
            protocol,
            mappings[i].0@,
            port,
        ),
{
    law_ports_are_forwarded(mappings, protocol, port);
    lemma_last_address(mappings, port, i);
}

/// The last address that a port stands under is that of the last mapping that holds it.
proof fn lemma_last_address(mappings: Seq<(String, Vec<u16>)>, port: u16, i: int)
    requires
        0 <= i < mappings.len(),
        mappings[i].1@.contains(port),
        forall|j: int| i < j < mappings.len() ==> !(#[trigger] mappings[j]).1@.contains(port),
    ensures
        last_address(mappings, port) == Some(mappings[i].0@),
    decreases mappings.len(),
{
    assert(mappings[mappings.len() - 1] == mappings.last());
    if i < mappings.len() - 1 {
        let rest = mappings.drop_last();
        assert forall|j: int| i < j < rest.len() implies !(#[trigger] rest[j]).1@.contains(port) by {
            assert(rest[j] == mappings[j]);
        }
        lemma_last_address(rest, port, i);
    }
}

/// A port that stands under no address is not forwarded.
pub proof fn law_other_ports_are_not_forwarded(
    mappings: Seq<(String, Vec<u16>)>,
    protocol: Seq<char>,
    port: u16,
)
    requires
        protocol == "tcp"@ || protocol == "udp"@,
        forall|j: int| 0 <= j < mappings.len() ==> !(#[trigger] mappings[j]).1@.contains(port),
    ensures
        !proxy_devices(mappings).contains_key(proxy_key(protocol, port)),
{
    law_ports_are_forwarded(mappings, protocol, port);
}

/// Where a script's directories stand is taken as it is.
pub proof fn law_script_mounts_are_taken_whole(mounts: ScriptMounts)
    ensures
        mounts@.base == mounts.base@,
        mounts@.server_mount_target == mounts.server_mount_target@,
        mounts@.script_mount_source == mounts.script_mount_source@,
        mounts@.script_mount_target == mounts.script_mount_target@,
{
}

/// Every mount of a server stands among the devices of its instance, except where a later one's
/// device has the same name.
pub proof fn law_server_mounts_are_kept(cfg: InnerConfig, server: ServerConfiguration, i: int)
    requires
        0 <= i < server.mounts@.len(),
        forall|j: int|
            i < j < server.mounts@.len() ==> mount_key((#[trigger] server.mounts@[j]).target@)
                != mount_key(server.mounts@[i].target@),
    ensures
        server_devices(cfg, server).contains_key(mount_key(server.mounts@[i].target@)),
        server_devices(cfg, server)[mount_key(server.mounts@[i].target@)] == mount_device(
            server.mounts@[i],
        ),
{
    let devices = base_devices(
        cfg.incus.network.bridge@,
        "/home/container"@,
        server.base@,
    ).union_prefer_right(proxy_devices(server.allocations.mappings@));
    law_mounts_are_kept(devices, server.mounts@, i);
}

/// Every variable of a server is set in the configuration of its instance, with its whole name and
/// value, except where a later one has the same name.
pub proof fn law_server_variables_are_set(
    cfg: InnerConfig,
    server: ServerConfiguration,
    memory_bytes: u64,
    name: Seq<char>,
    value: Seq<char>,
    i: int,
)
    requires
        0 <= i < server.environment@.len(),
        !name.contains('='),
        server.environment@[i]@ == name + seq!['='] + value,
        forall|j: int|
            i < j < server.environment@.len() ==> !(name + seq!['=']).is_prefix_of(
                (#[trigger] server.environment@[j])@,
            ) && server.environment@[j]@.contains('='),
    ensures
        server_config(cfg, server, memory_bytes).contains_key("environment."@ + name),
        server_config(cfg, server, memory_bytes)["environment."@ + name] == value,
{
    let limits = resource_config(server.build, memory_bytes, cfg.incus.container_pid_limit);
    law_variables_are_names_and_values(limits, server.environment@, name, value, i);
    reveal_strlit("environment.");
    reveal_strlit("security.nesting");
    reveal_strlit("security.privileged");
    reveal_strlit("raw.lxc");
    let key = "environment."@ + name;
    assert(key[0] == 'e');
    assert("security.nesting"@[0] == 's');
    assert("security.privileged"@[0] == 's');
    assert("raw.lxc"@[0] == 'r');
}

/// Every variable of a script is set in the configuration of its instance, with its whole name and
/// text, except where a later one has the same name.
pub proof fn law_script_variables_are_set(
    cfg: InnerConfig,
    memory_bytes: u64,
    variables: Seq<(Seq<char>, Seq<char>)>,
    i: int,
)
    requires
        0 <= i < variables.len(),
        forall|j: int| i < j < variables.len() ==> (#[trigger] variables[j]).0 != variables[i].0,
    ensures
        installer_config(cfg, memory_bytes, variables).contains_key(
            "environment."@ + variables[i].0,
        ),
        installer_config(cfg, memory_bytes, variables)["environment."@ + variables[i].0]
            == variables[i].1,
{
    law_named_variables_are_set(
        installer_config(cfg, memory_bytes, Seq::empty()),
        variables,
        i,
    );
}

/// Variables are what an instance can be made with as soon as each holds an equals sign.
pub proof fn law_any_variables_with_equals_signs_do(variables: Seq<String>)
    requires
        forall|i: int| 0 <= i < variables.len() ==> (#[trigger] variables[i])@.contains('='),
    ensures
        are_variables(variables),
{
}

} // verus!
