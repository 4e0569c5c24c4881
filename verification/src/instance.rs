//! The documents from which instances are made.
use crate::config::{
    text_members, ConfigTable, InnerConfig, Mount, ServerConfiguration,
    ServerConfigurationAllocations, ServerConfigurationBuild,
};
use crate::json::{displayed, Json, JsonView, Members};
use crate::text::{
    chars_of, decimal, decimal_text, find_char, join2, join3, join4, join_words, joined,
    lemma_position, position, replace_char, replaced_char, string_of, strip_end, strip_start,
    stripped_end, stripped_start,
};
use vstd::prelude::*;

verus! {

/// An object with the given members.
pub open spec fn object(members: Map<Seq<char>, JsonView>) -> JsonView {
    JsonView::Object(members)
}

/// No members.
pub open spec fn no_members() -> Map<Seq<char>, JsonView> {
    Map::empty()
}

/// The image with the given alias on the given server.
pub open spec fn image_on(server: Seq<char>, alias: Seq<char>) -> JsonView {
    object(
        no_members().insert("type"@, JsonView::Text("image"@)).insert(
            "protocol"@,
            JsonView::Text("oci"@),
        ).insert("server"@, JsonView::Text(server)).insert("alias"@, JsonView::Text(alias)),
    )
}

/// The source of an image that is named as Docker names images. Tildes at the end do not count.
/// What stands before the first slash is a registry where it holds a dot or a colon; otherwise the
/// image is one of Docker's own registry.
pub open spec fn image_source(image: Seq<char>) -> JsonView {
    let name = stripped_end(image, '~');
    let slash = position(name, '/');
    let registry = name.take(slash);
    if slash < name.len() && (registry.contains('.') || registry.contains(':')) {
        image_on("https://"@ + registry, name.skip(slash + 1))
    } else {
        image_on("https://docker.io"@, name)
    }
}

/// The first `end` characters hold `c`.
fn holds_char(chars: &Vec<char>, end: usize, c: char) -> (r: bool)
    requires
        end <= chars@.len(),
    ensures
        r == chars@.take(end as int).contains(c),
{
    let i: usize = find_char(chars, c);
    proof {
        lemma_position(chars@, c);
        if i < end {
            assert(chars@.take(end as int)[i as int] == c);
        }
    }
    i < end
}

/// The source of an image that is named as Docker names images.
pub fn parse_image_source(image: &str) -> (r: Json)
    ensures
        r@ == image_source(image@),
{
    let name = strip_end(image, '~');
    let chars = chars_of(name.as_str());
    let slash: usize = find_char(&chars, '/');
    proof {
        lemma_position(name@, '/');
    }
    let total: usize = chars.len();
    let (server, alias): (String, String) = if slash < total && (holds_char(&chars, slash, '.')
        || holds_char(&chars, slash, ':')) {
        let registry = string_of(&chars, 0, slash);
        let alias = string_of(&chars, slash + 1, total);
        assert(registry@ =~= name@.take(slash as int));
        assert(alias@ =~= name@.skip(slash + 1));
        (join2("https://", registry.as_str()), alias)
    } else {
        ("https://docker.io".to_string(), name)
    };
    Json::Object(
        Members::new().with_text("type", "image").with_text("protocol", "oci").with_text(
            "server",
            server.as_str(),
        ).with_text("alias", alias.as_str()),
    )
}

/// A server's memory, as far as it is limited.
pub open spec fn memory_of(build: ServerConfigurationBuild) -> int {
    build.memory_limit + build.overhead_memory
}

/// The memory that a server's limit is computed from, where its memory is limited.
pub fn real_memory(build: &ServerConfigurationBuild) -> (r: Option<i64>)
    requires
        i64::MIN <= memory_of(*build) <= i64::MAX,
    ensures
        match r {
            Some(memory) => memory == memory_of(*build) && memory > 0,
            None => memory_of(*build) <= 0,
        },
{
    let memory: i64 = build.memory_limit + build.overhead_memory;
    if memory > 0 {
        Some(memory)
    } else {
        None
    }
}

/// The table with one more entry where the condition holds.
pub open spec fn insert_if(
    table: Map<Seq<char>, Seq<char>>,
    condition: bool,
    key: Seq<char>,
    value: Seq<char>,
) -> Map<Seq<char>, Seq<char>> {
    if condition {
        table.insert(key, value)
    } else {
        table
    }
}

/// The configuration that limits an instance's resources. The memory limit, in bytes, counts only
/// where the server's memory is limited.
pub open spec fn resource_config(
    build: ServerConfigurationBuild,
    memory_bytes: u64,
    pid_limit: u64,
) -> Map<Seq<char>, Seq<char>> {
    let memory = insert_if(
        Map::empty(),
        memory_of(build) > 0,
        "limits.memory"@,
        decimal_text(memory_bytes as nat) + "B"@,
    );
    let share = insert_if(
        memory,
        build.cpu_limit > 0,
        "limits.cpu.allowance"@,
        decimal_text(build.cpu_limit as nat) + "%"@,
    );
    let cpus = match build.threads {
        Some(threads) => share.insert("limits.cpu"@, threads@),
        None => share,
    };
    insert_if(cpus, pid_limit > 0, "limits.processes"@, decimal_text(pid_limit as nat))
}

/// The configuration that limits an instance's resources.
pub fn build_resource_config(
    build: &ServerConfigurationBuild,
    memory_bytes: u64,
    pid_limit: u64,
) -> (r: ConfigTable)
    requires
        i64::MIN <= memory_of(*build) <= i64::MAX,
    ensures
        r@ == resource_config(*build, memory_bytes, pid_limit),
{
    let mut config = ConfigTable::new();
    if real_memory(build).is_some() {
        config.set("limits.memory", join2(decimal(memory_bytes).as_str(), "B").as_str());
    }
    if build.cpu_limit > 0 {
        config.set(
            "limits.cpu.allowance",
            join2(decimal(build.cpu_limit as u64).as_str(), "%").as_str(),
        );
    }
    match &build.threads {
        Some(threads) => config.set("limits.cpu", threads.as_str()),
        None => {},
    }
    if pid_limit > 0 {
        config.set("limits.processes", decimal(pid_limit).as_str());
    }
    config
}

/// The name of the device that forwards a port.
pub open spec fn proxy_key(protocol: Seq<char>, port: u16) -> Seq<char> {
    "proxy-"@ + decimal_text(port as nat) + "-"@ + protocol
}

/// The device that forwards a port of the given address to the same port of the instance.
pub open spec fn proxy_device(protocol: Seq<char>, ip: Seq<char>, port: u16) -> JsonView {
    object(
        no_members().insert("type"@, JsonView::Text("proxy"@)).insert(
            "listen"@,
            JsonView::Text(protocol + ":"@ + ip + ":"@ + decimal_text(port as nat)),
        ).insert(
            "connect"@,
            JsonView::Text(protocol + ":127.0.0.1:"@ + decimal_text(port as nat)),
        ),
    )
}

/// The devices with those that forward the ports of one address. Each port is forwarded for TCP
/// and for UDP.
pub open spec fn with_ports(
    devices: Map<Seq<char>, JsonView>,
    ip: Seq<char>,
    ports: Seq<u16>,
) -> Map<Seq<char>, JsonView>
    decreases ports.len(),
{
    if ports.len() == 0 {
        devices
    } else {
        with_ports(devices, ip, ports.drop_last()).insert(
            proxy_key("tcp"@, ports.last()),
            proxy_device("tcp"@, ip, ports.last()),
        ).insert(
            proxy_key("udp"@, ports.last()),
            proxy_device("udp"@, ip, ports.last()),
        )
    }
}

/// The devices that forward a server's ports. Where a port stands under several addresses, the
/// last one counts.
pub open spec fn proxy_devices(mappings: Seq<(String, Vec<u16>)>) -> Map<Seq<char>, JsonView>
    decreases mappings.len(),
{
    if mappings.len() == 0 {
        no_members()
    } else {
        with_ports(
            proxy_devices(mappings.drop_last()),
            mappings.last().0@,
            mappings.last().1@,
        )
    }
}

/// The device that forwards a port for one protocol.
fn build_proxy_device(protocol: &str, ip: &str, port: u16) -> (r: Json)
    ensures
        r@ == proxy_device(protocol@, ip@, port),
{
    let number = decimal(port as u64);
    let listen = join2(join4(protocol, ":", ip, ":").as_str(), number.as_str());
    let connect = join3(protocol, ":127.0.0.1:", number.as_str());
    Json::Object(
        Members::new().with_text("type", "proxy").with_text("listen", listen.as_str()).with_text(
            "connect",
            connect.as_str(),
        ),
    )
}

/// Adds the devices that forward the ports of one address.
fn add_ports(devices: &mut Members, ip: &str, ports: &Vec<u16>)
    ensures
        final(devices)@ == with_ports(old(devices)@, ip@, ports@),
{
    let ghost before = devices@;
    for i in 0..ports.len()
        invariant
            devices@ == with_ports(before, ip@, ports@.take(i as int)),
    {
        let number = decimal(ports[i] as u64);
        let tcp_key = join4("proxy-", number.as_str(), "-", "tcp");
        let udp_key = join4("proxy-", number.as_str(), "-", "udp");
        devices.set(tcp_key.as_str(), build_proxy_device("tcp", ip, ports[i]));
        devices.set(udp_key.as_str(), build_proxy_device("udp", ip, ports[i]));
        assert(ports@.take(i + 1).drop_last() =~= ports@.take(i as int));
    }
    assert(ports@.take(ports@.len() as int) =~= ports@);
}

/// The devices that forward a server's ports.
pub fn build_proxy_devices(allocations: &ServerConfigurationAllocations) -> (r: Members)
    ensures
        r@ == proxy_devices(allocations.mappings@),
{
    let mut devices = Members::new();
    let mappings = &allocations.mappings;
    for i in 0..mappings.len()
        invariant
            mappings == allocations.mappings,
            devices@ == proxy_devices(mappings@.take(i as int)),
    {
        assert(mappings@.take(i + 1).drop_last() =~= mappings@.take(i as int));
        add_ports(&mut devices, mappings[i].0.as_str(), &mappings[i].1);
    }
    assert(mappings@.take(mappings@.len() as int) =~= mappings@);
    devices
}

/// The device that connects an instance to a bridge.
pub open spec fn nic_device(bridge: Seq<char>) -> JsonView {
    object(
        no_members().insert("type"@, JsonView::Text("nic"@)).insert(
            "name"@,
            JsonView::Text("eth0"@),
        ).insert("network"@, JsonView::Text(bridge)),
    )
}

/// The device that connects an instance to a bridge.
pub fn build_nic_device(bridge: &str) -> (r: Json)
    ensures
        r@ == nic_device(bridge@),
{
    Json::Object(
        Members::new().with_text("type", "nic").with_text("name", "eth0").with_text(
            "network",
            bridge,
        ),
    )
}

/// The configuration with a server's variables, each written `NAME=value`. Of several with one name
/// the last one counts.
pub open spec fn with_variables(
    config: Map<Seq<char>, Seq<char>>,
    variables: Seq<String>,
) -> Map<Seq<char>, Seq<char>>
    decreases variables.len(),
{
    if variables.len() == 0 {
        config
    } else {
        let variable = variables.last()@;
        let end = position(variable, '=');
        with_variables(config, variables.drop_last()).insert(
            "environment."@ + variable.take(end),
            variable.skip(end + 1),
        )
    }
}

/// Each variable is written `NAME=value`.
pub open spec fn are_variables(variables: Seq<String>) -> bool {
    forall|i: int| 0 <= i < variables.len() ==> (#[trigger] variables[i])@.contains('=')
}

/// Adds a server's variables to a configuration.
fn add_variables(config: &mut ConfigTable, variables: &Vec<String>)
    requires
        are_variables(variables@),
    ensures
        final(config)@ == with_variables(old(config)@, variables@),
{
    let ghost before = config@;
    for i in 0..variables.len()
        invariant
            are_variables(variables@),
            config@ == with_variables(before, variables@.take(i as int)),
    {
        let chars = chars_of(variables[i].as_str());
        let end: usize = find_char(&chars, '=');
        proof {
            lemma_position(chars@, '=');
            assert(variables@[i as int]@.contains('='));
        }
        let name = string_of(&chars, 0, end);
        let value = string_of(&chars, end + 1, chars.len());
        config.set(join2("environment.", name.as_str()).as_str(), value.as_str());
        proof {
            assert(name@ =~= chars@.take(end as int));
            assert(value@ =~= chars@.skip(end + 1));
            assert(variables@.take(i + 1).drop_last() =~= variables@.take(i as int));
        }
    }
    assert(variables@.take(variables@.len() as int) =~= variables@);
}

/// The setting that takes capabilities away from an instance.
pub const DROPPED_CAPABILITIES: &'static str = "lxc.cap.drop = setpcap mknod audit_write net_raw dac_override fowner fsetid net_bind_service sys_chroot setfcap sys_ptrace";

/// The settings of an instance that Incus hands on to LXC.
pub open spec fn raw_settings(entrypoint: Option<Vec<String>>) -> Seq<char> {
    match entrypoint {
        Some(words) => "lxc.init.cmd = "@ + joined(words@, " "@) + "\n"@ + DROPPED_CAPABILITIES@,
        None => DROPPED_CAPABILITIES@,
    }
}

/// The configuration of a server's instance.
pub open spec fn server_config(
    cfg: InnerConfig,
    server: ServerConfiguration,
    memory_bytes: u64,
) -> Map<Seq<char>, Seq<char>> {
    with_variables(
        resource_config(server.build, memory_bytes, cfg.incus.container_pid_limit),
        server.environment@,
    ).insert("security.nesting"@, "false"@).insert("security.privileged"@, "false"@).insert(
        "raw.lxc"@,
        raw_settings(server.entrypoint),
    )
}

/// The configuration of a server's instance.
fn build_server_config(
    cfg: &InnerConfig,
    server: &ServerConfiguration,
    memory_bytes: u64,
) -> (r: ConfigTable)
    requires
        i64::MIN <= memory_of(server.build) <= i64::MAX,
        are_variables(server.environment@),
    ensures
        r@ == server_config(*cfg, *server, memory_bytes),
{
    let mut config = build_resource_config(
        &server.build,
        memory_bytes,
        cfg.incus.container_pid_limit,
    );
    add_variables(&mut config, &server.environment);
    config.set("security.nesting", "false");
    config.set("security.privileged", "false");
    match &server.entrypoint {
        Some(words) => {
            let command = join_words(words, " ");
            config.set(
                "raw.lxc",
                join4("lxc.init.cmd = ", command.as_str(), "\n", DROPPED_CAPABILITIES).as_str(),
            );
        },
        None => config.set("raw.lxc", DROPPED_CAPABILITIES),
    }
    config
}

/// The device that mounts a directory of the host.
pub open spec fn disk_device(path: Seq<char>, source: Seq<char>) -> JsonView {
    object(disk_members(path, source))
}

/// What is said of every mounted directory.
pub open spec fn disk_members(path: Seq<char>, source: Seq<char>) -> Map<Seq<char>, JsonView> {
    no_members().insert("type"@, JsonView::Text("disk"@)).insert(
        "path"@,
        JsonView::Text(path),
    ).insert("source"@, JsonView::Text(source))
}

/// What is said of every mounted directory.
fn build_disk(path: &str, source: &str) -> (r: Members)
    ensures
        r@ == disk_members(path@, source@),
{
    Members::new().with_text("type", "disk").with_text("path", path).with_text("source", source)
}

/// The name of the device that mounts a directory at the given place: the place, with hyphens for
/// its slashes and none of them at the start.
pub open spec fn mount_key(target: Seq<char>) -> Seq<char> {
    "mount-"@ + stripped_start(replaced_char(target, '/', '-'), '-')
}

/// The device that mounts a directory as a server's configuration asks for.
pub open spec fn mount_device(mount: Mount) -> JsonView {
    object(
        disk_members(mount.target@, mount.source@).insert(
            "readonly"@,
            JsonView::Bool(mount.read_only),
        ),
    )
}

/// The devices with those that mount directories. Of several with one name the last one counts.
pub open spec fn with_mounts(
    devices: Map<Seq<char>, JsonView>,
    mounts: Seq<Mount>,
) -> Map<Seq<char>, JsonView>
    decreases mounts.len(),
{
    if mounts.len() == 0 {
        devices
    } else {
        with_mounts(devices, mounts.drop_last()).insert(
            mount_key(mounts.last().target@),
            mount_device(mounts.last()),
        )
    }
}

/// Adds the devices that mount directories.
fn add_mounts(devices: &mut Members, mounts: &Vec<Mount>)
    ensures
        final(devices)@ == with_mounts(old(devices)@, mounts@),
{
    let ghost before = devices@;
    for i in 0..mounts.len()
        invariant
            devices@ == with_mounts(before, mounts@.take(i as int)),
    {
        let mount = &mounts[i];
        let dashed = replace_char(mount.target.as_str(), '/', '-');
        let key = join2("mount-", strip_start(dashed.as_str(), '-').as_str());
        let device = build_disk(mount.target.as_str(), mount.source.as_str()).with(
            "readonly",
            Json::Bool(mount.read_only),
        );
        devices.set(key.as_str(), Json::Object(device));
        assert(mounts@.take(i + 1).drop_last() =~= mounts@.take(i as int));
    }
    assert(mounts@.take(mounts@.len() as int) =~= mounts@);
}

/// The devices of every instance: its network, and the server's directory at the given place.
pub open spec fn base_devices(
    bridge: Seq<char>,
    path: Seq<char>,
    base: Seq<char>,
) -> Map<Seq<char>, JsonView> {
    no_members().insert("eth0"@, nic_device(bridge)).insert("server-data"@, disk_device(path, base))
}

/// The devices of every instance.
fn build_base_devices(bridge: &str, path: &str, base: &str) -> (r: Members)
    ensures
        r@ == base_devices(bridge@, path@, base@),
{
    Members::new().with("eth0", build_nic_device(bridge)).with(
        "server-data",
        Json::Object(build_disk(path, base)),
    )
}

/// The devices of a server's instance.
pub open spec fn server_devices(cfg: InnerConfig, server: ServerConfiguration) -> Map<
    Seq<char>,
    JsonView,
> {
    with_mounts(
        base_devices(
            cfg.incus.network.bridge@,
            "/home/container"@,
            server.base@,
        ).union_prefer_right(proxy_devices(server.allocations.mappings@)),
        server.mounts@,
    )
}

/// A document that makes a container.
pub open spec fn container(
    name: Seq<char>,
    image: Seq<char>,
    config: Map<Seq<char>, Seq<char>>,
    devices: Map<Seq<char>, JsonView>,
) -> JsonView {
    object(
        no_members().insert("name"@, JsonView::Text(name)).insert(
            "type"@,
            JsonView::Text("container"@),
        ).insert("source"@, image_source(image)).insert(
            "config"@,
            object(text_members(config)),
        ).insert("devices"@, object(devices)),
    )
}

/// A document that makes a container.
fn build_container(name: &str, image: &str, config: &ConfigTable, devices: Members) -> (r: Json)
    ensures
        r@ == container(name@, image@, config@, devices@),
{
    Json::Object(
        Members::new().with_text("name", name).with_text("type", "container").with(
            "source",
            parse_image_source(image),
        ).with("config", Json::Object(config.to_members())).with(
            "devices",
            Json::Object(devices),
        ),
    )
}

/// The document that makes a server's instance.
pub open spec fn server_instance(
    name: Seq<char>,
    cfg: InnerConfig,
    server: ServerConfiguration,
    memory_bytes: u64,
) -> JsonView {
    container(
        name,
        server.image@,
        server_config(cfg, server, memory_bytes),
        server_devices(cfg, server),
    )
}

/// The document that makes a server's instance.
pub fn build_server_instance(
    name: &str,
    cfg: &InnerConfig,
    server: &ServerConfiguration,
    memory_bytes: u64,
) -> (r: Json)
    requires
        i64::MIN <= memory_of(server.build) <= i64::MAX,
        are_variables(server.environment@),
    ensures
        r@ == server_instance(name@, *cfg, *server, memory_bytes),
{
    let config = build_server_config(cfg, server, memory_bytes);
    let mut devices = build_base_devices(
        cfg.incus.network.bridge.as_str(),
        "/home/container",
        server.base.as_str(),
    );
    devices.extend(build_proxy_devices(&server.allocations));
    add_mounts(&mut devices, &server.mounts);
    build_container(name, server.image.as_str(), &config, devices)
}

/// The text of a script's variable: the text that it is, or its value as JSON.
pub open spec fn variable_text(value: JsonView) -> Seq<char> {
    match value {
        JsonView::Text(text) => text,
        other => displayed(other),
    }
}

/// The names and texts of a script's variables.
pub open spec fn variable_texts(environment: Seq<(String, Json)>) -> Seq<(Seq<char>, Seq<char>)> {
    environment.map_values(
        |variable: (String, Json)| (variable.0@, variable_text(variable.1@)),
    )
}

/// The names and values of a list of texts.
pub open spec fn text_pairs(pairs: Seq<(String, String)>) -> Seq<(Seq<char>, Seq<char>)> {
    pairs.map_values(|pair: (String, String)| (pair.0@, pair.1@))
}

/// The names and texts of a script's variables.
pub fn environment_texts(environment: Vec<(String, Json)>) -> (r: Vec<(String, String)>)
    ensures
        text_pairs(r@) == variable_texts(environment@),
{
    let mut r: Vec<(String, String)> = Vec::new();
    for variable in it: environment
        invariant
            it.seq() == environment@,
            text_pairs(r@) == variable_texts(environment@).take(it.index() as int),
    {
        let ghost i = it.index() as int;
        assert(variable == environment@[i]);
        let text: String = match variable.1 {
            Json::Text(text) => text,
            other => other.display(),
        };
        assert(text@ == variable_text(environment@[i].1@));
        let ghost before = text_pairs(r@);
        r.push((variable.0, text));
        assert(text_pairs(r@) =~= before.push((environment@[i].0@, text@)));
        assert(text_pairs(r@) =~= variable_texts(environment@).take(i + 1));
    }
    assert(text_pairs(r@) =~= variable_texts(environment@));
    r
}

/// The configuration with the given variables. Of several with one name the last one counts.
pub open spec fn with_named_variables(
    config: Map<Seq<char>, Seq<char>>,
    variables: Seq<(Seq<char>, Seq<char>)>,
) -> Map<Seq<char>, Seq<char>>
    decreases variables.len(),
{
    if variables.len() == 0 {
        config
    } else {
        with_named_variables(config, variables.drop_last()).insert(
            "environment."@ + variables.last().0,
            variables.last().1,
        )
    }
}

/// The configuration of the instance in which a script is run.
pub open spec fn installer_config(
    cfg: InnerConfig,
    memory_bytes: u64,
    variables: Seq<(Seq<char>, Seq<char>)>,
) -> Map<Seq<char>, Seq<char>> {
    with_named_variables(
        Map::empty().insert(
            "limits.memory"@,
            decimal_text(memory_bytes as nat) + "B"@,
        ).insert("limits.cpu.allowance"@, decimal_text(cfg.incus.installer_cpu as nat) + "%"@),
        variables,
    )
}

/// The configuration of the instance in which a script is run.
fn build_installer_config(
    cfg: &InnerConfig,
    memory_bytes: u64,
    variables: &Vec<(String, String)>,
) -> (r: ConfigTable)
    ensures
        r@ == installer_config(*cfg, memory_bytes, text_pairs(variables@)),
{
    let mut config = ConfigTable::new();
    config.set("limits.memory", join2(decimal(memory_bytes).as_str(), "B").as_str());
    config.set(
        "limits.cpu.allowance",
        join2(decimal(cfg.incus.installer_cpu).as_str(), "%").as_str(),
    );
    let ghost limits = config@;
    let ghost pairs = text_pairs(variables@);
    for i in 0..variables.len()
        invariant
            pairs == text_pairs(variables@),
            config@ == with_named_variables(limits, pairs.take(i as int)),
    {
        config.set(
            join2("environment.", variables[i].0.as_str()).as_str(),
            variables[i].1.as_str(),
        );
        assert(pairs.take(i + 1).drop_last() =~= pairs.take(i as int));
    }
    assert(pairs.take(pairs.len() as int) =~= pairs);
    config
}

/// Where a script and its server's directory are found, on the host and in the instance.
pub struct ScriptMounts {
    /// The server's directory on the host.
    pub base: String,
    /// Where it stands in the instance.
    pub server_mount_target: String,
    /// The script's directory on the host.
    pub script_mount_source: String,
    /// Where it stands in the instance.
    pub script_mount_target: String,
}

/// Where a script and its server's directory are found.
pub struct ScriptMountsView {
    pub base: Seq<char>,
    pub server_mount_target: Seq<char>,
    pub script_mount_source: Seq<char>,
    pub script_mount_target: Seq<char>,
}

impl View for ScriptMounts {
    type V = ScriptMountsView;

    open spec fn view(&self) -> ScriptMountsView {
        ScriptMountsView {
            base: self.base@,
            server_mount_target: self.server_mount_target@,
            script_mount_source: self.script_mount_source@,
            script_mount_target: self.script_mount_target@,
        }
    }
}

/// The devices of the instance in which a script is run.
pub open spec fn installer_devices(cfg: InnerConfig, mounts: ScriptMountsView) -> Map<
    Seq<char>,
    JsonView,
> {
    base_devices(
        cfg.incus.network.bridge@,
        mounts.server_mount_target,
        mounts.base,
    ).insert(
        "install-scripts"@,
        disk_device(mounts.script_mount_target, mounts.script_mount_source),
    )
}

/// The document that makes the instance in which a script is run.
pub open spec fn installer_instance(
    name: Seq<char>,
    cfg: InnerConfig,
    image: Seq<char>,
    variables: Seq<(Seq<char>, Seq<char>)>,
    memory_bytes: u64,
    mounts: ScriptMountsView,
) -> JsonView {
    container(
        name,
        image,
        installer_config(cfg, memory_bytes, variables),
        installer_devices(cfg, mounts),
    )
}

/// The document that makes the instance in which a script with the given variables is run.
pub fn build_script_container(
    name: &str,
    cfg: &InnerConfig,
    image: &str,
    variables: &Vec<(String, String)>,
    memory_bytes: u64,
    mounts: &ScriptMounts,
) -> (r: Json)
    ensures
        r@ == installer_instance(
            name@,
            *cfg,
            image@,
            text_pairs(variables@),
            memory_bytes,
            mounts@,
        ),
{
    let config = build_installer_config(cfg, memory_bytes, variables);
    let devices = build_base_devices(
        cfg.incus.network.bridge.as_str(),
        mounts.server_mount_target.as_str(),
        mounts.base.as_str(),
    ).with(
        "install-scripts",
        Json::Object(
            build_disk(mounts.script_mount_target.as_str(), mounts.script_mount_source.as_str()),
        ),
    );
    build_container(name, image, &config, devices)
}

/// The document that makes the instance in which a script is run.
pub fn build_installer_instance(
    name: &str,
    cfg: &InnerConfig,
    container_image: &str,
    environment: Vec<(String, Json)>,
    memory_bytes: u64,
    mounts: &ScriptMounts,
) -> (r: Json)
    ensures
        r@ == installer_instance(
            name@,
            *cfg,
            container_image@,
            variable_texts(environment@),
            memory_bytes,
            mounts@,
        ),
{
    let variables = environment_texts(environment);
    build_script_container(name, cfg, container_image, &variables, memory_bytes, mounts)
}

} // verus!
