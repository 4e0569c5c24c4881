//! The executor: which requests set servers up, find them and remove them.
use crate::client::{
    body_request, outcome_view, plain_request, ApiRequest, ErrorView, IncusClient, IncusError,
    Method, RequestView,
};
use crate::config::{InnerConfig, InstallationScript, ServerConfiguration};
use crate::instance::{
    are_variables, build_installer_instance, build_server_instance, installer_instance, memory_of,
    server_instance, variable_texts, ScriptMounts, ScriptMountsView,
};
use crate::json::{item_views, tokens, Json, JsonView, Members};
use crate::naming::{
    hyphenated, installer_name, installer_name_of, instance_name, instance_name_of, is_suffix,
    new_script_name, script_name_of, uuid_text,
};
use crate::process::optional_text;
use crate::requests::{
    create_request, delete_request, force_stop_request, script_request, start_request,
};
use crate::text::{contains, contains_text, join2, same_text, to_unix_newlines, unix_newlines};
use crate::workflow::{attempt, complete, step_views, Step, StepView};
use vstd::prelude::*;

verus! {

/// The executor of servers: it runs each in an instance of its own.
pub struct IncusExecutor {
    pub client: IncusClient,
}

/// The requests that set a process up, and the instance that it runs in then.
#[derive(Debug, PartialEq)]
pub struct ProcessSetup {
    pub name: String,
    pub steps: Vec<Step>,
}

/// A file that is put into a script's directory.
#[derive(Debug, PartialEq)]
pub struct ScriptFile {
    pub name: String,
    pub contents: String,
}

/// The request for all instances, with their state.
pub open spec fn list_request() -> RequestView {
    plain_request(Method::Get, "/1.0/instances?recursion=1"@)
}

/// The instances that a response lists.
pub open spec fn instances_of(response: JsonView) -> Option<Seq<JsonView>> {
    match response.at(seq!["metadata"@]) {
        Some(JsonView::Array(instances)) => Some(instances),
        _ => None,
    }
}

/// The name of a listed instance.
pub open spec fn listed_name(instance: JsonView) -> Option<Seq<char>> {
    instance.member_text("name"@)
}

/// A listed instance runs: its state says so, or where it lists no state, the instance itself.
pub open spec fn is_running(instance: JsonView) -> bool {
    match instance.at(seq!["state"@, "status"@]) {
        Some(status) => status.text() == Some("Running"@),
        None => instance.member_text("status"@) == Some("Running"@),
    }
}

/// A name contains the one text and not the other.
pub open spec fn is_wanted(name: Seq<char>, filter: Seq<char>, exclude: Option<Seq<char>>) -> bool {
    &&& contains_text(name, filter)
    &&& exclude matches Some(text) ==> !contains_text(name, text)
}

/// The name of the first listed instance that is wanted and runs. An instance without a name is
/// passed over.
pub open spec fn running_instance(
    instances: Seq<JsonView>,
    filter: Seq<char>,
    exclude: Option<Seq<char>>,
) -> Option<Seq<char>>
    decreases instances.len(),
{
    if instances.len() == 0 {
        None
    } else {
        match listed_name(instances[0]) {
            Some(name) => if is_wanted(name, filter, exclude) && is_running(instances[0]) {
                Some(name)
            } else {
                running_instance(instances.skip(1), filter, exclude)
            },
            None => running_instance(instances.skip(1), filter, exclude),
        }
    }
}

/// The name of the first running instance that a response lists and that is wanted.
pub open spec fn found_instance(
    outcome: Result<JsonView, ErrorView>,
    filter: Seq<char>,
    exclude: Option<Seq<char>>,
) -> Option<Seq<char>> {
    match outcome {
        Ok(response) => match instances_of(response) {
            Some(instances) => running_instance(instances, filter, exclude),
            None => None,
        },
        Err(_) => None,
    }
}

/// The names of the listed instances that contain a text.
pub open spec fn matching_names(instances: Seq<JsonView>, filter: Seq<char>) -> Seq<Seq<char>>
    decreases instances.len(),
{
    if instances.len() == 0 {
        Seq::empty()
    } else {
        let names = matching_names(instances.drop_last(), filter);
        match listed_name(instances.last()) {
            Some(name) => if contains_text(name, filter) {
                names.push(name)
            } else {
                names
            },
            None => names,
        }
    }
}

/// The requests that stop an instance and remove it. Both may fail.
pub open spec fn removal(name: Seq<char>) -> Seq<StepView> {
    seq![attempt(force_stop_request(name)), attempt(delete_request(name))]
}

/// The requests that stop instances and remove them, one after the other.
pub open spec fn removals(names: Seq<Seq<char>>) -> Seq<StepView>
    decreases names.len(),
{
    if names.len() == 0 {
        Seq::empty()
    } else {
        removals(names.drop_last()) + removal(names.last())
    }
}

/// The instances that a response lists; none, where it lists none.
pub open spec fn listed(response: JsonView) -> Seq<JsonView> {
    match instances_of(response) {
        Some(instances) => instances,
        None => Seq::empty(),
    }
}

/// The path of a network.
pub open spec fn network_path(bridge: Seq<char>) -> Seq<char> {
    "/1.0/networks/"@ + bridge
}

/// The request that creates a bridge network.
pub open spec fn network_request(bridge: Seq<char>) -> RequestView {
    body_request(
        Method::Post,
        "/1.0/networks"@,
        JsonView::Object(
            Map::empty().insert("name"@, JsonView::Text(bridge)).insert(
                "type"@,
                JsonView::Text("bridge"@),
            ).insert(
                "config"@,
                JsonView::Object(
                    Map::empty().insert("ipv4.address"@, JsonView::Text("auto"@)).insert(
                        "ipv4.nat"@,
                        JsonView::Text("true"@),
                    ).insert("ipv6.address"@, JsonView::Text("none"@)),
                ),
            ),
        ),
    )
}

/// The requests that set a server's process up: its instance is created and started.
pub open spec fn server_steps(
    name: Seq<char>,
    cfg: InnerConfig,
    server: ServerConfiguration,
    memory_bytes: u64,
) -> Seq<StepView> {
    seq![
        complete(create_request(server_instance(name, cfg, server, memory_bytes))),
        complete(start_request(name)),
    ]
}

/// The requests that run a script: an instance for it is created and started, and the script is run
/// in there.
pub open spec fn script_steps(
    name: Seq<char>,
    body: JsonView,
    entrypoint: Seq<char>,
    path: Seq<char>,
) -> Seq<StepView> {
    seq![
        complete(create_request(body)),
        complete(start_request(name)),
        complete(script_request(name, entrypoint, path)),
    ]
}

/// Where an installer finds its script and its server's directory.
pub open spec fn installer_mounts(
    base: Seq<char>,
    source: Seq<char>,
    target: Seq<char>,
) -> ScriptMountsView {
    ScriptMountsView {
        base,
        server_mount_target: "/mnt/server"@,
        script_mount_source: source,
        script_mount_target: target,
    }
}

/// The requests that run a script, made from what the script says.
pub open spec fn script_setup(
    name: Seq<char>,
    cfg: InnerConfig,
    script: InstallationScript,
    memory_bytes: u64,
    mounts: ScriptMountsView,
    path: Seq<char>,
) -> Seq<StepView> {
    script_steps(
        name,
        installer_instance(
            name,
            cfg,
            script.container_image@,
            variable_texts(script.environment@),
            memory_bytes,
            mounts,
        ),
        script.entrypoint@,
        path,
    )
}

/// The items of an array that a response holds at `metadata`.
fn metadata_array(response: &Json) -> (r: Option<&Vec<Json>>)
    ensures
        match r {
            Some(items) => instances_of(response@) == Some(item_views(*items)),
            None => instances_of(response@) is None,
        },
{
    let path: [&str; 1] = ["metadata"];
    assert(tokens(path@) =~= seq!["metadata"@]);
    match response.pointer(&path) {
        Some(Json::Array(items)) => Some(items),
        _ => None,
    }
}

/// A listed instance runs.
fn runs(instance: &Json) -> (r: bool)
    ensures
        r == is_running(instance@),
{
    let path: [&str; 2] = ["state", "status"];
    assert(tokens(path@) =~= seq!["state"@, "status"@]);
    let status: Option<&str> = match instance.pointer(&path) {
        Some(status) => status.as_str(),
        None => instance.get_str("status"),
    };
    match status {
        Some(text) => same_text(text, "Running"),
        None => false,
    }
}

/// The characters of an optional text.
pub open spec fn optional_string(text: Option<String>) -> Option<Seq<char>> {
    match text {
        Some(s) => Some(s@),
        None => None,
    }
}

/// The name of the first listed instance that is wanted and runs.
pub fn first_running(instances: &Vec<Json>, filter: &str, exclude: Option<&str>) -> (r: Option<
    String,
>)
    ensures
        optional_string(r) == running_instance(
            item_views(*instances),
            filter@,
            optional_text(exclude),
        ),
{
    let ghost all = item_views(*instances);
    let ghost without = optional_text(exclude);
    assert(all.skip(0) =~= all);
    for i in 0..instances.len()
        invariant
            all == item_views(*instances),
            without == optional_text(exclude),
            running_instance(all, filter@, without) == running_instance(
                all.skip(i as int),
                filter@,
                without,
            ),
    {
        assert(all.skip(i as int)[0] == instances@[i as int]@);
        assert(all.skip(i as int).skip(1) =~= all.skip(i + 1));
        match instances[i].get_str("name") {
            Some(name) => {
                let wanted: bool = contains(name, filter) && match exclude {
                    Some(text) => !contains(name, text),
                    None => true,
                };
                if wanted && runs(&instances[i]) {
                    return Some(name.to_string());
                }
            },
            None => {},
        }
    }
    None
}

/// The requests that stop and remove the listed instances whose names contain a text.
pub fn removal_steps(client: &IncusClient, instances: &Vec<Json>, filter: &str) -> (r: Vec<Step>)
    ensures
        step_views(r@) == removals(matching_names(item_views(*instances), filter@)),
{
    let ghost all = item_views(*instances);
    let mut steps: Vec<Step> = Vec::new();
    assert(step_views(steps@) =~= removals(matching_names(all.take(0), filter@)));
    for i in 0..instances.len()
        invariant
            all == item_views(*instances),
            step_views(steps@) == removals(matching_names(all.take(i as int), filter@)),
    {
        let ghost names = matching_names(all.take(i as int), filter@);
        let ghost before = step_views(steps@);
        assert(all.take(i + 1).drop_last() =~= all.take(i as int));
        assert(all.take(i + 1).last() == instances@[i as int]@);
        match instances[i].get_str("name") {
            Some(name) => {
                if contains(name, filter) {
                    steps.push(Step::attempt(client.force_stop(name)));
                    steps.push(Step::attempt(client.remove(name)));
                    assert(names.push(name@).drop_last() =~= names);
                    assert(step_views(steps@) =~= before + removal(name@));
                }
            },
            None => {},
        }
    }
    assert(all.take(instances@.len() as int) =~= all);
    steps
}

impl IncusExecutor {
    /// The executor that uses the API on the socket that the settings name.
    pub fn new(app_config: &InnerConfig) -> (r: Self)
        ensures
            r.client.socket_path@ == app_config.incus.socket@,
    {
        IncusExecutor { client: IncusClient::new(app_config.incus.socket.as_str()) }
    }

    /// The request for all instances.
    pub fn list_instances(&self) -> (r: ApiRequest)
        ensures
            r@ == list_request(),
    {
        self.client.get("/1.0/instances?recursion=1")
    }

    /// Finds a running instance whose name contains `name_filter` but not `exclude`, in the answer
    /// to the request for all instances.
    pub fn find_running_instance(
        &self,
        outcome: Result<Json, IncusError>,
        name_filter: &str,
        exclude: Option<&str>,
    ) -> (r: Option<String>)
        ensures
            optional_string(r) == found_instance(
                outcome_view(outcome),
                name_filter@,
                optional_text(exclude),
            ),
    {
        match outcome {
            Ok(response) => match metadata_array(&response) {
                Some(instances) => first_running(instances, name_filter, exclude),
                None => None,
            },
            Err(_) => None,
        }
    }

    /// Stops and removes all instances whose name contains `name_filter`, as the answer to the
    /// request for all instances lists them.
    pub fn delete_instances_matching(
        &self,
        outcome: Result<Json, IncusError>,
        name_filter: &str,
    ) -> (r: Result<Vec<Step>, IncusError>)
        ensures
            match outcome {
                Ok(response) => r matches Ok(steps) && step_views(steps@) == removals(
                    matching_names(listed(response@), name_filter@),
                ),
                Err(error) => r matches Err(same) && same == error,
            },
    {
        match outcome {
            Ok(response) => match metadata_array(&response) {
                Some(instances) => Ok(removal_steps(&self.client, instances, name_filter)),
                None => {
                    let steps: Vec<Step> = Vec::new();
                    assert(step_views(steps@) =~= removals(matching_names(Seq::empty(), name_filter@)));
                    Ok(steps)
                },
            },
            Err(error) => Err(error),
        }
    }

    /// The request that shows whether the bridge network exists.
    pub fn find_network(&self, app_config: &InnerConfig) -> (r: ApiRequest)
        ensures
            r@ == plain_request(Method::Get, network_path(app_config.incus.network.bridge@)),
    {
        self.client.get(join2("/1.0/networks/", app_config.incus.network.bridge.as_str()).as_str())
    }

    /// Makes sure that the bridge network exists: it is created where the request for it failed.
    pub fn boot(&self, app_config: &InnerConfig, outcome: Result<Json, IncusError>) -> (r: Vec<Step>)
        ensures
            step_views(r@) == match outcome {
                Ok(_) => Seq::<StepView>::empty(),
                Err(_) => seq![complete(network_request(app_config.incus.network.bridge@))],
            },
    {
        let mut steps: Vec<Step> = Vec::new();
        match outcome {
            Ok(_) => {},
            Err(_) => {
                let config = Members::new().with_text("ipv4.address", "auto").with_text(
                    "ipv4.nat",
                    "true",
                ).with_text("ipv6.address", "none");
                let body = Members::new().with_text(
                    "name",
                    app_config.incus.network.bridge.as_str(),
                ).with_text("type", "bridge").with("config", Json::Object(config));
                steps.push(
                    Step::complete(self.client.post("/1.0/networks", Json::Object(body))),
                );
            },
        }
        assert(step_views(steps@) =~= match outcome {
            Ok(_) => Seq::<StepView>::empty(),
            Err(_) => seq![complete(network_request(app_config.incus.network.bridge@))],
        });
        steps
    }

    /// Sets a server's process up: creates its instance and starts it.
    pub fn setup_server_process(
        &self,
        app_config: &InnerConfig,
        server: &ServerConfiguration,
        memory_bytes: u64,
    ) -> (r: ProcessSetup)
        requires
            i64::MIN <= memory_of(server.build) <= i64::MAX,
            are_variables(server.environment@),
        ensures
            r.name@ == instance_name_of(
                server.uuid,
                app_config.incus.server_name_in_container_name,
                server.name@,
            ),
            step_views(r.steps@) == server_steps(r.name@, *app_config, *server, memory_bytes),
    {
        let name = instance_name(server.uuid, app_config, server.name.as_str());
        let body = build_server_instance(name.as_str(), app_config, server, memory_bytes);
        let steps: Vec<Step> = vec![
            Step::complete(self.client.create(body)),
            Step::complete(self.client.start(name.as_str())),
        ];
        assert(step_views(steps@) =~= server_steps(name@, *app_config, *server, memory_bytes));
        ProcessSetup { name, steps }
    }

    /// The name of the instance in which a server's process already runs, as the answer to the
    /// request for all instances shows.
    pub fn attach_server_process(&self, uuid: u128, outcome: Result<Json, IncusError>) -> (r: Result<
        String,
        IncusError,
    >)
        ensures
            match found_instance(outcome_view(outcome), hyphenated(uuid), Some("installer"@)) {
                Some(name) => r matches Ok(found) && found@ == name,
                None => r matches Err(error) && error@ == ErrorView::NoRunningInstance(
                    hyphenated(uuid),
                ),
            },
    {
        let id = uuid_text(uuid);
        match self.find_running_instance(outcome, id.as_str(), Some("installer")) {
            Some(name) => Ok(name),
            None => Err(IncusError::NoRunningInstance(id)),
        }
    }

    /// Removes all instances whose name holds the server's UUID, as the answer to the request for
    /// all instances lists them: that of its process, and with it its installer and its scripts.
    pub fn cleanup_server_process(&self, uuid: u128, outcome: Result<Json, IncusError>) -> (r: Result<
        Vec<Step>,
        IncusError,
    >)
        ensures
            match outcome {
                Ok(response) => r matches Ok(steps) && step_views(steps@) == removals(
                    matching_names(listed(response@), hyphenated(uuid)),
                ),
                Err(error) => r matches Err(same) && same == error,
            },
    {
        let id = uuid_text(uuid);
        self.delete_instances_matching(outcome, id.as_str())
    }

    /// The file that an installer runs: its script, with the line ends of Unix.
    pub fn installation_file(&self, script: &InstallationScript) -> (r: ScriptFile)
        ensures
            r.name@ == "install.sh"@,
            r.contents@ == unix_newlines(script.script@),
    {
        ScriptFile {
            name: "install.sh".to_string(),
            contents: to_unix_newlines(script.script.as_str()),
        }
    }

    /// The file that a script's instance runs: the script, with the line ends of Unix.
    pub fn script_file(&self, script: &InstallationScript) -> (r: ScriptFile)
        ensures
            r.name@ == "script.sh"@,
            r.contents@ == unix_newlines(script.script@),
    {
        ScriptFile {
            name: "script.sh".to_string(),
            contents: to_unix_newlines(script.script.as_str()),
        }
    }

    /// Creates an instance, starts it, and runs a script in it.
    fn setup_script(
        &self,
        name: String,
        app_config: &InnerConfig,
        script: InstallationScript,
        memory_bytes: u64,
        mounts: &ScriptMounts,
        path: &str,
    ) -> (r: ProcessSetup)
        ensures
            r.name == name,
            step_views(r.steps@) == script_setup(
                name@,
                *app_config,
                script,
                memory_bytes,
                mounts@,
                path@,
            ),
    {
        let body = build_installer_instance(
            name.as_str(),
            app_config,
            script.container_image.as_str(),
            script.environment,
            memory_bytes,
            mounts,
        );
        let steps: Vec<Step> = vec![
            Step::complete(self.client.create(body)),
            Step::complete(self.client.start(name.as_str())),
            Step::complete(
                self.client.run_script(name.as_str(), script.entrypoint.as_str(), path),
            ),
        ];
        assert(step_views(steps@) =~= script_setup(
            name@,
            *app_config,
            script,
            memory_bytes,
            mounts@,
            path@,
        ));
        ProcessSetup { name, steps }
    }

    /// Sets the installation of a server up: creates the installer's instance, starts it, and runs
    /// the script that stands in the given directory.
    pub fn setup_installation_process(
        &self,
        app_config: &InnerConfig,
        uuid: u128,
        base: &str,
        script: InstallationScript,
        memory_bytes: u64,
        directory: &str,
    ) -> (r: ProcessSetup)
        ensures
            r.name@ == installer_name_of(uuid),
            step_views(r.steps@) == script_setup(
                r.name@,
                *app_config,
                script,
                memory_bytes,
                installer_mounts(base@, directory@, "/mnt/install"@),
                "/mnt/install/install.sh"@,
            ),
    {
        let mounts = ScriptMounts {
            base: base.to_string(),
            server_mount_target: "/mnt/server".to_string(),
            script_mount_source: directory.to_string(),
            script_mount_target: "/mnt/install".to_string(),
        };
        self.setup_script(
            installer_name(uuid),
            app_config,
            script,
            memory_bytes,
            &mounts,
            "/mnt/install/install.sh",
        )
    }

    /// The name of the instance in which a server is being installed.
    pub fn attach_installation_process(&self, uuid: u128) -> (r: String)
        ensures
            r@ == installer_name_of(uuid),
    {
        installer_name(uuid)
    }

    /// Removes the instance in which a server was installed.
    pub fn cleanup_installation_process(&self, uuid: u128) -> (r: Vec<Step>)
        ensures
            step_views(r@) == removal(installer_name_of(uuid)),
    {
        let name = installer_name(uuid);
        let steps: Vec<Step> = vec![
            Step::attempt(self.client.force_stop(name.as_str())),
            Step::attempt(self.client.remove(name.as_str())),
        ];
        assert(step_views(steps@) =~= removal(name@));
        steps
    }

    /// Sets a script up that is run for a server, in the instance of the given name.
    pub fn setup_named_script(
        &self,
        name: String,
        app_config: &InnerConfig,
        base: &str,
        script: InstallationScript,
        memory_bytes: u64,
        directory: &str,
    ) -> (r: ProcessSetup)
        ensures
            r.name == name,
            step_views(r.steps@) == script_setup(
                name@,
                *app_config,
                script,
                memory_bytes,
                installer_mounts(base@, directory@, "/mnt/script"@),
                "/mnt/script/script.sh"@,
            ),
    {
        let mounts = ScriptMounts {
            base: base.to_string(),
            server_mount_target: "/mnt/server".to_string(),
            script_mount_source: directory.to_string(),
            script_mount_target: "/mnt/script".to_string(),
        };
        self.setup_script(name, app_config, script, memory_bytes, &mounts, "/mnt/script/script.sh")
    }

    /// Sets a script up that is run for a server: creates an instance for it under a new name,
    /// starts it, and runs the script that stands in the given directory.
    pub fn setup_script_process(
        &self,
        app_config: &InnerConfig,
        uuid: u128,
        base: &str,
        script: InstallationScript,
        memory_bytes: u64,
        directory: &str,
    ) -> (r: ProcessSetup)
        ensures
            exists|suffix: Seq<char>|
                is_suffix(suffix) && r.name@ == #[trigger] script_name_of(uuid, suffix),
            step_views(r.steps@) == script_setup(
                r.name@,
                *app_config,
                script,
                memory_bytes,
                installer_mounts(base@, directory@, "/mnt/script"@),
                "/mnt/script/script.sh"@,
            ),
    {
        let name = new_script_name(uuid);
        self.setup_named_script(name, app_config, base, script, memory_bytes, directory)
    }
}

} // verus!
