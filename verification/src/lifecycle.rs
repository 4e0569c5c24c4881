//! How what the executor sets up is found again, and removed.
use crate::client::{ErrorView, Method, RequestView};
use crate::config::{InnerConfig, InstallationScript, ServerConfiguration};
use crate::executor::{
    found_instance, installer_mounts, instances_of, is_running, is_wanted, list_request, listed,
    listed_name, matching_names, network_path, network_request, optional_string, removal,
    removals, running_instance, script_setup, server_steps,
};
use crate::instance::{installer_instance, server_instance, variable_texts, ScriptMountsView};
use crate::json::JsonView;
use crate::naming::{
    hyphenated, installer_name_of, instance_name_of, is_suffix, law_helper_names_are_apart,
    law_helper_names_hold_uuid, law_installer_is_marked, law_instance_name_holds_uuid,
    law_plain_name_is_no_installer, law_plain_names_are_apart, name_part, script_name_of,
};
use crate::requests::{
    create_request, delete_request, force_stop_request, script_request, start_request,
};
use crate::text::contains_text;
use crate::workflow::{
    after, answers, attempt, begun, law_attempts_are_all_made, sent, Handling, ProgressView,
    StepView,
};
use vstd::prelude::*;

verus! {

/// The listed instance is running under the given name.
pub open spec fn runs_as(instance: JsonView, name: Seq<char>) -> bool {
    listed_name(instance) == Some(name) && is_running(instance)
}

/// What is found is listed, runs and is wanted.
pub proof fn law_search_is_sound(
    instances: Seq<JsonView>,
    filter: Seq<char>,
    exclude: Option<Seq<char>>,
)
    ensures
        running_instance(instances, filter, exclude) matches Some(name) ==> is_wanted(
            name,
            filter,
            exclude,
        ) && exists|i: int| 0 <= i < instances.len() && runs_as(#[trigger] instances[i], name),
    decreases instances.len(),
{
    if instances.len() > 0 {
        let rest = instances.skip(1);
        law_search_is_sound(rest, filter, exclude);
        match running_instance(instances, filter, exclude) {
            Some(name) => {
                if runs_as(instances[0], name) {
                } else {
                    let i = choose|i: int| 0 <= i < rest.len() && runs_as(#[trigger] rest[i], name);
                    assert(runs_as(instances[i + 1], name));
                }
            },
            None => {},
        }
    }
}

/// Something is found if an instance that is wanted runs, whatever else is listed.
pub proof fn law_search_is_complete(
    instances: Seq<JsonView>,
    filter: Seq<char>,
    exclude: Option<Seq<char>>,
    name: Seq<char>,
    i: int,
)
    requires
        0 <= i < instances.len(),
        runs_as(instances[i], name),
        is_wanted(name, filter, exclude),
    ensures
        running_instance(instances, filter, exclude) is Some,
    decreases instances.len(),
{
    if i > 0 {
        let rest = instances.skip(1);
        assert(rest[i - 1] == instances[i]);
        law_search_is_complete(rest, filter, exclude, name, i - 1);
    }
}

/// A process that has been set up for a server is found again while it runs: the search for the
/// server's UUID gives a running instance that holds it. This holds of names that hold all of the
/// UUID and that are not taken for an installer's.
pub proof fn law_server_is_found_again(
    uuid: u128,
    with_name: bool,
    server_name: Seq<char>,
    response: JsonView,
    i: int,
)
    requires
        with_name ==> name_part(server_name).len() <= 24,
        !contains_text(instance_name_of(uuid, with_name, server_name), "installer"@),
        instances_of(response) is Some,
        0 <= i < listed(response).len(),
        runs_as(listed(response)[i], instance_name_of(uuid, with_name, server_name)),
    ensures
        found_instance(Ok(response), hyphenated(uuid), Some("installer"@)) matches Some(name)
            && contains_text(name, hyphenated(uuid)) && exists|j: int|
            0 <= j < listed(response).len() && runs_as(#[trigger] listed(response)[j], name),
{
    let name = instance_name_of(uuid, with_name, server_name);
    law_instance_name_holds_uuid(uuid, with_name, server_name);
    law_search_is_complete(
        listed(response),
        hyphenated(uuid),
        Some("installer"@),
        name,
        i,
    );
    law_search_is_sound(listed(response), hyphenated(uuid), Some("installer"@));
}

/// Where servers' names are not part of the names of instances, a server's process is found again
/// without any condition on its name.
pub proof fn law_plain_server_is_found_again(
    uuid: u128,
    server_name: Seq<char>,
    response: JsonView,
    i: int,
)
    requires
        instances_of(response) is Some,
        0 <= i < listed(response).len(),
        runs_as(listed(response)[i], instance_name_of(uuid, false, server_name)),
    ensures
        found_instance(Ok(response), hyphenated(uuid), Some("installer"@)) is Some,
{
    law_plain_name_is_no_installer(uuid, server_name);
    law_server_is_found_again(uuid, false, server_name, response, i);
}

/// An installer is never taken for a server's process.
pub proof fn law_installer_is_never_attached(
    outcome: Result<JsonView, ErrorView>,
    uuid: u128,
    installed: u128,
)
    ensures
        found_instance(outcome, hyphenated(uuid), Some("installer"@)) != Some(
            installer_name_of(installed),
        ),
{
    law_installer_is_marked(installed);
    match outcome {
        Ok(response) => {
            law_search_is_sound(listed(response), hyphenated(uuid), Some("installer"@));
        },
        Err(_) => {},
    }
}

/// Where servers' names are not part of the names of instances, one server's process is never taken
/// for another's.
pub proof fn law_other_server_is_never_attached(
    outcome: Result<JsonView, ErrorView>,
    uuid: u128,
    other: u128,
    other_name: Seq<char>,
)
    requires
        uuid != other,
    ensures
        found_instance(outcome, hyphenated(uuid), Some("installer"@)) != Some(
            instance_name_of(other, false, other_name),
        ),
{
    law_plain_names_are_apart(other, other_name, uuid);
    match outcome {
        Ok(response) => {
            law_search_is_sound(listed(response), hyphenated(uuid), Some("installer"@));
        },
        Err(_) => {},
    }
}

/// The names that match are those of the listed instances that contain the text.
pub proof fn law_matching_names(instances: Seq<JsonView>, filter: Seq<char>, name: Seq<char>)
    ensures
        matching_names(instances, filter).contains(name) <==> contains_text(name, filter)
            && exists|i: int|
            0 <= i < instances.len() && listed_name(#[trigger] instances[i]) == Some(name),
    decreases instances.len(),
{
    let all = matching_names(instances, filter);
    if instances.len() > 0 {
        let rest = instances.drop_last();
        let names = matching_names(rest, filter);
        law_matching_names(rest, filter, name);
        let last = instances.last();
        assert(instances[instances.len() - 1] == last);
        if names.contains(name) {
            let k = choose|k: int| 0 <= k < names.len() && names[k] == name;
            assert(all[k] == name);
            let i = choose|i: int|
                0 <= i < rest.len() && listed_name(#[trigger] rest[i]) == Some(name);
            assert(listed_name(instances[i]) == Some(name));
        }
        if all.contains(name) {
            let k = choose|k: int| 0 <= k < all.len() && all[k] == name;
            if k < names.len() {
                assert(names[k] == name);
            }
        }
        if contains_text(name, filter) && exists|i: int|
            0 <= i < instances.len() && listed_name(#[trigger] instances[i]) == Some(name) {
            let i = choose|i: int|
                0 <= i < instances.len() && listed_name(#[trigger] instances[i]) == Some(name);
            if i < instances.len() - 1 {
                assert(rest[i] == instances[i]);
            } else {
                assert(all[all.len() - 1] == name);
            }
        }
    }
}

/// Each instance that is to be removed is stopped, and then removed.
pub proof fn law_removals_stop_first(names: Seq<Seq<char>>)
    ensures
        removals(names).len() == 2 * names.len(),
        forall|k: int|
            0 <= k < names.len() ==> removals(names)[2 * k] == attempt(
                force_stop_request(#[trigger] names[k]),
            ) && removals(names)[2 * k + 1] == attempt(delete_request(names[k])),
    decreases names.len(),
{
    if names.len() > 0 {
        let rest = names.drop_last();
        law_removals_stop_first(rest);
        assert forall|k: int| 0 <= k < names.len() implies removals(names)[2 * k] == attempt(
            force_stop_request(#[trigger] names[k]),
        ) && removals(names)[2 * k + 1] == attempt(delete_request(names[k])) by {
            if k < rest.len() {
                assert(rest[k] == names[k]);
            }
        }
    }
}

/// Every request of a removal may fail.
proof fn lemma_removals_are_attempts(names: Seq<Seq<char>>)
    ensures
        forall|i: int|
            0 <= i < removals(names).len() ==> (#[trigger] removals(names)[i]).handling
                == Handling::Attempt,
    decreases names.len(),
{
    if names.len() > 0 {
        let front = removals(names.drop_last());
        lemma_removals_are_attempts(names.drop_last());
        assert forall|i: int| 0 <= i < removals(names).len() implies (#[trigger] removals(
            names,
        )[i]).handling == Handling::Attempt by {
            if i < front.len() {
                assert(removals(names)[i] == front[i]);
            }
        }
    }
}

/// A removal that fails does not keep the others from being made: all requests are sent, and the
/// work is then done.
pub proof fn law_removals_are_all_made(
    names: Seq<Seq<char>>,
    outcomes: Seq<Result<JsonView, ErrorView>>,
)
    requires
        outcomes.len() == 2 * names.len(),
    ensures
        sent(begun(removals(names)), outcomes) == answers(removals(names)),
        after(begun(removals(names)), outcomes) == ProgressView::Finished,
{
    law_removals_stop_first(names);
    lemma_removals_are_attempts(names);
    law_attempts_are_all_made(removals(names), outcomes);
}

/// To clean up after a server is to remove all of its instances that are listed: that of its
/// process, where the name holds all of the UUID, that of its installer and those of its scripts.
pub proof fn law_cleanup_removes_all_of_a_server(
    uuid: u128,
    with_name: bool,
    server_name: Seq<char>,
    suffix: Seq<char>,
    instances: Seq<JsonView>,
    name: Seq<char>,
    i: int,
)
    requires
        with_name ==> name_part(server_name).len() <= 24,
        name == instance_name_of(uuid, with_name, server_name) || name == installer_name_of(uuid)
            || name == script_name_of(uuid, suffix),
        0 <= i < instances.len(),
        listed_name(instances[i]) == Some(name),
    ensures
        matching_names(instances, hyphenated(uuid)).contains(name),
{
    law_instance_name_holds_uuid(uuid, with_name, server_name);
    law_helper_names_hold_uuid(uuid, suffix);
    law_matching_names(instances, hyphenated(uuid), name);
}

/// To clean up after a server is to leave the instances of other servers: that of a process, where
/// servers' names are not part of the names of instances, those of installers and those of scripts.
pub proof fn law_cleanup_leaves_other_servers(
    uuid: u128,
    other: u128,
    other_name: Seq<char>,
    suffix: Seq<char>,
    instances: Seq<JsonView>,
)
    requires
        uuid != other,
        is_suffix(suffix),
    ensures
        ({
            let names = matching_names(instances, hyphenated(uuid));
            &&& !names.contains(instance_name_of(other, false, other_name))
            &&& !names.contains(installer_name_of(other))
            &&& !names.contains(script_name_of(other, suffix))
        }),
{
    law_plain_names_are_apart(other, other_name, uuid);
    law_helper_names_are_apart(other, uuid, suffix);
    law_matching_names(instances, hyphenated(uuid), instance_name_of(other, false, other_name));
    law_matching_names(instances, hyphenated(uuid), installer_name_of(other));
    law_matching_names(instances, hyphenated(uuid), script_name_of(other, suffix));
}

/// What is listed of an instance: its name is the text that its member `name` is, and it runs where
/// its state says so, or where it lists no status in a state, where it says so itself.
pub proof fn law_listed_instances_are_what_they_say(instance: JsonView, response: JsonView)
    ensures
        listed_name(instance) == match instance.member("name"@) {
            Some(JsonView::Text(text)) => Some(text),
            _ => None,
        },
        instance.at(seq!["state"@, "status"@]) is Some ==> (is_running(instance) <==> instance.at(
            seq!["state"@, "status"@],
        ) == Some(JsonView::Text("Running"@))),
        instance.at(seq!["state"@, "status"@]) is None ==> (is_running(instance)
            <==> instance.member("status"@) == Some(JsonView::Text("Running"@))),
        response.at(seq!["metadata"@]) matches Some(JsonView::Array(items)) ==> instances_of(
            response,
        ) == Some(items) && listed(response) == items,
        !(response.at(seq!["metadata"@]) matches Some(JsonView::Array(_))) ==> instances_of(
            response,
        ) is None && listed(response).len() == 0,
{
}

/// What is found is the first: no listed instance before it is wanted and runs.
pub proof fn law_first_instance_is_found(
    instances: Seq<JsonView>,
    filter: Seq<char>,
    exclude: Option<Seq<char>>,
    i: int,
    name: Seq<char>,
)
    requires
        0 <= i < instances.len(),
        runs_as(instances[i], name),
        contains_text(name, filter),
        exclude matches Some(text) ==> !contains_text(name, text),
        forall|j: int, other: Seq<char>|
            0 <= j < i && #[trigger] runs_as(instances[j], other) ==> !contains_text(other, filter)
                || (exclude matches Some(text) && contains_text(other, text)),
    ensures
        running_instance(instances, filter, exclude) == Some(name),
    decreases instances.len(),
{
    if i > 0 {
        let rest = instances.skip(1);
        assert(rest[i - 1] == instances[i]);
        match listed_name(instances[0]) {
            Some(first) => {
                if is_running(instances[0]) {
                    assert(runs_as(instances[0], first));
                }
            },
            None => {},
        }
        assert forall|j: int, other: Seq<char>|
            0 <= j < i - 1 && #[trigger] runs_as(rest[j], other) implies !contains_text(
            other,
            filter,
        ) || (exclude matches Some(text) && contains_text(other, text)) by {
            assert(runs_as(instances[j + 1], other));
        }
        law_first_instance_is_found(rest, filter, exclude, i - 1, name);
    }
}

/// Nothing is found where no instance that is wanted runs, and where there is no list.
pub proof fn law_nothing_else_is_found(
    outcome: Result<JsonView, ErrorView>,
    filter: Seq<char>,
    exclude: Option<Seq<char>>,
)
    ensures
        outcome is Err ==> found_instance(outcome, filter, exclude) is None,
        outcome matches Ok(response) ==> found_instance(outcome, filter, exclude)
            == running_instance(listed(response), filter, exclude),
        found_instance(outcome, filter, exclude) matches Some(name) ==> contains_text(name, filter)
            && (exclude matches Some(text) ==> !contains_text(name, text)),
{
    match outcome {
        Ok(response) => {
            law_search_is_sound(listed(response), filter, exclude);
        },
        Err(_) => {},
    }
}

/// The instances to remove are those of one part of the list, and then those of the other: each
/// listed instance is taken for itself, in the order of the list, under its whole name.
pub proof fn law_each_instance_is_taken_for_itself(
    first: Seq<JsonView>,
    second: Seq<JsonView>,
    instance: JsonView,
    filter: Seq<char>,
)
    ensures
        matching_names(Seq::empty(), filter) == Seq::<Seq<char>>::empty(),
        matching_names(seq![instance], filter) == match instance.member("name"@) {
            Some(JsonView::Text(name)) => if contains_text(name, filter) {
                seq![name]
            } else {
                Seq::empty()
            },
            _ => Seq::empty(),
        },
        matching_names(first + second, filter) == matching_names(first, filter) + matching_names(
            second,
            filter,
        ),
    decreases second.len(),
{
    assert(seq![instance].drop_last() =~= Seq::empty());
    assert(Seq::<Seq<char>>::empty().push(listed_name(instance)->0) =~= seq![
        listed_name(instance)->0,
    ]);
    if second.len() == 0 {
        assert(first + second =~= first);
        assert(matching_names(first, filter) + matching_names(second, filter) =~= matching_names(
            first,
            filter,
        ));
    } else {
        let rest = second.drop_last();
        assert((first + second).drop_last() =~= first + rest);
        assert((first + second).last() == second.last());
        law_each_instance_is_taken_for_itself(first, rest, instance, filter);
        assert(matching_names(first + second, filter) =~= matching_names(first, filter)
            + matching_names(second, filter));
    }
}

/// Where the list of instances and the bridge network are asked for, and how the latter is made.
pub proof fn law_lists_and_networks(bridge: Seq<char>)
    ensures
        list_request() == (RequestView {
            method: Method::Get,
            path: "/1.0/instances?recursion=1"@,
            body: None,
        }),
        network_path(bridge) == "/1.0/networks/"@ + bridge,
        network_request(bridge) == (RequestView {
            method: Method::Post,
            path: "/1.0/networks"@,
            body: Some(
                JsonView::Object(
                    map![
                        "name"@ => JsonView::Text(bridge),
                        "type"@ => JsonView::Text("bridge"@),
                        "config"@ => JsonView::Object(
                            map![
                                "ipv4.address"@ => JsonView::Text("auto"@),
                                "ipv4.nat"@ => JsonView::Text("true"@),
                                "ipv6.address"@ => JsonView::Text("none"@),
                            ],
                        ),
                    ],
                ),
            ),
        }),
{
}

/// A process is set up in the order in which it can run: its instance is made, then it is started,
/// and a script is run in it then; each of the three has to succeed.
pub proof fn law_processes_are_made_before_they_run(
    name: Seq<char>,
    cfg: InnerConfig,
    server: ServerConfiguration,
    script: InstallationScript,
    memory_bytes: u64,
    base: Seq<char>,
    source: Seq<char>,
    target: Seq<char>,
    path: Seq<char>,
)
    ensures
        server_steps(name, cfg, server, memory_bytes) == seq![
            StepView {
                request: create_request(server_instance(name, cfg, server, memory_bytes)),
                handling: Handling::Complete,
            },
            StepView { request: start_request(name), handling: Handling::Complete },
        ],
        script_setup(
            name,
            cfg,
            script,
            memory_bytes,
            installer_mounts(base, source, target),
            path,
        ) == seq![
            StepView {
                request: create_request(
                    installer_instance(
                        name,
                        cfg,
                        script.container_image@,
                        variable_texts(script.environment@),
                        memory_bytes,
                        ScriptMountsView {
                            base,
                            server_mount_target: "/mnt/server"@,
                            script_mount_source: source,
                            script_mount_target: target,
                        },
                    ),
                ),
                handling: Handling::Complete,
            },
            StepView { request: start_request(name), handling: Handling::Complete },
            StepView {
                request: script_request(name, script.entrypoint@, path),
                handling: Handling::Complete,
            },
        ],
        removal(name) == seq![
            StepView { request: force_stop_request(name), handling: Handling::Attempt },
            StepView { request: delete_request(name), handling: Handling::Attempt },
        ],
{
}

/// A name that is found is given as it is.
pub proof fn law_found_names_are_given_whole(text: Option<String>)
    ensures
        text matches Some(name) ==> optional_string(text) == Some(name@),
        text is None ==> optional_string(text) is None,
{
}

} // verus!
