//! The requests of a server's process.
use crate::client::{
    body_request, instance_path, ApiRequest, IncusClient, Method, RequestView,
};
use crate::config::{text_members, ServerConfigurationBuild};
use crate::console::NEWLINE;
use crate::instance::{build_resource_config, memory_of, resource_config};
use crate::json::{Json, JsonView, Members};
use crate::logs::{log_request, log_request_of};
use crate::requests::{force_stop_request, signal_request, start_request, stop_request};
use crate::text::{ascii_upper, is_ascii_text, join2, same_text, upper_text, uppercase};
use crate::workflow::{accept, complete, step_views, Step, StepView};
use vstd::prelude::*;
use vstd::slice::slice_to_vec;
use vstd::utf8::encode_utf8;

verus! {

/// The process of a server: the instance that it runs in.
pub struct IncusProcessHandle {
    pub instance_name: String,
}

/// How a process is stopped.
#[derive(Debug, PartialEq)]
pub enum Stop {
    /// By what is written to its console.
    Stdin(Vec<u8>),
    /// By requests to the API.
    Requests(Vec<Step>),
}

/// How a process is stopped.
pub enum StopView {
    Stdin(Seq<u8>),
    Requests(Seq<StepView>),
}

impl View for Stop {
    type V = StopView;

    open spec fn view(&self) -> StopView {
        match *self {
            Stop::Stdin(bytes) => StopView::Stdin(bytes@),
            Stop::Requests(steps) => StopView::Requests(step_views(steps@)),
        }
    }
}

/// The characters of an optional text.
pub open spec fn optional_text(text: Option<&str>) -> Option<Seq<char>> {
    match text {
        Some(s) => Some(s@),
        None => None,
    }
}

/// The signal that a text in upper case names: `SIGKILL`, where it names none of the others.
pub open spec fn signal_name(text: Option<Seq<char>>) -> Seq<char> {
    if text == Some("SIGINT"@) || text == Some("C"@) {
        "SIGINT"@
    } else if text == Some("SIGTERM"@) {
        "SIGTERM"@
    } else if text == Some("SIGQUIT"@) {
        "SIGQUIT"@
    } else if text == Some("SIGABRT"@) {
        "SIGABRT"@
    } else {
        "SIGKILL"@
    }
}

/// The signal that a text in upper case names.
pub fn signal_of(text: Option<&str>) -> (r: &'static str)
    ensures
        r@ == signal_name(optional_text(text)),
{
    match text {
        Some(s) => if same_text(s, "SIGINT") || same_text(s, "C") {
            "SIGINT"
        } else if same_text(s, "SIGTERM") {
            "SIGTERM"
        } else if same_text(s, "SIGQUIT") {
            "SIGQUIT"
        } else if same_text(s, "SIGABRT") {
            "SIGABRT"
        } else {
            "SIGKILL"
        },
        None => "SIGKILL",
    }
}

/// What is written to a process's console to give it a command.
pub open spec fn command_line(command: Option<Seq<char>>) -> Seq<u8> {
    match command {
        Some(text) => encode_utf8(text).push(NEWLINE),
        None => seq![NEWLINE],
    }
}

/// The text in upper case, where there is one.
pub open spec fn upper_value(value: Option<Seq<char>>) -> Option<Seq<char>> {
    match value {
        Some(text) => Some(upper_text(text)),
        None => None,
    }
}

/// How a process is stopped: by a command, by a signal, or by stopping its instance, as its
/// server's configuration says. A signal is named without regard to case.
pub open spec fn stop_of(name: Seq<char>, kind: Seq<char>, value: Option<Seq<char>>) -> StopView {
    if kind == "command"@ {
        StopView::Stdin(command_line(value))
    } else if kind == "signal"@ {
        let signal = signal_name(upper_value(value));
        StopView::Requests(seq![complete(signal_request(name, signal))])
    } else {
        StopView::Requests(seq![complete(stop_request(name))])
    }
}

/// ASCII texts that differ in the case of letters alone name the same signal.
pub proof fn law_signals_ignore_case(name: Seq<char>, a: Seq<char>, b: Seq<char>)
    requires
        is_ascii_text(a),
        is_ascii_text(b),
        a.len() == b.len(),
        forall|i: int|
            0 <= i < a.len() ==> ascii_upper(#[trigger] a[i]) == ascii_upper(#[trigger] b[i]),
    ensures
        stop_of(name, "signal"@, Some(a)) == stop_of(name, "signal"@, Some(b)),
{
    reveal_strlit("signal");
    reveal_strlit("command");
    assert("signal"@.len() != "command"@.len());
    assert(upper_text(a) =~= upper_text(b));
    assert(upper_value(Some(a)) == upper_value(Some(b)));
}

/// The request that changes what an instance may use.
pub open spec fn sync_request(
    name: Seq<char>,
    build: ServerConfigurationBuild,
    memory_bytes: u64,
    pid_limit: u64,
) -> RequestView {
    body_request(
        Method::Patch,
        instance_path(name),
        JsonView::Object(
            Map::empty().insert(
                "config"@,
                JsonView::Object(text_members(resource_config(build, memory_bytes, pid_limit))),
            ),
        ),
    )
}

/// A list of one step.
fn one_step(step: Step) -> (r: Vec<Step>)
    ensures
        step_views(r@) == seq![step@],
{
    let steps: Vec<Step> = vec![step];
    assert(step_views(steps@) =~= seq![step@]);
    steps
}

impl IncusProcessHandle {
    /// The request for the log of the process's console.
    pub fn logs(&self, client: &IncusClient) -> (r: ApiRequest)
        ensures
            r@ == log_request(self.instance_name@),
    {
        log_request_of(client, self.instance_name.as_str())
    }

    /// Brings what the process may use in line with its server's configuration.
    pub fn sync_configuration(
        &self,
        client: &IncusClient,
        build: &ServerConfigurationBuild,
        memory_bytes: u64,
        pid_limit: u64,
    ) -> (r: Vec<Step>)
        requires
            i64::MIN <= memory_of(*build) <= i64::MAX,
        ensures
            step_views(r@) == seq![
                accept(sync_request(self.instance_name@, *build, memory_bytes, pid_limit)),
            ],
    {
        let config = build_resource_config(build, memory_bytes, pid_limit);
        let body = Members::new().with("config", Json::Object(config.to_members()));
        let path = join2("/1.0/instances/", self.instance_name.as_str());
        one_step(Step::accept(client.patch(path.as_str(), Json::Object(body))))
    }

    /// Starts the process.
    pub fn start(&self, client: &IncusClient) -> (r: Vec<Step>)
        ensures
            step_views(r@) == seq![complete(start_request(self.instance_name@))],
    {
        one_step(Step::complete(client.start(self.instance_name.as_str())))
    }

    /// Stops the process by the signal that a text in upper case names.
    pub fn stop_by_signal(&self, client: &IncusClient, text: Option<&str>) -> (r: Vec<Step>)
        ensures
            step_views(r@) == seq![
                complete(
                    signal_request(self.instance_name@, signal_name(optional_text(text))),
                ),
            ],
    {
        let signal = signal_of(text);
        one_step(Step::complete(client.send_signal(self.instance_name.as_str(), signal)))
    }

    /// Stops the process, in the way that its server's configuration says.
    pub fn stop(&self, client: &IncusClient, kind: &str, value: Option<&str>) -> (r: Stop)
        ensures
            r@ == stop_of(self.instance_name@, kind@, optional_text(value)),
    {
        if same_text(kind, "command") {
            let mut command: Vec<u8> = match value {
                Some(text) => slice_to_vec(text.as_bytes()),
                None => Vec::new(),
            };
            command.push(NEWLINE);
            assert(command@ =~= command_line(optional_text(value)));
            Stop::Stdin(command)
        } else if same_text(kind, "signal") {
            match value {
                Some(text) => {
                    let upper = uppercase(text);
                    Stop::Requests(self.stop_by_signal(client, Some(upper.as_str())))
                },
                None => Stop::Requests(self.stop_by_signal(client, None)),
            }
        } else {
            Stop::Requests(one_step(Step::complete(client.stop(self.instance_name.as_str()))))
        }
    }

    /// Stops the process at once.
    pub fn kill(&self, client: &IncusClient) -> (r: Vec<Step>)
        ensures
            step_views(r@) == seq![complete(force_stop_request(self.instance_name@))],
    {
        one_step(Step::complete(client.force_stop(self.instance_name.as_str())))
    }
}

} // verus!
