//! The requests that instances are made, run and removed with.
use crate::client::{
    body_request, instance_path, plain_request, ApiRequest, IncusClient, Method, RequestView,
};
use crate::console::texts;
use crate::json::{lemma_array_view, Json, JsonView, Members};
use crate::stats::{state_path, state_path_of};
use crate::text::join2;
use vstd::prelude::*;

verus! {

/// An array of texts.
pub open spec fn text_array(words: Seq<Seq<char>>) -> JsonView {
    JsonView::Array(words.map_values(|word: Seq<char>| JsonView::Text(word)))
}

/// An array of texts.
fn build_text_array(words: Vec<String>) -> (r: Json)
    ensures
        r@ == text_array(texts(words@)),
{
    let mut items: Vec<Json> = Vec::new();
    for word in it: words
        invariant
            it.seq() == words@,
            items@.len() == it.index(),
            forall|i: int| 0 <= i < items@.len() ==> #[trigger] items@[i]@ == JsonView::Text(
                words@[i]@,
            ),
    {
        items.push(Json::Text(word));
    }
    proof {
        lemma_array_view(items);
        assert(items@.map_values(|item: Json| item@) =~= texts(words@).map_values(
            |word: Seq<char>| JsonView::Text(word),
        ));
    }
    Json::Array(items)
}

/// The request that creates an instance.
pub open spec fn create_request(body: JsonView) -> RequestView {
    body_request(Method::Post, "/1.0/instances"@, body)
}

/// The request that removes an instance.
pub open spec fn delete_request(name: Seq<char>) -> RequestView {
    plain_request(Method::Delete, instance_path(name))
}

/// The request that changes the state of an instance.
pub open spec fn state_request(name: Seq<char>, body: Map<Seq<char>, JsonView>) -> RequestView {
    body_request(Method::Put, state_path(name), JsonView::Object(body))
}

/// The request that starts an instance.
pub open spec fn start_request(name: Seq<char>) -> RequestView {
    state_request(name, Map::empty().insert("action"@, JsonView::Text("start"@)))
}

/// The request that stops an instance, within half a minute.
pub open spec fn stop_request(name: Seq<char>) -> RequestView {
    state_request(
        name,
        Map::empty().insert("action"@, JsonView::Text("stop"@)).insert(
            "timeout"@,
            JsonView::Unsigned(30),
        ),
    )
}

/// The request that stops an instance at once.
pub open spec fn force_stop_request(name: Seq<char>) -> RequestView {
    state_request(
        name,
        Map::empty().insert("action"@, JsonView::Text("stop"@)).insert(
            "force"@,
            JsonView::Bool(true),
        ),
    )
}

/// The request that runs a command in an instance.
pub open spec fn exec_request(name: Seq<char>, body: Map<Seq<char>, JsonView>) -> RequestView {
    body_request(Method::Post, instance_path(name) + "/exec"@, JsonView::Object(body))
}

/// What is said of every command that is run in an instance.
pub open spec fn command_members(words: Seq<Seq<char>>, interactive: bool) -> Map<
    Seq<char>,
    JsonView,
> {
    Map::empty().insert("command"@, text_array(words)).insert(
        "wait-for-websocket"@,
        JsonView::Bool(false),
    ).insert("interactive"@, JsonView::Bool(interactive))
}

/// The request that sends a signal to the first process of an instance.
pub open spec fn signal_request(name: Seq<char>, signal: Seq<char>) -> RequestView {
    exec_request(name, command_members(seq!["kill"@, "-"@ + signal, "1"@], false))
}

/// The request that runs a script in an instance, and keeps its output.
pub open spec fn script_request(
    name: Seq<char>,
    entrypoint: Seq<char>,
    script: Seq<char>,
) -> RequestView {
    exec_request(
        name,
        command_members(seq![entrypoint, script], true).insert(
            "record-output"@,
            JsonView::Bool(true),
        ),
    )
}

impl IncusClient {
    /// The request that creates an instance.
    pub fn create(&self, body: Json) -> (r: ApiRequest)
        ensures
            r@ == create_request(body@),
    {
        self.post("/1.0/instances", body)
    }

    /// The request that removes an instance.
    pub fn remove(&self, name: &str) -> (r: ApiRequest)
        ensures
            r@ == delete_request(name@),
    {
        self.delete(join2("/1.0/instances/", name).as_str())
    }

    /// The request that changes the state of an instance.
    fn put_state(&self, name: &str, body: Members) -> (r: ApiRequest)
        ensures
            r@ == state_request(name@, body@),
    {
        self.put(state_path_of(name).as_str(), Json::Object(body))
    }

    /// The request that starts an instance.
    pub fn start(&self, name: &str) -> (r: ApiRequest)
        ensures
            r@ == start_request(name@),
    {
        self.put_state(name, Members::new().with_text("action", "start"))
    }

    /// The request that stops an instance, within half a minute.
    pub fn stop(&self, name: &str) -> (r: ApiRequest)
        ensures
            r@ == stop_request(name@),
    {
        let body = Members::new().with_text("action", "stop").with("timeout", Json::Unsigned(30));
        self.put_state(name, body)
    }

    /// The request that stops an instance at once.
    pub fn force_stop(&self, name: &str) -> (r: ApiRequest)
        ensures
            r@ == force_stop_request(name@),
    {
        let body = Members::new().with_text("action", "stop").with("force", Json::Bool(true));
        self.put_state(name, body)
    }

    /// The request that sends a signal to the first process of an instance.
    pub fn send_signal(&self, name: &str, signal: &str) -> (r: ApiRequest)
        ensures
            r@ == signal_request(name@, signal@),
    {
        let words: Vec<String> = vec!["kill".to_string(), join2("-", signal), "1".to_string()];
        assert(texts(words@) =~= seq!["kill"@, "-"@ + signal@, "1"@]);
        let body = build_command(words, false);
        self.post(exec_path(name).as_str(), Json::Object(body))
    }

    /// The request that runs a script in an instance, and keeps its output.
    pub fn run_script(&self, name: &str, entrypoint: &str, script: &str) -> (r: ApiRequest)
        ensures
            r@ == script_request(name@, entrypoint@, script@),
    {
        let words: Vec<String> = vec![entrypoint.to_string(), script.to_string()];
        assert(texts(words@) =~= seq![entrypoint@, script@]);
        let body = build_command(words, true).with("record-output", Json::Bool(true));
        self.post(exec_path(name).as_str(), Json::Object(body))
    }
}

/// The path under which commands are run in an instance.
fn exec_path(name: &str) -> (r: String)
    ensures
        r@ == instance_path(name@) + "/exec"@,
{
    join2(join2("/1.0/instances/", name).as_str(), "/exec")
}

/// What is said of every command that is run in an instance.
fn build_command(words: Vec<String>, interactive: bool) -> (r: Members)
    ensures
        r@ == command_members(texts(words@), interactive),
{
    Members::new().with("command", build_text_array(words)).with(
        "wait-for-websocket",
        Json::Bool(false),
    ).with("interactive", Json::Bool(interactive))
}

} // verus!
