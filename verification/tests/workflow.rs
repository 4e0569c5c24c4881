use incus_executor::client::{ApiRequest, IncusClient, IncusError, Method};
use incus_executor::json::Json;
use incus_executor::workflow::{begin, Progress, Step};

fn read(text: &str) -> Json {
    Json::from_slice(text.as_bytes()).unwrap()
}

fn request(path: &str) -> ApiRequest {
    ApiRequest { method: Method::Get, path: path.to_string(), body: None }
}

fn failure() -> IncusError {
    IncusError::Transport("refused".to_string())
}

/// Runs steps on given outcomes: the paths of the requests that were sent, and how it ended.
fn run(
    steps: Vec<Step>,
    outcomes: Vec<Result<Json, IncusError>>,
) -> (Vec<String>, Option<Result<(), IncusError>>) {
    let client = IncusClient::new("s");
    let mut paths = Vec::new();
    let mut outcomes = outcomes.into_iter();
    let mut progress = begin(steps);
    loop {
        match progress {
            Progress::Send(request, pending) => {
                paths.push(request.path);
                match outcomes.next() {
                    Some(outcome) => progress = pending.resume(&client, outcome),
                    None => return (paths, None),
                }
            }
            Progress::Finished => return (paths, Some(Ok(()))),
            Progress::Failed(error) => return (paths, Some(Err(error))),
        }
    }
}

fn paths(texts: &[&str]) -> Vec<String> {
    texts.iter().map(|text| text.to_string()).collect()
}

#[test]
fn no_steps_are_done_at_once() {
    assert_eq!(run(vec![], vec![]), (vec![], Some(Ok(()))));
}

#[test]
fn steps_run_in_order() {
    let steps = vec![
        Step::complete(request("/1")),
        Step::accept(request("/2")),
        Step::attempt(request("/3")),
    ];
    let outcomes = vec![Ok(read("{}")), Ok(read("null")), Ok(read(r#"{"type": "sync"}"#))];
    assert_eq!(run(steps, outcomes), (paths(&["/1", "/2", "/3"]), Some(Ok(()))));
}

#[test]
fn only_completed_steps_wait_for_operations() {
    let started = r#"{"type": "async", "operation": "/op"}"#;
    let steps = vec![
        Step::accept(request("/1")),
        Step::complete(request("/2")),
        Step::attempt(request("/3")),
    ];
    let outcomes =
        vec![Ok(read(started)), Ok(read(started)), Ok(read("{}")), Ok(read(started))];
    assert_eq!(run(steps, outcomes), (paths(&["/1", "/2", "/op/wait", "/3"]), Some(Ok(()))));
}

#[test]
fn failed_requests_end_the_work() {
    let steps = vec![Step::complete(request("/1")), Step::complete(request("/2"))];
    assert_eq!(run(steps, vec![Err(failure())]), (paths(&["/1"]), Some(Err(failure()))));
    let steps = vec![Step::accept(request("/1")), Step::complete(request("/2"))];
    assert_eq!(run(steps, vec![Err(failure())]), (paths(&["/1"]), Some(Err(failure()))));
}

#[test]
fn failed_operations_end_the_work() {
    let started = r#"{"type": "async", "operation": "/op"}"#;
    let steps = vec![Step::complete(request("/1")), Step::complete(request("/2"))];
    let outcomes =
        vec![Ok(read(started)), Ok(read(r#"{"metadata": {"status": "Failure", "err": "no"}}"#))];
    assert_eq!(
        run(steps, outcomes),
        (paths(&["/1", "/op/wait"]), Some(Err(IncusError::OperationFailed("no".to_string()))))
    );
    let steps = vec![Step::complete(request("/1")), Step::complete(request("/2"))];
    let outcomes = vec![Ok(read(started)), Err(failure())];
    assert_eq!(run(steps, outcomes), (paths(&["/1", "/op/wait"]), Some(Err(failure()))));
}

#[test]
fn attempts_are_all_made() {
    let steps = vec![Step::attempt(request("/1")), Step::attempt(request("/2"))];
    let outcomes = vec![Err(failure()), Err(failure())];
    assert_eq!(run(steps, outcomes), (paths(&["/1", "/2"]), Some(Ok(()))));
}

#[test]
fn work_stays_open_without_an_outcome() {
    let steps = vec![Step::attempt(request("/1")), Step::attempt(request("/2"))];
    assert_eq!(run(steps, vec![Ok(read("{}"))]), (paths(&["/1", "/2"]), None));
}
