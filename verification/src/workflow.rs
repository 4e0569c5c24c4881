//! Work that takes several requests: which request comes next, and when the work is over.
use crate::client::{
    awaited_operation, finished_operation, operation_outcome, outcome_view, plain_request,
    wait_path, ApiRequest, ErrorView, IncusClient, IncusError, Method, RequestView,
};
use crate::json::{Json, JsonView};
use vstd::prelude::*;

verus! {

/// What becomes of the answer to a request.
#[derive(Debug, Clone, Copy, PartialEq, Eq, Structural)]
pub enum Handling {
    /// A failed request ends the work; an operation that the request started is waited for, and
    /// its failure ends the work too.
    Complete,
    /// A failed request ends the work; what the answer says does not matter.
    Accept,
    /// Whether the request fails does not matter.
    Attempt,
}

/// One request of some work.
#[derive(Debug, PartialEq)]
pub struct Step {
    pub request: ApiRequest,
    pub handling: Handling,
}

/// What a step asks, and what becomes of the answer.
pub struct StepView {
    pub request: RequestView,
    pub handling: Handling,
}

impl View for Step {
    type V = StepView;

    open spec fn view(&self) -> StepView {
        StepView { request: self.request@, handling: self.handling }
    }
}

/// The steps of a list.
pub open spec fn step_views(steps: Seq<Step>) -> Seq<StepView> {
    steps.map_values(|step: Step| step@)
}

/// A request whose failure, or that of the operation it starts, ends the work.
pub open spec fn complete(request: RequestView) -> StepView {
    StepView { request, handling: Handling::Complete }
}

/// A request whose failure ends the work.
pub open spec fn accept(request: RequestView) -> StepView {
    StepView { request, handling: Handling::Accept }
}

/// A request that may fail.
pub open spec fn attempt(request: RequestView) -> StepView {
    StepView { request, handling: Handling::Attempt }
}

impl Step {
    /// A request whose failure, or that of the operation it starts, ends the work.
    pub fn complete(request: ApiRequest) -> (r: Step)
        ensures
            r@ == complete(request@),
    {
        Step { request, handling: Handling::Complete }
    }

    /// A request whose failure ends the work.
    pub fn accept(request: ApiRequest) -> (r: Step)
        ensures
            r@ == accept(request@),
    {
        Step { request, handling: Handling::Accept }
    }

    /// A request that may fail.
    pub fn attempt(request: ApiRequest) -> (r: Step)
        ensures
            r@ == attempt(request@),
    {
        Step { request, handling: Handling::Attempt }
    }
}

/// What the outcome is awaited of.
#[derive(Debug, Clone, Copy, PartialEq, Eq, Structural)]
pub enum Awaited {
    /// A step's request, with what becomes of its answer.
    Answer(Handling),
    /// The operation that a step's request started.
    Operation,
}

/// Work with a request under way.
#[derive(Debug, PartialEq)]
pub struct Pending {
    pub awaited: Awaited,
    /// The steps that are still to come.
    pub rest: Vec<Step>,
}

/// What is awaited, and the steps that are still to come.
pub struct PendingView {
    pub awaited: Awaited,
    pub rest: Seq<StepView>,
}

impl View for Pending {
    type V = PendingView;

    open spec fn view(&self) -> PendingView {
        PendingView { awaited: self.awaited, rest: step_views(self.rest@) }
    }
}

/// How work goes on.
#[derive(Debug, PartialEq)]
pub enum Progress {
    /// This request is to be sent, and its outcome resumes the work.
    Send(ApiRequest, Pending),
    /// The work is done.
    Finished,
    /// The work has failed.
    Failed(IncusError),
}

/// How work goes on.
pub enum ProgressView {
    Send(RequestView, PendingView),
    Finished,
    Failed(ErrorView),
}

impl View for Progress {
    type V = ProgressView;

    open spec fn view(&self) -> ProgressView {
        match *self {
            Progress::Send(request, pending) => ProgressView::Send(request@, pending@),
            Progress::Finished => ProgressView::Finished,
            Progress::Failed(error) => ProgressView::Failed(error@),
        }
    }
}

/// How work that consists of these steps starts: with the first of them.
pub open spec fn begun(steps: Seq<StepView>) -> ProgressView {
    if steps.len() == 0 {
        ProgressView::Finished
    } else {
        ProgressView::Send(
            steps[0].request,
            PendingView { awaited: Awaited::Answer(steps[0].handling), rest: steps.skip(1) },
        )
    }
}

/// How work goes on after the outcome of a request.
pub open spec fn resumed(
    pending: PendingView,
    outcome: Result<JsonView, ErrorView>,
) -> ProgressView {
    match (pending.awaited, outcome) {
        (Awaited::Answer(Handling::Attempt), _) => begun(pending.rest),
        (_, Err(error)) => ProgressView::Failed(error),
        (Awaited::Answer(Handling::Accept), Ok(_)) => begun(pending.rest),
        (Awaited::Answer(Handling::Complete), Ok(response)) => match awaited_operation(response) {
            Some(operation) => ProgressView::Send(
                plain_request(Method::Get, wait_path(operation)),
                PendingView { awaited: Awaited::Operation, rest: pending.rest },
            ),
            None => begun(pending.rest),
        },
        (Awaited::Operation, Ok(response)) => match finished_operation(response) {
            Err(error) => ProgressView::Failed(error),
            Ok(_) => begun(pending.rest),
        },
    }
}

/// Starts work that consists of the given steps.
pub fn begin(steps: Vec<Step>) -> (r: Progress)
    ensures
        r@ == begun(step_views(steps@)),
{
    let mut rest = steps;
    if rest.len() == 0 {
        Progress::Finished
    } else {
        let step = rest.remove(0);
        proof {
            let views = step_views(steps@);
            assert(views[0] == step@);
            assert(step_views(rest@) =~= views.skip(1));
        }
        Progress::Send(step.request, Pending { awaited: Awaited::Answer(step.handling), rest })
    }
}

impl Pending {
    /// Goes on after the outcome of the request under way.
    pub fn resume(self, client: &IncusClient, outcome: Result<Json, IncusError>) -> (r: Progress)
        ensures
            r@ == resumed(self@, outcome_view(outcome)),
    {
        match self.awaited {
            Awaited::Answer(handling) => match outcome {
                Err(error) => match handling {
                    Handling::Attempt => begin(self.rest),
                    _ => Progress::Failed(error),
                },
                Ok(response) => match handling {
                    Handling::Complete => match client.ensure_done(&response) {
                        Some(request) => Progress::Send(
                            request,
                            Pending { awaited: Awaited::Operation, rest: self.rest },
                        ),
                        None => begin(self.rest),
                    },
                    _ => begin(self.rest),
                },
            },
            Awaited::Operation => match outcome {
                Err(error) => Progress::Failed(error),
                Ok(response) => match operation_outcome(response) {
                    Err(error) => Progress::Failed(error),
                    Ok(_) => begin(self.rest),
                },
            },
        }
    }
}

/// How work has gone on after these outcomes, one after the other.
pub open spec fn after(
    progress: ProgressView,
    outcomes: Seq<Result<JsonView, ErrorView>>,
) -> ProgressView
    decreases outcomes.len(),
{
    match progress {
        ProgressView::Send(_, pending) => if outcomes.len() == 0 {
            progress
        } else {
            after(resumed(pending, outcomes[0]), outcomes.skip(1))
        },
        _ => progress,
    }
}

/// The requests that were sent while these outcomes came, one after the other, each with what was
/// awaited of it.
pub open spec fn sent(
    progress: ProgressView,
    outcomes: Seq<Result<JsonView, ErrorView>>,
) -> Seq<(RequestView, Awaited)>
    decreases outcomes.len(),
{
    match progress {
        ProgressView::Send(request, pending) => seq![(request, pending.awaited)]
            + if outcomes.len() == 0 {
            Seq::empty()
        } else {
            sent(resumed(pending, outcomes[0]), outcomes.skip(1))
        },
        _ => Seq::empty(),
    }
}

/// What the requests of steps are sent as.
pub open spec fn answers(steps: Seq<StepView>) -> Seq<(RequestView, Awaited)> {
    steps.map_values(|step: StepView| (step.request, Awaited::Answer(step.handling)))
}

/// The requests among those sent that are no waiting for an operation.
pub open spec fn own_requests(requests: Seq<(RequestView, Awaited)>) -> Seq<(RequestView, Awaited)>
    decreases requests.len(),
{
    if requests.len() == 0 {
        Seq::empty()
    } else if requests[0].1 is Operation {
        own_requests(requests.skip(1))
    } else {
        seq![requests[0]] + own_requests(requests.skip(1))
    }
}

/// An outcome after which a step's successor is due at once.
pub open spec fn is_immediate(outcome: Result<JsonView, ErrorView>) -> bool {
    outcome matches Ok(response) && awaited_operation(response) is None
}

/// Where every request succeeds and starts no operation, each step's request is sent once, in the
/// order of the steps, and the work is then done.
pub proof fn law_steps_run_in_order(
    steps: Seq<StepView>,
    outcomes: Seq<Result<JsonView, ErrorView>>,
)
    requires
        outcomes.len() == steps.len(),
        forall|i: int| 0 <= i < outcomes.len() ==> is_immediate(#[trigger] outcomes[i]),
    ensures
        sent(begun(steps), outcomes) == answers(steps),
        after(begun(steps), outcomes) == ProgressView::Finished,
    decreases steps.len(),
{
    if steps.len() > 0 {
        assert(is_immediate(outcomes[0]));
        law_steps_run_in_order(steps.skip(1), outcomes.skip(1));
        assert(answers(steps) =~= seq![(steps[0].request, Awaited::Answer(steps[0].handling))]
            + answers(steps.skip(1)));
    }
}

/// Steps that may fail are all taken, in their order, and the work is then done, whatever comes of
/// their requests.
pub proof fn law_attempts_are_all_made(
    steps: Seq<StepView>,
    outcomes: Seq<Result<JsonView, ErrorView>>,
)
    requires
        outcomes.len() == steps.len(),
        forall|i: int|
            0 <= i < steps.len() ==> (#[trigger] steps[i]).handling == Handling::Attempt,
    ensures
        sent(begun(steps), outcomes) == answers(steps),
        after(begun(steps), outcomes) == ProgressView::Finished,
    decreases steps.len(),
{
    if steps.len() > 0 {
        assert(steps[0].handling == Handling::Attempt);
        law_attempts_are_all_made(steps.skip(1), outcomes.skip(1));
        assert(answers(steps) =~= seq![(steps[0].request, Awaited::Answer(steps[0].handling))]
            + answers(steps.skip(1)));
    }
}

/// The requests of the steps are sent in the order of the steps, none of them twice and nothing
/// between them but waiting for operations, whatever comes of the requests.
pub proof fn law_only_steps_are_sent(
    steps: Seq<StepView>,
    outcomes: Seq<Result<JsonView, ErrorView>>,
)
    ensures
        own_requests(sent(begun(steps), outcomes)).is_prefix_of(answers(steps)),
    decreases outcomes.len(), 1int,
{
    if steps.len() > 0 {
        let first = (steps[0].request, Awaited::Answer(steps[0].handling));
        let pending = PendingView {
            awaited: Awaited::Answer(steps[0].handling),
            rest: steps.skip(1),
        };
        assert(answers(steps) =~= seq![first] + answers(steps.skip(1)));
        let requests = sent(begun(steps), outcomes);
        if outcomes.len() > 0 {
            lemma_resumed_sends(pending, outcomes);
            assert(requests.skip(1) =~= sent(resumed(pending, outcomes[0]), outcomes.skip(1)));
        } else {
            assert(requests.skip(1) =~= Seq::empty());
        }
        let others = own_requests(requests.skip(1));
        assert(others.is_prefix_of(answers(steps.skip(1))));
        assert(requests[0] == first);
        assert(own_requests(requests) =~= seq![first] + others);
    } else {
        assert(sent(begun(steps), outcomes) =~= Seq::empty());
    }
}

/// After an outcome, what is sent of the steps is a part of the steps to come.
proof fn lemma_resumed_sends(pending: PendingView, outcomes: Seq<Result<JsonView, ErrorView>>)
    requires
        outcomes.len() > 0,
    ensures
        own_requests(sent(resumed(pending, outcomes[0]), outcomes.skip(1))).is_prefix_of(
            answers(pending.rest),
        ),
    decreases outcomes.len(), 0int,
{
    let others = outcomes.skip(1);
    match resumed(pending, outcomes[0]) {
        ProgressView::Send(request, next) => {
            if next.awaited is Operation {
                let requests = sent(resumed(pending, outcomes[0]), others);
                if others.len() > 0 {
                    lemma_resumed_sends(next, others);
                    assert(requests.skip(1) =~= sent(resumed(next, others[0]), others.skip(1)));
                } else {
                    assert(requests.skip(1) =~= Seq::empty());
                }
                assert(requests[0].1 is Operation);
                assert(own_requests(requests) == own_requests(requests.skip(1)));
            } else {
                law_only_steps_are_sent(pending.rest, others);
            }
        },
        _ => {
            assert(sent(resumed(pending, outcomes[0]), others) =~= Seq::empty());
        },
    }
}

/// The step after one that is to be completed is not sent before the operation that the latter
/// started has finished without failure.
pub proof fn law_operations_are_awaited(
    steps: Seq<StepView>,
    response: JsonView,
    outcome: Result<JsonView, ErrorView>,
)
    requires
        steps.len() > 0,
        steps[0].handling == Handling::Complete,
        awaited_operation(response) is Some,
    ensures
        after(begun(steps), seq![Ok(response)]) matches ProgressView::Send(request, pending)
            && request == plain_request(Method::Get, wait_path(awaited_operation(response)->0))
            && pending.awaited == Awaited::Operation,
        after(begun(steps), seq![Ok(response), outcome]) == match outcome {
            Err(error) => ProgressView::Failed(error),
            Ok(answer) => match finished_operation(answer) {
                Err(error) => ProgressView::Failed(error),
                Ok(_) => begun(steps.skip(1)),
            },
        },
{
    reveal_with_fuel(after, 3);
    assert(seq![Ok::<JsonView, ErrorView>(response), outcome].skip(1) =~= seq![outcome]);
}

/// A failed request whose failure matters is the last one.
pub proof fn law_failure_ends_the_work(
    steps: Seq<StepView>,
    error: ErrorView,
    later: Seq<Result<JsonView, ErrorView>>,
)
    requires
        steps.len() > 0,
        steps[0].handling != Handling::Attempt,
    ensures
        after(begun(steps), seq![Err(error)] + later) == ProgressView::Failed(error),
        sent(begun(steps), seq![Err(error)] + later).len() == 1,
{
    reveal_with_fuel(after, 2);
    reveal_with_fuel(sent, 2);
    let outcomes = seq![Err::<JsonView, ErrorView>(error)] + later;
    assert(outcomes[0] == Err::<JsonView, ErrorView>(error));
}

/// How work goes on, for each thing that can be awaited and each outcome. An attempt goes on in any
/// case; other failures end the work, as they are; a step that is to be completed waits for the
/// operation that it started; and the next step is sent with all that is left behind it.
pub proof fn law_work_goes_on_by_the_outcome(
    rest: Seq<StepView>,
    handling: Handling,
    response: JsonView,
    error: ErrorView,
)
    ensures
        resumed(
            PendingView { awaited: Awaited::Answer(Handling::Attempt), rest },
            Ok(response),
        ) == begun(rest),
        resumed(
            PendingView { awaited: Awaited::Answer(Handling::Attempt), rest },
            Err(error),
        ) == begun(rest),
        resumed(
            PendingView { awaited: Awaited::Answer(Handling::Accept), rest },
            Ok(response),
        ) == begun(rest),
        handling != Handling::Attempt ==> resumed(
            PendingView { awaited: Awaited::Answer(handling), rest },
            Err(error),
        ) == ProgressView::Failed(error),
        resumed(
            PendingView { awaited: Awaited::Operation, rest },
            Err(error),
        ) == ProgressView::Failed(error),
        resumed(
            PendingView { awaited: Awaited::Answer(Handling::Complete), rest },
            Ok(response),
        ) == match awaited_operation(response) {
            Some(operation) => ProgressView::Send(
                RequestView { method: Method::Get, path: operation + "/wait"@, body: None },
                PendingView { awaited: Awaited::Operation, rest },
            ),
            None => begun(rest),
        },
        resumed(
            PendingView { awaited: Awaited::Operation, rest },
            Ok(response),
        ) == match finished_operation(response) {
            Ok(_) => begun(rest),
            Err(failure) => ProgressView::Failed(failure),
        },
        rest.len() == 0 ==> begun(rest) == ProgressView::Finished,
        rest.len() > 0 ==> begun(rest) == ProgressView::Send(
            rest[0].request,
            PendingView { awaited: Awaited::Answer(rest[0].handling), rest: rest.skip(1) },
        ),
{
}

/// What is said of work under way is what it holds.
pub proof fn law_work_is_what_it_holds(request: ApiRequest, pending: Pending, error: IncusError)
    ensures
        Progress::Finished@ == ProgressView::Finished,
        Progress::Failed(error)@ == ProgressView::Failed(error@),
        Progress::Send(request, pending)@ == ProgressView::Send(request@, pending@),
        pending@.awaited == pending.awaited,
        pending@.rest == pending.rest@.map_values(|step: Step| step@),
{
}

} // verus!
