use vstd::prelude::*;

use crate::address::{request_url, request_url_of};
use crate::dotenv::{dotenv_text, render_dotenv};
use crate::json::JsonValue;
use crate::merge::{
    apply_secrets, merge_secrets, merged_entries, skipped, warnings_view, MergedVariableSet,
    UnsupportedValue,
};
use crate::normalize::{normalize_response, secret_node};
use crate::stringify::opt_text;

verus! {

/// What the server gave for one request.
#[derive(Debug)]
pub enum FetchOutcome {
    /// A success status, with the decoded JSON body.
    Body(JsonValue),
    /// A status that is not a success.
    Status(u16),
    /// The request could not be completed; the text says why.
    Transport(String),
    /// The body is not JSON; the text says why.
    Decode(String),
}

/// The server answered a request for `path` with the status `status`, which
/// is not a success.
#[derive(Debug, Clone)]
pub struct VaultResponseError {
    pub status: u16,
    pub path: String,
}

/// Why a run stopped without writing anything.
#[derive(Debug)]
pub enum RunError {
    /// No request URL can be formed from the server address and this path,
    /// or the two cannot be resolved (too long, or not plain ASCII).
    InvalidAddress { path: String },
    /// A request could not be completed.
    Transport(String),
    /// The server refused a request.
    Remote(VaultResponseError),
    /// A body is not JSON.
    Decode(String),
    /// The response for this path holds no object of secrets.
    Shape { path: String },
}

/// What a run asks its driver to do next.
#[derive(Debug)]
pub enum Action {
    /// Fetch `url`, the secrets of `path`, and hand back what came.
    Fetch { path: String, url: String },
    /// Write `contents`, which sets `count` variables, to the output file.
    /// The run is over.
    Write { contents: String, count: usize },
    /// Stop, writing nothing. The run is over.
    Abort(RunError),
}

/// Why a run stops, as plain values.
pub enum Failure {
    InvalidAddress(Seq<char>),
    Transport(Seq<char>),
    Remote(u16, Seq<char>),
    Decode(Seq<char>),
    Shape(Seq<char>),
}

/// An action, as plain values.
pub enum Step {
    Fetch { path: Seq<char>, url: Seq<char> },
    Write { contents: Seq<char>, count: nat },
    Abort(Failure),
}

impl View for RunError {
    type V = Failure;

    open spec fn view(&self) -> Failure {
        match self {
            RunError::InvalidAddress { path } => Failure::InvalidAddress(path@),
            RunError::Transport(m) => Failure::Transport(m@),
            RunError::Remote(e) => Failure::Remote(e.status, e.path@),
            RunError::Decode(m) => Failure::Decode(m@),
            RunError::Shape { path } => Failure::Shape(path@),
        }
    }
}

impl View for Action {
    type V = Step;

    open spec fn view(&self) -> Step {
        match self {
            Action::Fetch { path, url } => Step::Fetch { path: path@, url: url@ },
            Action::Write { contents, count } => Step::Write { contents: contents@, count: *count as nat },
            Action::Abort(e) => Step::Abort(e@),
        }
    }
}

/// The state of a run, as plain values.
pub struct RunState {
    /// The server address.
    pub address: Seq<char>,
    /// The paths not fetched yet, in the order given; the last one goes next.
    pub pending: Seq<Seq<char>>,
    /// The path whose response is awaited.
    pub awaiting: Option<Seq<char>>,
    /// The variables merged so far.
    pub vars: Seq<(Seq<char>, Seq<char>)>,
    /// The values left out so far, as (name, path).
    pub warnings: Seq<(Seq<char>, Seq<char>)>,
    /// Whether the run has written or aborted.
    pub over: bool,
}

/// The state of a run over `paths` that has not begun.
pub open spec fn initial_state(address: Seq<char>, paths: Seq<Seq<char>>) -> RunState {
    RunState {
        address,
        pending: paths,
        awaiting: None,
        vars: Seq::empty(),
        warnings: Seq::empty(),
        over: false,
    }
}

/// The next step from a state that awaits nothing: fetch the last pending
/// path, or write once none is left.
pub open spec fn advance_spec(s: RunState) -> (RunState, Step) {
    if s.pending.len() == 0 {
        (
            RunState { over: true, ..s },
            Step::Write { contents: dotenv_text(s.vars), count: s.vars.len() },
        )
    } else {
        let path = s.pending.last();
        match request_url_of(s.address, path) {
            Some(url) => (
                RunState { pending: s.pending.drop_last(), awaiting: Some(path), ..s },
                Step::Fetch { path, url },
            ),
            None => (
                RunState { pending: s.pending.drop_last(), over: true, ..s },
                Step::Abort(Failure::InvalidAddress(path)),
            ),
        }
    }
}

/// The step after the awaited response came as `outcome`: a body whose
/// secrets can be found is merged and the run goes on; anything else aborts.
pub open spec fn resume_spec(s: RunState, outcome: FetchOutcome) -> (RunState, Step) {
    let path = s.awaiting->0;
    let t = RunState { awaiting: None, ..s };
    match outcome {
        FetchOutcome::Body(body) => match secret_node(body) {
            JsonValue::Object(secrets) => advance_spec(
                RunState {
                    vars: apply_secrets(s.vars, secrets@),
                    warnings: s.warnings + skipped(path, secrets@),
                    ..t
                },
            ),
            _ => (RunState { over: true, ..t }, Step::Abort(Failure::Shape(path))),
        },
        FetchOutcome::Status(code) => (
            RunState { over: true, ..t },
            Step::Abort(Failure::Remote(code, path)),
        ),
        FetchOutcome::Transport(m) => (
            RunState { over: true, ..t },
            Step::Abort(Failure::Transport(m@)),
        ),
        FetchOutcome::Decode(m) => (
            RunState { over: true, ..t },
            Step::Abort(Failure::Decode(m@)),
        ),
    }
}

/// The steps that a run in state `s` takes when the responses to its
/// requests come as `outcomes`, one per request, until it is over or the
/// outcomes run out.
pub open spec fn drive(s: RunState, outcomes: Seq<FetchOutcome>) -> Seq<Step>
    decreases outcomes.len(),
{
    if s.over || s.awaiting is None || outcomes.len() == 0 {
        Seq::empty()
    } else {
        let (t, a) = resume_spec(s, outcomes[0]);
        seq![a] + drive(t, outcomes.drop_first())
    }
}

/// The steps of a whole run over `paths` whose requests get `outcomes`, in
/// the order in which the requests are made.
pub open spec fn run_steps(address: Seq<char>, paths: Seq<Seq<char>>, outcomes: Seq<FetchOutcome>) -> Seq<Step> {
    let (s, a) = advance_spec(initial_state(address, paths));
    seq![a] + drive(s, outcomes)
}

proof fn lemma_drive_no_write(s: RunState, outcomes: Seq<FetchOutcome>, k: int)
    requires
        0 <= k < outcomes.len(),
        k <= s.pending.len(),
        !(outcomes[k] is Body),
    ensures
        forall|i: int| 0 <= i < drive(s, outcomes).len() ==> !(#[trigger] drive(s, outcomes)[i] is Write),
    decreases k,
{
    if !(s.over || s.awaiting is None) {
        let (t, a) = resume_spec(s, outcomes[0]);
        let rest = outcomes.drop_first();
        if k == 0 {
            assert(t.over);
            assert(drive(s, outcomes) =~= seq![a]);
        } else {
            assert(rest[k - 1] == outcomes[k]);
            lemma_drive_no_write(t, rest, k - 1);
            assert forall|i: int| 0 <= i < drive(s, outcomes).len() implies !(#[trigger] drive(
                s,
                outcomes,
            )[i] is Write) by {
                if i > 0 {
                    assert(drive(s, outcomes)[i] == drive(t, rest)[i - 1]);
                }
            }
        }
    }
}

/// A run in which a request fails writes nothing: where the `k`-th request
/// made gets anything but a body, no step of the run is a write, so the
/// output file is neither created nor changed.
pub proof fn lemma_failed_fetch_writes_nothing(
    address: Seq<char>,
    paths: Seq<Seq<char>>,
    outcomes: Seq<FetchOutcome>,
    k: int,
)
    requires
        0 <= k < paths.len(),
        k < outcomes.len(),
        !(outcomes[k] is Body),
    ensures
        forall|i: int|
            0 <= i < run_steps(address, paths, outcomes).len() ==> !(#[trigger] run_steps(
                address,
                paths,
                outcomes,
            )[i] is Write),
{
    let (s, a) = advance_spec(initial_state(address, paths));
    lemma_drive_no_write(s, outcomes, k);
    let steps = run_steps(address, paths, outcomes);
    assert forall|i: int| 0 <= i < steps.len() implies !(#[trigger] steps[i] is Write) by {
        if i > 0 {
            assert(steps[i] == drive(s, outcomes)[i - 1]);
        }
    }
}

/// The secrets that a response body holds; none where it holds no object of
/// them.
pub open spec fn body_secrets(body: JsonValue) -> Seq<(String, JsonValue)> {
    match secret_node(body) {
        JsonValue::Object(secrets) => secrets@,
        _ => Seq::empty(),
    }
}

/// The outcomes of a run whose requests all succeed, where `bodies[i]` is the
/// body for the `i`-th path given: the last path is fetched first.
pub open spec fn bodies_in_fetch_order(bodies: Seq<JsonValue>) -> Seq<FetchOutcome> {
    Seq::new(bodies.len(), |j: int| FetchOutcome::Body(bodies[bodies.len() - 1 - j]))
}

proof fn lemma_drive_all_ok(
    s: RunState,
    paths: Seq<Seq<char>>,
    bodies: Seq<JsonValue>,
    m: int,
)
    requires
        bodies.len() == paths.len(),
        0 <= m < paths.len(),
        forall|i: int| 0 <= i < bodies.len() ==> #[trigger] secret_node(bodies[i]) is Object,
        forall|i: int| 0 <= i < paths.len() ==> #[trigger] request_url_of(s.address, paths[i]) is Some,
        s.pending == paths.subrange(0, m),
        s.awaiting == Some(paths[m]),
        !s.over,
        s.vars == merged_entries(bodies.map_values(|b: JsonValue| body_secrets(b)).subrange(m + 1, paths.len() as int)),
    ensures
        ({
            let steps = drive(s, bodies_in_fetch_order(bodies).subrange(paths.len() - 1 - m, paths.len() as int));
            let all = merged_entries(bodies.map_values(|b: JsonValue| body_secrets(b)));
            &&& steps.len() == m + 1
            &&& steps[m] == Step::Write { contents: dotenv_text(all), count: all.len() }
        }),
    decreases m,
{
    let n = paths.len() as int;
    let secrets = bodies.map_values(|b: JsonValue| body_secrets(b));
    let outcomes = bodies_in_fetch_order(bodies).subrange(n - 1 - m, n);
    assert(outcomes[0] == FetchOutcome::Body(bodies[m]));
    assert(secret_node(bodies[m]) is Object);
    let (t, a) = resume_spec(s, outcomes[0]);
    let tail = secrets.subrange(m, n);
    assert(tail.drop_first() =~= secrets.subrange(m + 1, n));
    assert(tail[0] == body_secrets(bodies[m]));
    if m == 0 {
        assert(tail =~= secrets);
        assert(s.pending.len() == 0);
        assert(drive(t, outcomes.drop_first()) =~= Seq::<Step>::empty());
    } else {
        assert(s.pending.last() == paths[m - 1]);
        assert(s.pending.drop_last() =~= paths.subrange(0, m - 1));
        assert(outcomes.drop_first() =~= bodies_in_fetch_order(bodies).subrange(n - 1 - (m - 1), n));
        lemma_drive_all_ok(t, paths, bodies, m - 1);
    }
}

/// A run whose requests all succeed, each with a response that holds an
/// object of secrets, fetches every path once and then writes the dotenv text
/// of the merged secrets. The output depends on the responses alone: running
/// twice against the same secrets writes the same file.
pub proof fn lemma_output_determined_by_responses(
    address: Seq<char>,
    paths: Seq<Seq<char>>,
    bodies: Seq<JsonValue>,
)
    requires
        bodies.len() == paths.len(),
        forall|i: int| 0 <= i < bodies.len() ==> #[trigger] secret_node(bodies[i]) is Object,
        forall|i: int| 0 <= i < paths.len() ==> #[trigger] request_url_of(address, paths[i]) is Some,
    ensures
        ({
            let steps = run_steps(address, paths, bodies_in_fetch_order(bodies));
            let all = merged_entries(bodies.map_values(|b: JsonValue| body_secrets(b)));
            &&& steps.len() == paths.len() + 1
            &&& steps[paths.len() as int] == Step::Write { contents: dotenv_text(all), count: all.len() }
        }),
{
    let n = paths.len() as int;
    let outcomes = bodies_in_fetch_order(bodies);
    let (s, a) = advance_spec(initial_state(address, paths));
    if n == 0 {
        assert(bodies.map_values(|b: JsonValue| body_secrets(b)) =~= Seq::<Seq<(String, JsonValue)>>::empty());
        assert(drive(s, outcomes) =~= Seq::<Step>::empty());
    } else {
        let secrets = bodies.map_values(|b: JsonValue| body_secrets(b));
        assert(secrets.subrange(n, n) =~= Seq::<Seq<(String, JsonValue)>>::empty());
        assert(paths.drop_last() =~= paths.subrange(0, n - 1));
        assert(outcomes.subrange(0, n) =~= outcomes);
        lemma_drive_all_ok(s, paths, bodies, n - 1);
    }
}

/// One run of the pipeline: fetch every path, merge what came, and write the
/// result, or stop at the first failure.
pub struct Run {
    address: String,
    pending: Vec<String>,
    awaiting: Option<String>,
    vars: MergedVariableSet,
    warnings: Vec<UnsupportedValue>,
    over: bool,
}

/// The views of a list of strings.
pub open spec fn texts(v: Seq<String>) -> Seq<Seq<char>> {
    v.map_values(|s: String| s@)
}

impl View for Run {
    type V = RunState;

    closed spec fn view(&self) -> RunState {
        RunState {
            address: self.address@,
            pending: texts(self.pending@),
            awaiting: opt_text(self.awaiting),
            vars: self.vars.entries(),
            warnings: warnings_view(self.warnings@),
            over: self.over,
        }
    }
}

/// The action that asks for `url` for `path`, or aborts where no URL could
/// be formed.
pub fn request_action(path: String, url: Option<String>) -> (a: Action)
    ensures
        a@ == (match opt_text(url) {
            Some(u) => Step::Fetch { path: path@, url: u },
            None => Step::Abort(Failure::InvalidAddress(path@)),
        }),
{
    match url {
        Some(u) => Action::Fetch { path, url: u },
        None => Action::Abort(RunError::InvalidAddress { path }),
    }
}

impl Run {
    /// The internal invariant.
    pub closed spec fn wf(&self) -> bool {
        &&& self.vars.wf()
        &&& self.over ==> self.awaiting is None
    }

    /// A run that fetches `paths` from the server at `address`. Where paths
    /// set the same name, the first of them in `paths` decides its value.
    pub fn new(address: String, paths: Vec<String>) -> (r: Run)
        ensures
            r.wf(),
            r@ == initial_state(address@, texts(paths@)),
    {
        let r = Run {
            address,
            pending: paths,
            awaiting: None,
            vars: MergedVariableSet::new(),
            warnings: Vec::new(),
            over: false,
        };
        assert(r@.warnings =~= Seq::<(Seq<char>, Seq<char>)>::empty());
        r
    }

    /// The values left out so far because they are arrays or objects.
    pub fn warnings(&self) -> (r: &Vec<UnsupportedValue>)
        ensures
            warnings_view(r@) == self@.warnings,
    {
        &self.warnings
    }

    /// The variables merged so far.
    pub fn variables(&self) -> (r: &MergedVariableSet)
        requires
            self.wf(),
        ensures
            r.wf(),
            r.entries() == self@.vars,
    {
        &self.vars
    }

    /// The first action of a run: fetch the last path, or write an empty
    /// file where there is no path.
    pub fn start(&mut self) -> (a: Action)
        requires
            old(self).wf(),
            old(self)@.awaiting is None,
            !old(self)@.over,
        ensures
            final(self).wf(),
            (final(self)@, a@) == advance_spec(old(self)@),
    {
        self.advance()
    }

    fn advance(&mut self) -> (a: Action)
        requires
            old(self).wf(),
            old(self)@.awaiting is None,
            !old(self)@.over,
        ensures
            final(self).wf(),
            (final(self)@, a@) == advance_spec(old(self)@),
    {
        match self.pending.pop() {
            None => {
                self.over = true;
                let contents = render_dotenv(&self.vars);
                let count = self.vars.len();
                Action::Write { contents, count }
            },
            Some(path) => {
                proof {
                    assert(texts(self.pending@) =~= texts(old(self).pending@).drop_last());
                }
                let url = request_url(self.address.as_str(), path.as_str());
                if url.is_some() {
                    self.awaiting = Some(path.clone());
                } else {
                    self.over = true;
                }
                request_action(path, url)
            },
        }
    }

    /// Takes the response to the awaited request. A body whose secrets can be
    /// found is merged and the next action follows; any other outcome aborts
    /// the run.
    pub fn resume(&mut self, outcome: FetchOutcome) -> (a: Action)
        requires
            old(self).wf(),
            old(self)@.awaiting is Some,
            !old(self)@.over,
        ensures
            final(self).wf(),
            (final(self)@, a@) == resume_spec(old(self)@, outcome),
    {
        let path = self.awaiting.take().unwrap();
        match outcome {
            FetchOutcome::Body(body) => match normalize_response(&body) {
                Some(secrets) => {
                    merge_secrets(&mut self.vars, &mut self.warnings, &path, secrets);
                    self.advance()
                },
                None => {
                    self.over = true;
                    Action::Abort(RunError::Shape { path })
                },
            },
            FetchOutcome::Status(status) => {
                self.over = true;
                Action::Abort(RunError::Remote(VaultResponseError { status, path }))
            },
            FetchOutcome::Transport(m) => {
                self.over = true;
                Action::Abort(RunError::Transport(m))
            },
            FetchOutcome::Decode(m) => {
                self.over = true;
                Action::Abort(RunError::Decode(m))
            },
        }
    }
}

} // verus!
