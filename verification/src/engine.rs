//! The invocation engine.
//!
//! One remote invocation is a sequential protocol: submit the input, enqueue
//! it explicitly if the submission did not already accept it, poll for the
//! output a bounded number of times, and fetch the result out-of-band when it
//! arrived as a blob reference rather than inline bytes.
//!
//! The engine is a state machine over plain values.  Each transition consumes
//! the transport's answer to the previous request (an [`EngineEvent`]) and
//! yields the next state together with the next request to perform (an
//! [`EngineAction`]).  The unverified shell owns the sockets: it performs
//! each action, feeds the response back in, and stops at [`EngineAction::Finish`],
//! at which point the state is [`EngineState::Done`] and carries either the
//! result bytes or one definitive error.

use vstd::prelude::*;
use crate::wire::clone_bytes;

verus! {

/// Cap on poll requests for one invocation; reaching it is a timeout.
pub const MAX_POLL_ATTEMPTS: u32 = 60;

/// Local delay before every poll after an empty one, in milliseconds.
pub const POLL_DELAY_MS: u64 = 500;

/// Server-side wait budget each poll request asks for, in milliseconds.
pub const POLL_WAIT_MS: u64 = 5000;

/// Each poll request asks for at most this many output values.
pub const POLL_MAX_VALUES: u64 = 1;

/// The payload encoding declared for each submitted input item.
#[derive(Clone, Copy, PartialEq, Eq, Structural, Debug)]
pub enum DataFormat {
    Cbor,
}

/// One input item of a submission: positional index, encoded payload,
/// declared payload format, and whether the input stream ends here.
#[derive(Debug)]
pub struct InputItem {
    pub idx: u32,
    pub args: Vec<u8>,
    pub data_format: DataFormat,
    pub final_input: bool,
}

/// The abstract value of an [`InputItem`].
pub struct ItemModel {
    pub idx: u32,
    pub args: Seq<u8>,
    pub data_format: DataFormat,
    pub final_input: bool,
}

impl View for InputItem {
    type V = ItemModel;

    open spec fn view(&self) -> ItemModel {
        ItemModel {
            idx: self.idx,
            args: self.args@,
            data_format: self.data_format,
            final_input: self.final_input,
        }
    }
}

impl InputItem {
    /// Copies the item.
    pub fn duplicate(&self) -> (r: InputItem)
        ensures
            r@ == self@,
    {
        InputItem {
            idx: self.idx,
            args: clone_bytes(&self.args),
            data_format: self.data_format,
            final_input: self.final_input,
        }
    }
}

/// One terminal result envelope from a poll response.  At most one of the
/// data fields is present; with neither present, a non-empty exception text
/// or a non-zero exit code marks a remote failure.
#[derive(Debug, Clone)]
pub struct ResultEnvelope {
    pub data: Option<Vec<u8>>,
    pub data_blob_id: Option<String>,
    pub exception: String,
    pub exitcode: i32,
}

/// The abstract value of a [`ResultEnvelope`].
pub struct EnvelopeModel {
    pub data: Option<Seq<u8>>,
    pub data_blob_id: Option<Seq<char>>,
    pub exception: Seq<char>,
    pub exitcode: i32,
}

impl View for ResultEnvelope {
    type V = EnvelopeModel;

    open spec fn view(&self) -> EnvelopeModel {
        EnvelopeModel {
            data: match &self.data {
                Some(d) => Some(d@),
                None => None,
            },
            data_blob_id: match &self.data_blob_id {
                Some(b) => Some(b@),
                None => None,
            },
            exception: self.exception@,
            exitcode: self.exitcode,
        }
    }
}

/// A terminal invocation failure.
#[derive(Debug)]
pub enum InvocationError {
    /// A lookup returned an empty function identifier.
    NotFound,
    /// The explicit enqueue accepted zero inputs: server-side capacity.
    QueueFull,
    /// The invoked code raised; carries the remote exception text.
    RemoteException(String),
    /// The remote process exited non-zero; carries the exit code.
    RemoteExitCode(i32),
    /// The poll attempt bound was exhausted without an output.
    Timeout,
    /// A method name was not registered on the instance.
    MethodNotFound,
}

/// The abstract value of an [`InvocationError`].
pub enum ErrorModel {
    NotFound,
    QueueFull,
    RemoteException(Seq<char>),
    RemoteExitCode(i32),
    Timeout,
    MethodNotFound,
}

impl View for InvocationError {
    type V = ErrorModel;

    open spec fn view(&self) -> ErrorModel {
        match self {
            InvocationError::NotFound => ErrorModel::NotFound,
            InvocationError::QueueFull => ErrorModel::QueueFull,
            InvocationError::RemoteException(s) => ErrorModel::RemoteException(s@),
            InvocationError::RemoteExitCode(c) => ErrorModel::RemoteExitCode(*c),
            InvocationError::Timeout => ErrorModel::Timeout,
            InvocationError::MethodNotFound => ErrorModel::MethodNotFound,
        }
    }
}

/// Where one invocation stands.
#[derive(Debug)]
pub enum EngineState {
    /// The submission request is in flight.
    Submitting { function_id: String, input: InputItem },
    /// The submission did not accept the input; an explicit enqueue is in flight.
    Enqueueing { function_id: String, call_id: String, input: InputItem },
    /// Waiting for an output; `attempts` polls have completed empty.
    Polling { call_id: String, attempts: u32 },
    /// The output arrived as a blob reference; its metadata lookup is in flight.
    ResolvingBlob { blob_id: String },
    /// A plain content fetch against the short-lived URL is in flight.
    Fetching { url: String },
    /// Terminal: the result bytes or one definitive error.
    Done { outcome: Result<Vec<u8>, InvocationError> },
}

/// The abstract value of an [`EngineState`].
pub enum StateModel {
    Submitting { function_id: Seq<char>, input: ItemModel },
    Enqueueing { function_id: Seq<char>, call_id: Seq<char>, input: ItemModel },
    Polling { call_id: Seq<char>, attempts: u32 },
    ResolvingBlob { blob_id: Seq<char> },
    Fetching { url: Seq<char> },
    Done { outcome: Result<Seq<u8>, ErrorModel> },
}

impl View for EngineState {
    type V = StateModel;

    open spec fn view(&self) -> StateModel {
        match self {
            EngineState::Submitting { function_id, input } => StateModel::Submitting {
                function_id: function_id@,
                input: input@,
            },
            EngineState::Enqueueing { function_id, call_id, input } => StateModel::Enqueueing {
                function_id: function_id@,
                call_id: call_id@,
                input: input@,
            },
            EngineState::Polling { call_id, attempts } => StateModel::Polling {
                call_id: call_id@,
                attempts: *attempts,
            },
            EngineState::ResolvingBlob { blob_id } => StateModel::ResolvingBlob {
                blob_id: blob_id@,
            },
            EngineState::Fetching { url } => StateModel::Fetching { url: url@ },
            EngineState::Done { outcome } => StateModel::Done {
                outcome: match outcome {
                    Ok(d) => Ok(d@),
                    Err(e) => Err(e@),
                },
            },
        }
    }
}

/// The transport's answer to the previous action.
#[derive(Debug)]
pub enum EngineEvent {
    /// Submission response: the new call identifier and how many of the
    /// submitted inputs were already accepted ("pipelined").
    Submitted { call_id: String, pipelined: usize },
    /// Enqueue response: how many inputs the server accepted.
    InputsPut { accepted: usize },
    /// Poll response: zero or one result envelope.
    Polled { output: Option<ResultEnvelope> },
    /// Blob metadata response: the short-lived download URL.
    BlobResolved { url: String },
    /// The bytes fetched from the download URL.
    Fetched { data: Vec<u8> },
}

/// The abstract value of an [`EngineEvent`].
pub enum EventModel {
    Submitted { call_id: Seq<char>, pipelined: usize },
    InputsPut { accepted: usize },
    Polled { output: Option<EnvelopeModel> },
    BlobResolved { url: Seq<char> },
    Fetched { data: Seq<u8> },
}

impl View for EngineEvent {
    type V = EventModel;

    open spec fn view(&self) -> EventModel {
        match self {
            EngineEvent::Submitted { call_id, pipelined } => EventModel::Submitted {
                call_id: call_id@,
                pipelined: *pipelined,
            },
            EngineEvent::InputsPut { accepted } => EventModel::InputsPut { accepted: *accepted },
            EngineEvent::Polled { output } => EventModel::Polled {
                output: match output {
                    Some(env) => Some(env@),
                    None => None,
                },
            },
            EngineEvent::BlobResolved { url } => EventModel::BlobResolved { url: url@ },
            EngineEvent::Fetched { data } => EventModel::Fetched { data: data@ },
        }
    }
}

/// The next request the shell must perform.
#[derive(Debug)]
pub enum EngineAction {
    /// Send the map-style submission: one input item, synchronous invocation
    /// type, unary call type.
    Submit { function_id: String, input: InputItem },
    /// Send the explicit enqueue for the same input item.
    PutInputs { function_id: String, call_id: String, input: InputItem },
    /// After sleeping `delay_ms`, request outputs for the call: at most
    /// [`POLL_MAX_VALUES`] values, a [`POLL_WAIT_MS`] wait budget, clearing
    /// the entry on success.
    Poll { call_id: String, delay_ms: u64 },
    /// Look the blob's metadata up to obtain its download URL.
    ResolveBlob { blob_id: String },
    /// Perform a plain content fetch against the URL.
    FetchUrl { url: String },
    /// Nothing further: the state is terminal.
    Finish,
}

/// The abstract value of an [`EngineAction`].
pub enum ActionModel {
    Submit { function_id: Seq<char>, input: ItemModel },
    PutInputs { function_id: Seq<char>, call_id: Seq<char>, input: ItemModel },
    Poll { call_id: Seq<char>, delay_ms: u64 },
    ResolveBlob { blob_id: Seq<char> },
    FetchUrl { url: Seq<char> },
    Finish,
}

impl View for EngineAction {
    type V = ActionModel;

    open spec fn view(&self) -> ActionModel {
        match self {
            EngineAction::Submit { function_id, input } => ActionModel::Submit {
                function_id: function_id@,
                input: input@,
            },
            EngineAction::PutInputs { function_id, call_id, input } => ActionModel::PutInputs {
                function_id: function_id@,
                call_id: call_id@,
                input: input@,
            },
            EngineAction::Poll { call_id, delay_ms } => ActionModel::Poll {
                call_id: call_id@,
                delay_ms: *delay_ms,
            },
            EngineAction::ResolveBlob { blob_id } => ActionModel::ResolveBlob {
                blob_id: blob_id@,
            },
            EngineAction::FetchUrl { url } => ActionModel::FetchUrl { url: url@ },
            EngineAction::Finish => ActionModel::Finish,
        }
    }
}

/// Whether an event answers the request that the state has in flight.
pub open spec fn event_fits(s: StateModel, e: EventModel) -> bool {
    match (s, e) {
        (StateModel::Submitting { .. }, EventModel::Submitted { .. }) => true,
        (StateModel::Enqueueing { .. }, EventModel::InputsPut { .. }) => true,
        (StateModel::Polling { .. }, EventModel::Polled { .. }) => true,
        (StateModel::ResolvingBlob { .. }, EventModel::BlobResolved { .. }) => true,
        (StateModel::Fetching { .. }, EventModel::Fetched { .. }) => true,
        _ => false,
    }
}

/// After an empty poll: one more attempt counted, then either another poll
/// after the fixed delay or, at the bound, a timeout.
pub open spec fn bump_poll(call_id: Seq<char>, attempts: u32) -> (StateModel, ActionModel) {
    if attempts + 1 >= MAX_POLL_ATTEMPTS {
        (StateModel::Done { outcome: Err(ErrorModel::Timeout) }, ActionModel::Finish)
    } else {
        (
            StateModel::Polling { call_id, attempts: (attempts + 1) as u32 },
            ActionModel::Poll { call_id, delay_ms: POLL_DELAY_MS },
        )
    }
}

/// The transition function of the invocation protocol.
pub open spec fn step_model(s: StateModel, e: EventModel) -> (StateModel, ActionModel) {
    match (s, e) {
        (
            StateModel::Submitting { function_id, input },
            EventModel::Submitted { call_id, pipelined },
        ) => {
            if pipelined == 0 {
                (
                    StateModel::Enqueueing { function_id, call_id, input },
                    ActionModel::PutInputs { function_id, call_id, input },
                )
            } else {
                (
                    StateModel::Polling { call_id, attempts: 0 },
                    ActionModel::Poll { call_id, delay_ms: 0 },
                )
            }
        },
        (StateModel::Enqueueing { call_id, .. }, EventModel::InputsPut { accepted }) => {
            if accepted == 0 {
                (StateModel::Done { outcome: Err(ErrorModel::QueueFull) }, ActionModel::Finish)
            } else {
                (
                    StateModel::Polling { call_id, attempts: 0 },
                    ActionModel::Poll { call_id, delay_ms: 0 },
                )
            }
        },
        (StateModel::Polling { call_id, attempts }, EventModel::Polled { output }) => {
            match output {
                None => bump_poll(call_id, attempts),
                Some(env) => match env.data {
                    Some(d) => (StateModel::Done { outcome: Ok(d) }, ActionModel::Finish),
                    None => match env.data_blob_id {
                        Some(b) => (
                            StateModel::ResolvingBlob { blob_id: b },
                            ActionModel::ResolveBlob { blob_id: b },
                        ),
                        None => {
                            if env.exception.len() > 0 {
                                (
                                    StateModel::Done {
                                        outcome: Err(ErrorModel::RemoteException(env.exception)),
                                    },
                                    ActionModel::Finish,
                                )
                            } else if env.exitcode != 0 {
                                (
                                    StateModel::Done {
                                        outcome: Err(ErrorModel::RemoteExitCode(env.exitcode)),
                                    },
                                    ActionModel::Finish,
                                )
                            } else {
                                bump_poll(call_id, attempts)
                            }
                        },
                    },
                },
            }
        },
        (StateModel::ResolvingBlob { .. }, EventModel::BlobResolved { url }) => (
            StateModel::Fetching { url },
            ActionModel::FetchUrl { url },
        ),
        (StateModel::Fetching { .. }, EventModel::Fetched { data }) => (
            StateModel::Done { outcome: Ok(data) },
            ActionModel::Finish,
        ),
        (other, _) => (other, ActionModel::Finish),
    }
}

/// The initial state and first action of one invocation.
pub open spec fn invoke_model(function_id: Seq<char>, args_cbor: Seq<u8>) -> (
    StateModel,
    ActionModel,
) {
    let item = ItemModel {
        idx: 0,
        args: args_cbor,
        data_format: DataFormat::Cbor,
        final_input: false,
    };
    (
        StateModel::Submitting { function_id, input: item },
        ActionModel::Submit { function_id, input: item },
    )
}

/// Starts one invocation of the function with the given encoded payload:
/// the returned action is the submission request carrying the single input
/// item (index 0, not final, tagged with the payload format).
pub fn invoke(function_id: String, args_cbor: Vec<u8>) -> (r: (EngineState, EngineAction))
    ensures
        r.0@ == invoke_model(function_id@, args_cbor@).0,
        r.1@ == invoke_model(function_id@, args_cbor@).1,
{
    let item = InputItem {
        idx: 0,
        args: args_cbor,
        data_format: DataFormat::Cbor,
        final_input: false,
    };
    let item_copy = item.duplicate();
    let fid_copy = function_id.clone();
    (
        EngineState::Submitting { function_id, input: item },
        EngineAction::Submit { function_id: fid_copy, input: item_copy },
    )
}

/// After an empty poll: count the attempt, then poll again or time out.
fn bump_poll_exec(call_id: String, attempts: u32) -> (r: (EngineState, EngineAction))
    ensures
        r.0@ == bump_poll(call_id@, attempts).0,
        r.1@ == bump_poll(call_id@, attempts).1,
{
    if attempts >= MAX_POLL_ATTEMPTS - 1 {
        (
            EngineState::Done { outcome: Err(InvocationError::Timeout) },
            EngineAction::Finish,
        )
    } else {
        let cid_copy = call_id.clone();
        (
            EngineState::Polling { call_id, attempts: attempts + 1 },
            EngineAction::Poll { call_id: cid_copy, delay_ms: POLL_DELAY_MS },
        )
    }
}

/// Performs one transition of the invocation protocol: consumes the
/// transport's answer to the in-flight request and returns the next state
/// together with the next request to perform.
pub fn step(state: EngineState, event: EngineEvent) -> (r: (EngineState, EngineAction))
    requires
        event_fits(state@, event@),
    ensures
        r.0@ == step_model(state@, event@).0,
        r.1@ == step_model(state@, event@).1,
{
    match (state, event) {
        (
            EngineState::Submitting { function_id, input },
            EngineEvent::Submitted { call_id, pipelined },
        ) => {
            if pipelined == 0 {
                let fid_copy = function_id.clone();
                let cid_copy = call_id.clone();
                let item_copy = input.duplicate();
                (
                    EngineState::Enqueueing { function_id, call_id, input },
                    EngineAction::PutInputs {
                        function_id: fid_copy,
                        call_id: cid_copy,
                        input: item_copy,
                    },
                )
            } else {
                let cid_copy = call_id.clone();
                (
                    EngineState::Polling { call_id, attempts: 0 },
                    EngineAction::Poll { call_id: cid_copy, delay_ms: 0 },
                )
            }
        },
        (
            EngineState::Enqueueing { function_id: _, call_id, input: _ },
            EngineEvent::InputsPut { accepted },
        ) => {
            if accepted == 0 {
                (
                    EngineState::Done { outcome: Err(InvocationError::QueueFull) },
                    EngineAction::Finish,
                )
            } else {
                let cid_copy = call_id.clone();
                (
                    EngineState::Polling { call_id, attempts: 0 },
                    EngineAction::Poll { call_id: cid_copy, delay_ms: 0 },
                )
            }
        },
        (EngineState::Polling { call_id, attempts }, EngineEvent::Polled { output }) => {
            match output {
                None => bump_poll_exec(call_id, attempts),
                Some(env) => {
                    let ResultEnvelope { data, data_blob_id, exception, exitcode } = env;
                    match data {
                        Some(d) => (
                            EngineState::Done { outcome: Ok(d) },
                            EngineAction::Finish,
                        ),
                        None => match data_blob_id {
                            Some(b) => {
                                let blob_copy = b.clone();
                                (
                                    EngineState::ResolvingBlob { blob_id: b },
                                    EngineAction::ResolveBlob { blob_id: blob_copy },
                                )
                            },
                            None => {
                                if !exception.as_str().is_empty() {
                                    (
                                        EngineState::Done {
                                            outcome: Err(InvocationError::RemoteException(exception)),
                                        },
                                        EngineAction::Finish,
                                    )
                                } else if exitcode != 0 {
                                    (
                                        EngineState::Done {
                                            outcome: Err(InvocationError::RemoteExitCode(exitcode)),
                                        },
                                        EngineAction::Finish,
                                    )
                                } else {
                                    bump_poll_exec(call_id, attempts)
                                }
                            },
                        },
                    }
                },
            }
        },
        (EngineState::ResolvingBlob { blob_id: _ }, EngineEvent::BlobResolved { url }) => {
            let url_copy = url.clone();
            (
                EngineState::Fetching { url },
                EngineAction::FetchUrl { url: url_copy },
            )
        },
        (EngineState::Fetching { url: _ }, EngineEvent::Fetched { data }) => (
            EngineState::Done { outcome: Ok(data) },
            EngineAction::Finish,
        ),
        (_, _) => unreached(),
    }
}

/// Runs the machine over a sequence of events, collecting the action that
/// each transition yields.
pub open spec fn run_events(s: StateModel, es: Seq<EventModel>) -> (StateModel, Seq<ActionModel>)
    decreases es.len(),
{
    if es.len() == 0 {
        (s, Seq::empty())
    } else {
        let first = step_model(s, es[0]);
        let rest = run_events(first.0, es.skip(1));
        (rest.0, seq![first.1] + rest.1)
    }
}

/// `n` poll responses that carry no output yet.
pub open spec fn empty_polls(n: nat) -> Seq<EventModel> {
    Seq::new(n, |i: int| EventModel::Polled { output: None })
}

/// Running a concatenation of event sequences runs them one after the other.
proof fn lemma_run_events_concat(s: StateModel, es1: Seq<EventModel>, es2: Seq<EventModel>)
    ensures
        run_events(s, es1 + es2) == ({
            let r1 = run_events(s, es1);
            let r2 = run_events(r1.0, es2);
            (r2.0, r1.1 + r2.1)
        }),
    decreases es1.len(),
{
    if es1.len() == 0 {
        assert(es1 + es2 =~= es2);
        let r2 = run_events(s, es2);
        assert(Seq::<ActionModel>::empty() + r2.1 =~= r2.1);
    } else {
        assert((es1 + es2)[0] == es1[0]);
        assert((es1 + es2).skip(1) =~= es1.skip(1) + es2);
        let first = step_model(s, es1[0]);
        lemma_run_events_concat(first.0, es1.skip(1), es2);
        let r1rest = run_events(first.0, es1.skip(1));
        let r2 = run_events(r1rest.0, es2);
        assert(seq![first.1] + (r1rest.1 + r2.1) =~= (seq![first.1] + r1rest.1) + r2.1);
    }
}

/// A terminal state absorbs any further events, yielding only `Finish`.
proof fn lemma_done_stays(outcome: Result<Seq<u8>, ErrorModel>, es: Seq<EventModel>)
    ensures
        run_events(StateModel::Done { outcome }, es).0 == (StateModel::Done { outcome }),
    decreases es.len(),
{
    if es.len() > 0 {
        lemma_done_stays(outcome, es.skip(1));
    }
}

/// While under the attempt bound, every empty poll response advances the
/// attempt counter by one and asks for exactly one more poll.
proof fn lemma_run_empty_polls(call_id: Seq<char>, a: u32, n: nat)
    requires
        a + n < MAX_POLL_ATTEMPTS,
    ensures
        ({
            let r = run_events(StateModel::Polling { call_id, attempts: a }, empty_polls(n));
            &&& r.0 == (StateModel::Polling { call_id, attempts: (a + n) as u32 })
            &&& r.1.len() == n
            &&& forall|i: int|
                0 <= i < n ==> r.1[i] == (ActionModel::Poll { call_id, delay_ms: POLL_DELAY_MS })
        }),
    decreases n,
{
    if n == 0 {
        assert(empty_polls(0).len() == 0);
    } else {
        assert(empty_polls(n)[0] == (EventModel::Polled { output: None }));
        assert(empty_polls(n).skip(1) =~= empty_polls((n - 1) as nat));
        lemma_run_empty_polls(call_id, (a + 1) as u32, (n - 1) as nat);
    }
}

/// Law: poll termination, success path.  From a fresh polling state, when
/// the transport answers the first `n < 60` polls with no output and the
/// next with an envelope carrying inline data, the run performs exactly
/// `n + 1` transitions — every one but the last asking for another poll —
/// and ends terminal with the inline bytes as the success outcome.
pub proof fn lemma_poll_termination(call_id: Seq<char>, n: nat, env: EnvelopeModel, data: Seq<u8>)
    requires
        n < MAX_POLL_ATTEMPTS,
        env.data == Some(data),
    ensures
        ({
            let es = empty_polls(n).push(EventModel::Polled { output: Some(env) });
            let r = run_events(StateModel::Polling { call_id, attempts: 0 }, es);
            &&& r.0 == (StateModel::Done { outcome: Ok(data) })
            &&& r.1.len() == n + 1
            &&& forall|i: int|
                0 <= i < n ==> r.1[i] == (ActionModel::Poll { call_id, delay_ms: POLL_DELAY_MS })
            &&& r.1[n as int] == ActionModel::Finish
        }),
{
    let success = EventModel::Polled { output: Some(env) };
    assert(empty_polls(n).push(success) =~= empty_polls(n) + seq![success]);
    lemma_run_empty_polls(call_id, 0, n);
    lemma_run_events_concat(
        StateModel::Polling { call_id, attempts: 0 },
        empty_polls(n),
        seq![success],
    );
    let mid = StateModel::Polling { call_id, attempts: n as u32 };
    assert(seq![success][0] == success);
    let first = step_model(mid, success);
    assert(first.0 == (StateModel::Done { outcome: Ok(data) }));
    assert(first.1 == ActionModel::Finish);
    let tail = seq![success].skip(1);
    assert(tail.len() == 0);
    assert(run_events(first.0, tail) == (first.0, Seq::<ActionModel>::empty()));
    assert(run_events(mid, seq![success]).0 == first.0);
    assert(run_events(mid, seq![success]).1 =~= seq![ActionModel::Finish]);
}

/// Law: poll termination, timeout path.  From a fresh polling state, when
/// the transport answers sixty or more polls with no output, the run ends
/// terminal with the timeout error.
pub proof fn lemma_poll_timeout(call_id: Seq<char>, n: nat)
    requires
        n >= MAX_POLL_ATTEMPTS,
    ensures
        run_events(StateModel::Polling { call_id, attempts: 0 }, empty_polls(n)).0 == (
        StateModel::Done { outcome: Err(ErrorModel::Timeout) }),
{
    let bound = (MAX_POLL_ATTEMPTS - 1) as nat;
    let head = empty_polls(bound);
    let tail = Seq::new((n - bound) as nat, |i: int| EventModel::Polled { output: None });
    assert(empty_polls(n) =~= head + tail);
    lemma_run_empty_polls(call_id, 0, bound);
    lemma_run_events_concat(StateModel::Polling { call_id, attempts: 0 }, head, tail);
    let mid = StateModel::Polling { call_id, attempts: bound as u32 };
    assert(tail.len() > 0);
    assert(tail[0] == (EventModel::Polled { output: None }));
    assert(step_model(mid, tail[0]).0 == (StateModel::Done { outcome: Err(ErrorModel::Timeout) }));
    lemma_done_stays(Err(ErrorModel::Timeout), tail.skip(1));
}

/// Law: blob fallback.  When a poll answer carries a blob identifier and no
/// inline bytes, the machine asks for the blob's metadata, then fetches the
/// returned URL, and the outcome is the fetched bytes — never the blob
/// identifier itself.
pub proof fn lemma_blob_fallback(
    call_id: Seq<char>,
    attempts: u32,
    env: EnvelopeModel,
    blob_id: Seq<char>,
    url: Seq<char>,
    data: Seq<u8>,
)
    requires
        env.data is None,
        env.data_blob_id == Some(blob_id),
    ensures
        step_model(
            StateModel::Polling { call_id, attempts },
            EventModel::Polled { output: Some(env) },
        ) == (
            StateModel::ResolvingBlob { blob_id },
            ActionModel::ResolveBlob { blob_id },
        ),
        step_model(StateModel::ResolvingBlob { blob_id }, EventModel::BlobResolved { url }) == (
            StateModel::Fetching { url },
            ActionModel::FetchUrl { url },
        ),
        step_model(StateModel::Fetching { url }, EventModel::Fetched { data }) == (
            StateModel::Done { outcome: Ok(data) },
            ActionModel::Finish,
        ),
{
}

/// Law: terminal classification.  A result envelope with neither inline
/// bytes nor a blob identifier is terminal: a non-empty exception text
/// yields the remote-exception error carrying that text; with an empty
/// exception, a non-zero exit code yields the remote-exit-code error
/// carrying that code.
pub proof fn lemma_terminal_classification(call_id: Seq<char>, attempts: u32, env: EnvelopeModel)
    requires
        env.data is None,
        env.data_blob_id is None,
    ensures
        env.exception.len() > 0 ==> step_model(
            StateModel::Polling { call_id, attempts },
            EventModel::Polled { output: Some(env) },
        ) == (
            StateModel::Done { outcome: Err(ErrorModel::RemoteException(env.exception)) },
            ActionModel::Finish,
        ),
        env.exception.len() == 0 && env.exitcode != 0 ==> step_model(
            StateModel::Polling { call_id, attempts },
            EventModel::Polled { output: Some(env) },
        ) == (
            StateModel::Done { outcome: Err(ErrorModel::RemoteExitCode(env.exitcode)) },
            ActionModel::Finish,
        ),
{
}

/// Law: enqueue fallback.  A submission answer whose echoed input list is
/// empty makes the machine issue exactly one explicit enqueue; if that
/// enqueue reports zero accepted inputs, the run is terminal with the
/// queue-full error — no poll is ever requested on this path.
pub proof fn lemma_enqueue_fallback(function_id: Seq<char>, input: ItemModel, call_id: Seq<char>)
    ensures
        step_model(
            StateModel::Submitting { function_id, input },
            EventModel::Submitted { call_id, pipelined: 0 },
        ) == (
            StateModel::Enqueueing { function_id, call_id, input },
            ActionModel::PutInputs { function_id, call_id, input },
        ),
        step_model(
            StateModel::Enqueueing { function_id, call_id, input },
            EventModel::InputsPut { accepted: 0 },
        ) == (
            StateModel::Done { outcome: Err(ErrorModel::QueueFull) },
            ActionModel::Finish,
        ),
{
}

} // verus!
