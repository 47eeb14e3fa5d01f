//! The lifecycle of one send or receive pipeline. Bus messages and stop
//! requests arrive as events; the handle decides the next state and what the
//! owner must do, so that all state changes go through one place and native
//! resources are released exactly once.

use vstd::prelude::*;

verus! {

#[derive(Clone, Copy, PartialEq, Eq, Debug, Structural)]
pub enum PipelineKind {
    Sender,
    Receiver,
}

#[derive(Clone, Copy, PartialEq, Eq, Debug, Structural)]
pub enum PipelineState {
    Unconfigured,
    /// Stages are being instantiated and linked.
    Configuring,
    /// Datagrams are flowing.
    Playing,
    Stopped,
}

#[derive(Clone, Copy, PartialEq, Eq, Debug, Structural)]
pub enum PipelineEvent {
    /// Start building the stages.
    Configure,
    /// A stage could not be instantiated, or two stages could not be linked.
    BuildFailed,
    /// The receiving socket could not be bound.
    BindFailed,
    /// The pipeline reached its playing state.
    Started,
    /// The bus reported the end of the stream.
    EndOfStream,
    /// The bus reported an error while running.
    TransportError,
    /// The owner asked for the pipeline to stop.
    StopRequested,
}

/// Errors that end a streaming attempt and must reach the user.
#[derive(Clone, Copy, PartialEq, Eq, Debug, Structural)]
pub enum PipelineError {
    PipelineBuildError,
    BindError,
    TransportError,
}

/// What the owner of the pipeline has to do after an event.
#[derive(Clone, Copy, PartialEq, Eq, Debug, Structural)]
pub enum PipelineAction {
    Nothing,
    /// Tear the native pipeline down.
    Release,
    /// Tear the native pipeline down and tell the user why.
    ReleaseAndReport(PipelineError),
}

/// Native resources exist from configuration until the pipeline stops.
pub open spec fn holds_resources(s: PipelineState) -> bool {
    s is Configuring || s is Playing
}

pub open spec fn releases(a: PipelineAction) -> bool {
    !(a is Nothing)
}

/// The transition table. Anything not listed leaves the state alone and asks
/// for nothing; in particular every event is ignored once stopped.
pub open spec fn transition(s: PipelineState, e: PipelineEvent) -> (PipelineState, PipelineAction) {
    match (s, e) {
        (PipelineState::Unconfigured, PipelineEvent::Configure) => (
            PipelineState::Configuring,
            PipelineAction::Nothing,
        ),
        (PipelineState::Unconfigured, PipelineEvent::StopRequested) => (
            PipelineState::Stopped,
            PipelineAction::Nothing,
        ),
        (PipelineState::Configuring, PipelineEvent::Started) => (
            PipelineState::Playing,
            PipelineAction::Nothing,
        ),
        (PipelineState::Configuring, PipelineEvent::BuildFailed) => (
            PipelineState::Stopped,
            PipelineAction::ReleaseAndReport(PipelineError::PipelineBuildError),
        ),
        (PipelineState::Configuring, PipelineEvent::BindFailed) => (
            PipelineState::Stopped,
            PipelineAction::ReleaseAndReport(PipelineError::BindError),
        ),
        (PipelineState::Configuring, PipelineEvent::TransportError) | (
            PipelineState::Playing,
            PipelineEvent::TransportError,
        ) => (PipelineState::Stopped, PipelineAction::ReleaseAndReport(PipelineError::TransportError)),
        (PipelineState::Configuring, PipelineEvent::EndOfStream) | (
            PipelineState::Configuring,
            PipelineEvent::StopRequested,
        ) | (PipelineState::Playing, PipelineEvent::EndOfStream) | (
            PipelineState::Playing,
            PipelineEvent::StopRequested,
        ) => (PipelineState::Stopped, PipelineAction::Release),
        _ => (s, PipelineAction::Nothing),
    }
}

/// Applies `events` in order: the final state and how many times a release was asked for.
pub open spec fn run_events(s: PipelineState, events: Seq<PipelineEvent>) -> (PipelineState, nat)
    decreases events.len(),
{
    if events.len() == 0 {
        (s, 0)
    } else {
        let (t, n) = run_events(s, events.drop_last());
        let (u, a) = transition(t, events.last());
        (u, if releases(a) {
            n + 1
        } else {
            n
        })
    }
}

pub struct HandleView {
    pub kind: PipelineKind,
    pub state: PipelineState,
}

/// One send or receive pipeline instance.
pub struct PipelineHandle {
    kind: PipelineKind,
    state: PipelineState,
}

impl View for PipelineHandle {
    type V = HandleView;

    closed spec fn view(&self) -> HandleView {
        HandleView { kind: self.kind, state: self.state }
    }
}

impl PipelineHandle {
    pub fn new(kind: PipelineKind) -> (r: PipelineHandle)
        ensures
            r@ == (HandleView { kind, state: PipelineState::Unconfigured }),
    {
        PipelineHandle { kind, state: PipelineState::Unconfigured }
    }

    pub fn kind(&self) -> (r: PipelineKind)
        ensures
            r == self@.kind,
    {
        self.kind
    }

    pub fn state(&self) -> (r: PipelineState)
        ensures
            r == self@.state,
    {
        self.state
    }

    /// Applies one event and says what the owner must do.
    pub fn handle(&mut self, event: PipelineEvent) -> (r: PipelineAction)
        ensures
            final(self)@.kind == old(self)@.kind,
            (final(self)@.state, r) == transition(old(self)@.state, event),
    {
        let (next, action) = match (self.state, event) {
            (PipelineState::Unconfigured, PipelineEvent::Configure) => (
                PipelineState::Configuring,
                PipelineAction::Nothing,
            ),
            (PipelineState::Unconfigured, PipelineEvent::StopRequested) => (
                PipelineState::Stopped,
                PipelineAction::Nothing,
            ),
            (PipelineState::Configuring, PipelineEvent::Started) => (
                PipelineState::Playing,
                PipelineAction::Nothing,
            ),
            (PipelineState::Configuring, PipelineEvent::BuildFailed) => (
                PipelineState::Stopped,
                PipelineAction::ReleaseAndReport(PipelineError::PipelineBuildError),
            ),
            (PipelineState::Configuring, PipelineEvent::BindFailed) => (
                PipelineState::Stopped,
                PipelineAction::ReleaseAndReport(PipelineError::BindError),
            ),
            (PipelineState::Configuring, PipelineEvent::TransportError) | (
                PipelineState::Playing,
                PipelineEvent::TransportError,
            ) => (
                PipelineState::Stopped,
                PipelineAction::ReleaseAndReport(PipelineError::TransportError),
            ),
            (PipelineState::Configuring, PipelineEvent::EndOfStream) | (
                PipelineState::Configuring,
                PipelineEvent::StopRequested,
            ) | (PipelineState::Playing, PipelineEvent::EndOfStream) | (
                PipelineState::Playing,
                PipelineEvent::StopRequested,
            ) => (PipelineState::Stopped, PipelineAction::Release),
            _ => (self.state, PipelineAction::Nothing),
        };
        self.state = next;
        action
    }

    /// Asks the pipeline to stop; safe to call in any state and any number of times.
    pub fn stop(&mut self) -> (r: PipelineAction)
        ensures
            final(self)@.kind == old(self)@.kind,
            (final(self)@.state, r) == transition(old(self)@.state, PipelineEvent::StopRequested),
            final(self)@.state is Stopped,
    {
        self.handle(PipelineEvent::StopRequested)
    }
}

/// Once stopped, a pipeline ignores every event, a stop request included: it
/// stays stopped and nothing is released again.
pub proof fn lemma_stopped_ignores_events(e: PipelineEvent)
    ensures
        transition(PipelineState::Stopped, e) == (PipelineState::Stopped, PipelineAction::Nothing),
{
}

/// Whatever events arrive, in whatever order (a stop request racing a bus
/// error included), a release is asked for at most once; a pipeline that holds
/// resources has been released exactly when it has stopped; and any stop
/// request leaves the pipeline stopped.
pub proof fn lemma_teardown_at_most_once(s: PipelineState, events: Seq<PipelineEvent>)
    ensures
        run_events(s, events).1 <= 1,
        s is Stopped ==> run_events(s, events) == (PipelineState::Stopped, 0nat),
        holds_resources(s) ==> (run_events(s, events).0 is Stopped <==> run_events(s, events).1
            == 1),
        events.contains(PipelineEvent::StopRequested) ==> run_events(s, events).0 is Stopped,
{
    lemma_run_shape(s, events);
}

proof fn lemma_run_shape(s: PipelineState, events: Seq<PipelineEvent>)
    ensures
        ({
            let (t, n) = run_events(s, events);
            &&& n <= 1
            &&& !(t is Stopped) ==> n == 0
            &&& s is Stopped ==> t is Stopped && n == 0
            &&& holds_resources(s) && !(t is Stopped) ==> holds_resources(t)
            &&& holds_resources(s) ==> (t is Stopped <==> n == 1)
            &&& events.contains(PipelineEvent::StopRequested) ==> t is Stopped
        }),
    decreases events.len(),
{
    if events.len() > 0 {
        let prefix = events.drop_last();
        lemma_run_shape(s, prefix);
        if events.contains(PipelineEvent::StopRequested) && events.last() != PipelineEvent::StopRequested {
            let i = choose|i: int| 0 <= i < events.len() && events[i] == PipelineEvent::StopRequested;
            assert(prefix[i] == PipelineEvent::StopRequested);
        }
    }
}

} // verus!
