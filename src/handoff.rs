use vstd::prelude::*;

verus! {

/// Where the worker thread stands in taking over the window.
#[derive(Clone, Copy, Debug, PartialEq, Eq, Structural)]
pub enum HandoffState {
    NoWindow,
    WindowRequested,
    WindowAvailable,
    PipelineRunning,
    Done,
    Failed,
}

/// What the worker observed.
#[derive(Clone, Copy, Debug, PartialEq, Eq, Structural)]
pub enum HandoffEvent {
    /// A look at the shared window slot.
    Poll { window_present: bool },
    /// The device and swap-chain pipeline returned.
    PipelineFinished { succeeded: bool },
}

/// What the worker does next.
#[derive(Clone, Copy, Debug, PartialEq, Eq, Structural)]
pub enum HandoffAction {
    /// Signal the UI thread for a window, then sleep until the next poll.
    RequestWindow,
    /// Poll again at once.
    Proceed,
    /// Build the device and swap chain on the window from the slot.
    StartPipeline,
    /// Sleep until the next poll.
    Wait,
    /// Hand the finished context to the application.
    RunApplication,
    /// Leave the polling loop.
    Stop,
}

/// What the UI thread does when the worker asks for a window.
#[derive(Clone, Copy, Debug, PartialEq, Eq, Structural)]
pub enum UiResponse {
    CreateWindowThenPublish,
    Publish,
}

/// The transition table of the handoff.
pub open spec fn transition(state: HandoffState, event: HandoffEvent) -> (HandoffState, HandoffAction) {
    match (state, event) {
        (HandoffState::NoWindow, HandoffEvent::Poll { window_present: false }) => (
            HandoffState::WindowRequested,
            HandoffAction::RequestWindow,
        ),
        (HandoffState::WindowRequested, HandoffEvent::Poll { window_present: false }) => (
            HandoffState::WindowRequested,
            HandoffAction::RequestWindow,
        ),
        (HandoffState::NoWindow, HandoffEvent::Poll { window_present: true }) => (
            HandoffState::WindowAvailable,
            HandoffAction::Proceed,
        ),
        (HandoffState::WindowRequested, HandoffEvent::Poll { window_present: true }) => (
            HandoffState::WindowAvailable,
            HandoffAction::Proceed,
        ),
        (HandoffState::WindowAvailable, HandoffEvent::Poll { window_present: true }) => (
            HandoffState::PipelineRunning,
            HandoffAction::StartPipeline,
        ),
        (HandoffState::WindowAvailable, HandoffEvent::Poll { window_present: false }) => (
            HandoffState::WindowRequested,
            HandoffAction::RequestWindow,
        ),
        (HandoffState::PipelineRunning, HandoffEvent::PipelineFinished { succeeded: true }) => (
            HandoffState::Done,
            HandoffAction::RunApplication,
        ),
        (HandoffState::PipelineRunning, HandoffEvent::PipelineFinished { succeeded: false }) => (
            HandoffState::Failed,
            HandoffAction::Stop,
        ),
        (HandoffState::Done, _) => (HandoffState::Done, HandoffAction::Stop),
        (HandoffState::Failed, _) => (HandoffState::Failed, HandoffAction::Stop),
        (s, _) => (s, HandoffAction::Wait),
    }
}

/// The next state and action for one event.
pub fn step(state: HandoffState, event: HandoffEvent) -> (r: (HandoffState, HandoffAction))
    ensures
        r == transition(state, event),
{
    match (state, event) {
        (HandoffState::NoWindow, HandoffEvent::Poll { window_present: false })
        | (HandoffState::WindowRequested, HandoffEvent::Poll { window_present: false })
        | (HandoffState::WindowAvailable, HandoffEvent::Poll { window_present: false }) => (
            HandoffState::WindowRequested,
            HandoffAction::RequestWindow,
        ),
        (HandoffState::NoWindow, HandoffEvent::Poll { window_present: true })
        | (HandoffState::WindowRequested, HandoffEvent::Poll { window_present: true }) => (
            HandoffState::WindowAvailable,
            HandoffAction::Proceed,
        ),
        (HandoffState::WindowAvailable, HandoffEvent::Poll { window_present: true }) => (
            HandoffState::PipelineRunning,
            HandoffAction::StartPipeline,
        ),
        (HandoffState::PipelineRunning, HandoffEvent::PipelineFinished { succeeded: true }) => (
            HandoffState::Done,
            HandoffAction::RunApplication,
        ),
        (HandoffState::PipelineRunning, HandoffEvent::PipelineFinished { succeeded: false }) => (
            HandoffState::Failed,
            HandoffAction::Stop,
        ),
        (HandoffState::Done, _) => (HandoffState::Done, HandoffAction::Stop),
        (HandoffState::Failed, _) => (HandoffState::Failed, HandoffAction::Stop),
        (s, _) => (s, HandoffAction::Wait),
    }
}

/// The worker's side of the handoff: the state, advanced one event at a time.
#[derive(Debug)]
pub struct HandoffCoordinator {
    state: HandoffState,
}

impl View for HandoffCoordinator {
    type V = HandoffState;

    closed spec fn view(&self) -> HandoffState {
        self.state
    }
}

impl HandoffCoordinator {
    pub fn new() -> (r: Self)
        ensures
            r@ == HandoffState::NoWindow,
    {
        HandoffCoordinator { state: HandoffState::NoWindow }
    }

    pub fn state(&self) -> (r: HandoffState)
        ensures
            r == self@,
    {
        self.state
    }

    /// Takes in one observation and says what to do about it.
    pub fn handle(&mut self, event: HandoffEvent) -> (r: HandoffAction)
        ensures
            (final(self)@, r) == transition(old(self)@, event),
    {
        let (next, action) = step(self.state, event);
        self.state = next;
        action
    }
}

/// The UI thread's answer to a request: create the window first if there is none.
pub fn window_request_response(window_exists: bool) -> (r: UiResponse)
    ensures
        r == if window_exists {
            UiResponse::Publish
        } else {
            UiResponse::CreateWindowThenPublish
        },
{
    if window_exists {
        UiResponse::Publish
    } else {
        UiResponse::CreateWindowThenPublish
    }
}

/// The state after a run of events.
pub open spec fn state_after(state: HandoffState, events: Seq<HandoffEvent>) -> HandoffState
    decreases events.len(),
{
    if events.len() == 0 {
        state
    } else {
        transition(state_after(state, events.drop_last()), events.last()).0
    }
}

/// The actions a run of events produces, one per event.
pub open spec fn actions_of(state: HandoffState, events: Seq<HandoffEvent>) -> Seq<HandoffAction>
    decreases events.len(),
{
    if events.len() == 0 {
        Seq::empty()
    } else {
        actions_of(state, events.drop_last()).push(
            transition(state_after(state, events.drop_last()), events.last()).1,
        )
    }
}

/// How many times `action` occurs in `actions`.
pub open spec fn occurrences(actions: Seq<HandoffAction>, action: HandoffAction) -> nat
    decreases actions.len(),
{
    if actions.len() == 0 {
        0
    } else {
        occurrences(actions.drop_last(), action) + if actions.last() == action {
            1nat
        } else {
            0nat
        }
    }
}

/// `n` polls that all see the same slot.
pub open spec fn polls(n: nat, window_present: bool) -> Seq<HandoffEvent> {
    Seq::new(n, |i: int| HandoffEvent::Poll { window_present })
}

proof fn lemma_actions_last(state: HandoffState, events: Seq<HandoffEvent>)
    requires
        events.len() > 0,
    ensures
        actions_of(state, events).len() == events.len(),
        actions_of(state, events).drop_last() == actions_of(state, events.drop_last()),
        actions_of(state, events).last() == transition(
            state_after(state, events.drop_last()),
            events.last(),
        ).1,
    decreases events.len(),
{
    if events.len() > 1 {
        lemma_actions_last(state, events.drop_last());
    }
    assert(actions_of(state, events).drop_last() =~= actions_of(state, events.drop_last()));
}

pub open spec fn latched(state: HandoffState) -> bool {
    state == HandoffState::PipelineRunning || state == HandoffState::Done || state
        == HandoffState::Failed
}

proof fn lemma_latch(state: HandoffState, events: Seq<HandoffEvent>)
    ensures
        occurrences(actions_of(state, events), HandoffAction::StartPipeline) <= 1,
        latched(state) ==> latched(state_after(state, events)),
        latched(state) ==> occurrences(actions_of(state, events), HandoffAction::StartPipeline)
            == 0,
        occurrences(actions_of(state, events), HandoffAction::StartPipeline) == 1 ==> latched(
            state_after(state, events),
        ),
    decreases events.len(),
{
    if events.len() > 0 {
        lemma_latch(state, events.drop_last());
        lemma_actions_last(state, events);
    }
}

proof fn lemma_empty_polls(k: nat)
    ensures
        k > 0 ==> state_after(HandoffState::NoWindow, polls(k, false))
            == HandoffState::WindowRequested,
        k == 0 ==> state_after(HandoffState::NoWindow, polls(k, false)) == HandoffState::NoWindow,
        actions_of(HandoffState::NoWindow, polls(k, false)) == Seq::new(
            k,
            |i: int| HandoffAction::RequestWindow,
        ),
    decreases k,
{
    if k > 0 {
        assert(polls(k, false).drop_last() =~= polls((k - 1) as nat, false));
        lemma_empty_polls((k - 1) as nat);
        assert(actions_of(HandoffState::NoWindow, polls(k, false)) =~= Seq::new(
            k,
            |i: int| HandoffAction::RequestWindow,
        ));
    } else {
        assert(polls(k, false) =~= Seq::<HandoffEvent>::empty());
        assert(Seq::new(k, |i: int| HandoffAction::RequestWindow) =~= Seq::<
            HandoffAction,
        >::empty());
    }
}

proof fn lemma_filled_polls(k: nat, m: nat)
    requires
        m >= 1,
    ensures
        m == 1 ==> state_after(HandoffState::NoWindow, polls(k, false) + polls(m, true))
            == HandoffState::WindowAvailable,
        m >= 2 ==> state_after(HandoffState::NoWindow, polls(k, false) + polls(m, true))
            == HandoffState::PipelineRunning,
        occurrences(
            actions_of(HandoffState::NoWindow, polls(k, false) + polls(m, true)),
            HandoffAction::StartPipeline,
        ) == if m >= 2 {
            1nat
        } else {
            0nat
        },
        occurrences(
            actions_of(HandoffState::NoWindow, polls(k, false) + polls(m, true)),
            HandoffAction::RequestWindow,
        ) == k,
    decreases m,
{
    let events = polls(k, false) + polls(m, true);
    lemma_empty_polls(k);
    lemma_request_count(k);
    lemma_actions_last(HandoffState::NoWindow, events);
    if m == 1 {
        assert(events.drop_last() =~= polls(k, false));
    } else {
        assert(events.drop_last() =~= polls(k, false) + polls((m - 1) as nat, true));
        lemma_filled_polls(k, (m - 1) as nat);
    }
}

proof fn lemma_request_count(k: nat)
    ensures
        occurrences(actions_of(HandoffState::NoWindow, polls(k, false)), HandoffAction::RequestWindow)
            == k,
        occurrences(actions_of(HandoffState::NoWindow, polls(k, false)), HandoffAction::StartPipeline)
            == 0,
    decreases k,
{
    lemma_empty_polls(k);
    if k > 0 {
        assert(polls(k, false).drop_last() =~= polls((k - 1) as nat, false));
        lemma_request_count((k - 1) as nat);
        lemma_actions_last(HandoffState::NoWindow, polls(k, false));
    }
}

/// Polls that find the slot empty each send exactly one window request and
/// never start the pipeline. Whatever the events, the pipeline is started at
/// most once, and never again once it has been. A window published after any
/// number of empty polls brings the coordinator into `PipelineRunning`, with
/// the pipeline started exactly once, however many polls follow.
pub proof fn lemma_handoff_starts_once(events: Seq<HandoffEvent>, k: nat, m: nat)
    requires
        m >= 2,
    ensures
        transition(HandoffState::NoWindow, HandoffEvent::Poll { window_present: false }) == (
            HandoffState::WindowRequested,
            HandoffAction::RequestWindow,
        ),
        transition(HandoffState::WindowRequested, HandoffEvent::Poll { window_present: false }) == (
            HandoffState::WindowRequested,
            HandoffAction::RequestWindow,
        ),
        actions_of(HandoffState::NoWindow, polls(k, false)) == Seq::new(
            k,
            |i: int| HandoffAction::RequestWindow,
        ),
        forall|s: HandoffState|
            occurrences(#[trigger] actions_of(s, events), HandoffAction::StartPipeline) <= 1,
        forall|s: HandoffState|
            latched(s) ==> occurrences(#[trigger] actions_of(s, events), HandoffAction::StartPipeline)
                == 0,
        state_after(HandoffState::NoWindow, polls(k, false) + polls(m, true))
            == HandoffState::PipelineRunning,
        occurrences(
            actions_of(HandoffState::NoWindow, polls(k, false) + polls(m, true)),
            HandoffAction::StartPipeline,
        ) == 1,
{
    lemma_empty_polls(k);
    lemma_filled_polls(k, m);
    assert forall|s: HandoffState|
        occurrences(#[trigger] actions_of(s, events), HandoffAction::StartPipeline) <= 1 by {
        lemma_latch(s, events);
    }
    assert forall|s: HandoffState|
        latched(s) implies occurrences(
        #[trigger] actions_of(s, events),
        HandoffAction::StartPipeline,
    ) == 0 by {
        lemma_latch(s, events);
    }
}

} // verus!
