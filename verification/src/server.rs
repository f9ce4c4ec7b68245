//! The task that keeps the MCTP router's timers going: it updates the router, sleeps for as
//! long as the router says, and does so again, for ever.
use vstd::prelude::*;

verus! {

/// What the firmware is to do next.
#[derive(Clone, Copy, Debug, PartialEq, Eq, Structural)]
pub enum Action {
    /// Update the router with the current time.
    Update,
    /// Sleep.
    Sleep { millis: u32 },
    /// Give up.
    Fail,
}

/// What came of an [`Action`].
#[derive(Clone, Copy, Debug, PartialEq, Eq, Structural)]
pub enum Event {
    /// After how many milliseconds the router wants to be updated again, or `None` if the
    /// update failed.
    Updated(Option<u64>),
    /// The sleep is over.
    Slept,
}

/// How long a sleep of `sleep` milliseconds can be: the low 32 bits are all that a delay
/// can hold.
pub open spec fn delay(sleep: u64) -> u32 {
    (sleep % 0x1_0000_0000) as u32
}

/// Whether `event` is an outcome of `action`.
pub open spec fn answers(action: Action, event: Event) -> bool {
    match action {
        Action::Update => event is Updated,
        Action::Sleep { .. } => event is Slept,
        Action::Fail => false,
    }
}

/// The action that `event` leads to.
pub open spec fn next(event: Event) -> Action {
    match event {
        Event::Updated(Some(sleep)) => Action::Sleep { millis: delay(sleep) },
        Event::Updated(None) => Action::Fail,
        Event::Slept => Action::Update,
    }
}

/// Starts the task.
pub fn start() -> (action: Action)
    ensures
        action == Action::Update,
{
    Action::Update
}

/// Goes on, given what came of the last action.
pub fn resume(event: Event) -> (action: Action)
    ensures
        action == next(event),
        match event {
            Event::Updated(Some(sleep)) => action matches Action::Sleep { millis } && millis
                == sleep % 0x1_0000_0000,
            Event::Updated(None) => action == Action::Fail,
            Event::Slept => action == Action::Update,
        },
{
    match event {
        Event::Updated(Some(sleep)) => Action::Sleep { millis: server_loop_delay(sleep) },
        Event::Updated(None) => Action::Fail,
        Event::Slept => Action::Update,
    }
}

/// How many milliseconds the task sleeps when the router wants to be updated again after
/// `sleep` milliseconds: the low 32 bits of that.
pub fn server_loop_delay(sleep: u64) -> (millis: u32)
    ensures
        millis == sleep % 0x1_0000_0000,
        millis == delay(sleep),
{
    assert(sleep as u32 == sleep % 0x1_0000_0000) by (bit_vector);
    #[verifier::truncate]
    let millis: u32 = sleep as u32;
    millis
}

/// Action number `i` of the task: the first one, and then the one that each event leads to.
pub open spec fn action(events: Seq<Event>, i: int) -> Action {
    if i == 0 {
        Action::Update
    } else {
        next(events[i - 1])
    }
}

/// Whether each event is an outcome of the action before it.
pub open spec fn follows(events: Seq<Event>) -> bool {
    forall|i: int| 0 <= i < events.len() ==> answers(#[trigger] action(events, i), events[i])
}

/// The task alternates for ever: as long as no update fails, it updates the router first
/// and then after every sleep, and after every update it sleeps, for as long as that update
/// said. It ends only with an update that fails.
pub proof fn law_updates_and_sleeps_alternate(events: Seq<Event>, i: int)
    requires
        follows(events),
        0 <= i <= events.len(),
        forall|j: int| 0 <= j < i ==> #[trigger] events[j] != Event::Updated(None),
    ensures
        i % 2 == 0 ==> action(events, i) == Action::Update,
        i % 2 == 1 ==> {
            &&& events[i - 1] matches Event::Updated(Some(sleep))
            &&& action(events, i) == Action::Sleep { millis: delay(sleep) }
        },
    decreases i,
{
    if i > 0 {
        law_updates_and_sleeps_alternate(events, i - 1);
        assert(answers(action(events, i - 1), events[i - 1]));
    }
}

/// The task sleeps for as long as the router said, as far as 32 bits go, and an update that
/// failed is the only thing that it gives up on.
pub proof fn law_sleep_is_what_the_router_said(sleep: u64)
    ensures
        next(Event::Updated(Some(sleep))) matches Action::Sleep { millis } && millis == sleep
            % 0x1_0000_0000,
        sleep <= u32::MAX ==> (next(Event::Updated(Some(sleep))) matches Action::Sleep { millis }
            && millis == sleep),
        next(Event::Updated(None)) == Action::Fail,
        next(Event::Slept) == Action::Update,
{
}

} // verus!
