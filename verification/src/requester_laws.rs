//! What holds of the requester's flow as a whole, whatever the responder does.
use crate::requester::{
    accepted, answers, first, next, spec_failure_message, Action, AlgorithmTables, Event,
    MeasurementSummaryHashType, Phase, Request, Stage, State, Step, RESPONDER_EID,
};
use vstd::prelude::*;

verus! {

/// The state of the flow after a series of events.
pub open spec fn after(s: State, events: Seq<Event<Seq<u8>>>) -> State
    decreases events.len(),
{
    if events.len() == 0 {
        s
    } else {
        next(after(s, events.drop_last()), events.last()).state
    }
}

/// Whether each event is an outcome of the action before it.
pub open spec fn follows(s: State, events: Seq<Event<Seq<u8>>>) -> bool
    decreases events.len(),
{
    events.len() > 0 ==> {
        &&& follows(s, events.drop_last())
        &&& answers(after(s, events.drop_last()), events.last())
    }
}

/// The actions of a flow from its start, the last of which waits for its outcome.
pub open spec fn trace(events: Seq<Event<Seq<u8>>>) -> Seq<Action<Seq<u8>>>
    decreases events.len(),
{
    if events.len() == 0 {
        seq![first().action]
    } else {
        trace(events.drop_last()).push(
            next(after(first().state, events.drop_last()), events.last()).action,
        )
    }
}

/// The stage that a request belongs to.
pub open spec fn stage_of(request: Request<Seq<u8>>) -> Stage {
    match request {
        Request::Version { .. } => Stage::Version,
        Request::Capabilities => Stage::Capabilities,
        Request::Algorithms { .. } => Stage::Algorithms,
        Request::Digests => Stage::Digests,
        Request::Certificate { .. } => Stage::Certificate,
        Request::Challenge { .. } => Stage::Challenge,
    }
}

/// The requests that were made, in order.
pub open spec fn asked(actions: Seq<Action<Seq<u8>>>) -> Seq<Stage>
    decreases actions.len(),
{
    if actions.len() == 0 {
        seq![]
    } else {
        let before = asked(actions.drop_last());
        match actions.last() {
            Action::Generate(request) => before.push(stage_of(request)),
            _ => before,
        }
    }
}

/// How often the certificate chain turned out to be incomplete.
pub open spec fn continued(events: Seq<Event<Seq<u8>>>) -> nat
    decreases events.len(),
{
    if events.len() == 0 {
        0
    } else {
        let before = continued(events.drop_last());
        if events.last() == (Event::<Seq<u8>>::Connection { during_certificate: true }) {
            before + 1
        } else {
            before
        }
    }
}

/// The stages before the certificate chain.
pub open spec fn opening() -> Seq<Stage> {
    seq![Stage::Version, Stage::Capabilities, Stage::Algorithms, Stage::Digests]
}

/// `n` requests for a portion of the certificate chain.
pub open spec fn portions(n: nat) -> Seq<Stage> {
    Seq::new(n, |i: int| Stage::Certificate)
}

/// The whole flow, with a certificate chain of `n` portions.
pub open spec fn flow(n: nat) -> Seq<Stage> {
    opening() + portions(n) + seq![Stage::Challenge]
}

/// Whether an event lets the flow go on.
pub open spec fn good(event: Event<Seq<u8>>) -> bool {
    match event {
        Event::Generated(ok) => ok,
        Event::Sent(ok) => ok,
        Event::Processed(ok) => ok,
        Event::Nonce(nonce) => nonce is Some,
        _ => true,
    }
}

/// The requests that a stage has behind it once it made its own, after the certificate
/// chain turned out to be incomplete `n` times.
spec fn up_to(stage: Stage, n: nat) -> Seq<Stage> {
    match stage {
        Stage::Version => opening().take(1),
        Stage::Capabilities => opening().take(2),
        Stage::Algorithms => opening().take(3),
        Stage::Digests => opening(),
        Stage::Certificate => opening() + portions(n + 1),
        Stage::Challenge => flow(n + 1),
    }
}

/// The stage whose request was made last, in each state but that of a flow that gave up.
spec fn stage_in(s: State) -> Stage {
    match s {
        State::Generating(stage) | State::Sending(stage) | State::Processing(stage) => stage,
        State::ReportingDigests => Stage::Digests,
        State::ReadingConnection | State::ReportingRootHashes | State::DrawingNonce => {
            Stage::Certificate
        },
        State::Waiting => Stage::Challenge,
        State::Failed { stage, phase } => stage,
    }
}

/// Where the flow stands after a series of events.
spec fn stands(events: Seq<Event<Seq<u8>>>) -> bool {
    let s = after(first().state, events);
    let requests = asked(trace(events));
    let n = continued(events);
    &&& match s {
        State::Failed { stage, phase } => {
            &&& requests.is_prefix_of(flow(n + 1))
            &&& events.len() > 0
            &&& !good(events.last())
            &&& trace(events).last() == Action::<Seq<u8>>::Fail { stage, phase }
            &&& forall|i: int| 0 <= i < events.len() - 1 ==> good(#[trigger] events[i])
        },
        _ => {
            &&& requests == up_to(stage_in(s), n)
            &&& forall|i: int| 0 <= i < events.len() ==> good(#[trigger] events[i])
        },
    }
    &&& match stage_in(s) {
        Stage::Certificate | Stage::Challenge => true,
        _ => n == 0,
    }
}

/// Everything that a stage has behind it is the beginning of a whole flow.
proof fn lemma_up_to_is_prefix(stage: Stage, n: nat)
    requires
        n == 0 || stage == Stage::Certificate || stage == Stage::Challenge,
    ensures
        up_to(stage, n).is_prefix_of(flow(n + 1)),
{
    assert(up_to(stage, n) =~= flow(n + 1).subrange(0, up_to(stage, n).len() as int));
}

/// The flow stands where its events say.
proof fn lemma_stands(events: Seq<Event<Seq<u8>>>)
    requires
        follows(first().state, events),
    ensures
        stands(events),
    decreases events.len(),
{
    if events.len() == 0 {
        assert(asked(trace(events).drop_last()) =~= seq![]);
        assert(asked(trace(events)) =~= opening().take(1));
    } else {
        let earlier = events.drop_last();
        lemma_stands(earlier);
        let s = after(first().state, earlier);
        let n = continued(earlier);
        let step = next(s, events.last());
        assert(trace(events).drop_last() =~= trace(earlier));
        assert(forall|i: int| 0 <= i < earlier.len() ==> earlier[i] == events[i]);
        lemma_up_to_is_prefix(stage_in(s), n);
        match step.action {
            Action::Generate(request) => {
                assert(asked(trace(events)) =~= up_to(stage_in(step.state), continued(events)));
            },
            _ => {},
        }
    }
}

/// The requests are made in the order of the flow: version, capabilities, algorithms,
/// digests, then portions of the certificate chain as long as it is incomplete, then
/// the challenge. Whatever happens, what was asked so far is the beginning of that.
pub proof fn law_requests_are_in_order(events: Seq<Event<Seq<u8>>>)
    requires
        follows(first().state, events),
    ensures
        asked(trace(events)).is_prefix_of(flow(continued(events) + 1)),
{
    lemma_stands(events);
    let s = after(first().state, events);
    if !(s is Failed) {
        lemma_up_to_is_prefix(stage_in(s), continued(events));
    }
}

/// The requester comes to rest only after the whole flow: every request was made, sent
/// and answered, there were as many portions of the certificate chain as it took, and
/// nothing failed.
pub proof fn law_rest_means_whole_flow(events: Seq<Event<Seq<u8>>>)
    requires
        follows(first().state, events),
        after(first().state, events) == State::Waiting,
    ensures
        asked(trace(events)) == flow(continued(events) + 1),
        forall|i: int| 0 <= i < events.len() ==> good(#[trigger] events[i]),
{
    lemma_stands(events);
}

/// The requester gives up at the first failure, and only then; a flow that gave up goes
/// no further.
pub proof fn law_first_failure_ends_the_flow(events: Seq<Event<Seq<u8>>>)
    requires
        follows(first().state, events),
        events.len() > 0,
    ensures
        trace(events).last() is Fail <==> !good(events.last()),
        forall|i: int| 0 <= i < events.len() - 1 ==> good(#[trigger] events[i]),
{
    lemma_stands(events.drop_last());
    lemma_stands(events);
    let earlier = events.drop_last();
    assert(forall|i: int| 0 <= i < earlier.len() ==> earlier[i] == events[i]);
}

/// One request at a time: a request that was generated is sent next, to the responder,
/// and its response is processed before anything else happens.
pub proof fn law_one_request_at_a_time(events: Seq<Event<Seq<u8>>>)
    requires
        follows(first().state, events),
        events.len() > 0,
        good(events.last()),
    ensures
        trace(events.drop_last()).last() is Generate <==> trace(events).last() is Send,
        trace(events.drop_last()).last() is Send <==> trace(events).last() is Process,
        trace(events).last() is Send ==> trace(events).last() == (Action::<Seq<u8>>::Send {
            eid: RESPONDER_EID,
        }),
{
    let earlier = events.drop_last();
    lemma_pending(earlier);
    lemma_pending(events);
}

/// The action that the flow waits for is the one that its state stands for.
proof fn lemma_pending(events: Seq<Event<Seq<u8>>>)
    requires
        follows(first().state, events),
    ensures
        ({
            let s = after(first().state, events);
            let action = trace(events).last();
            &&& s is Generating <==> action is Generate
            &&& s is Sending <==> action is Send
            &&& s is Processing <==> action is Process
        }),
{
}

/// The events of a request that is generated, sent and answered.
pub open spec fn exchange() -> Seq<Event<Seq<u8>>> {
    seq![Event::Generated(true), Event::Sent(true), Event::Processed(true)]
}

/// The events of a certificate chain that is incomplete `n` times.
pub open spec fn chain(n: nat) -> Seq<Event<Seq<u8>>>
    decreases n,
{
    if n == 0 {
        exchange().push(Event::Connection { during_certificate: false })
    } else {
        exchange().push(Event::Connection { during_certificate: true }) + chain((n - 1) as nat)
    }
}

/// The events of a flow in which nothing fails, with `nonce` in the challenge.
pub open spec fn undisturbed(n: nat, nonce: Seq<u8>) -> Seq<Event<Seq<u8>>> {
    (exchange() + exchange() + exchange() + exchange()).push(Event::Reported) + chain(n)
        + seq![Event::Reported, Event::Nonce(Some(nonce))] + exchange()
}

/// A series of events can be taken in two parts.
proof fn lemma_concat(s: State, a: Seq<Event<Seq<u8>>>, b: Seq<Event<Seq<u8>>>)
    ensures
        after(s, a + b) == after(after(s, a), b),
        follows(s, a + b) == (follows(s, a) && follows(after(s, a), b)),
        continued(a + b) == continued(a) + continued(b),
    decreases b.len(),
{
    if b.len() == 0 {
        assert(a + b =~= a);
    } else {
        lemma_concat(s, a, b.drop_last());
        assert((a + b).drop_last() =~= a + b.drop_last());
    }
}

/// A request that is answered takes the flow to where its stage leads.
proof fn lemma_exchange(stage: Stage)
    ensures
        follows(State::Generating(stage), exchange()),
        after(State::Generating(stage), exchange()) == accepted(stage).state,
        continued(exchange()) == 0,
{
    reveal_with_fuel(after, 4);
    reveal_with_fuel(follows, 4);
    reveal_with_fuel(continued, 4);
    assert(exchange().drop_last() =~= seq![Event::Generated(true), Event::Sent(true)]);
    assert(exchange().drop_last().drop_last() =~= seq![Event::Generated(true)]);
    assert(exchange().drop_last().drop_last().drop_last() =~= seq![]);
}

/// A single event.
proof fn lemma_push(s: State, a: Seq<Event<Seq<u8>>>, event: Event<Seq<u8>>)
    ensures
        after(s, a.push(event)) == next(after(s, a), event).state,
        follows(s, a.push(event)) == (follows(s, a) && answers(after(s, a), event)),
        continued(a.push(event)) == continued(a) + if event == (Event::<Seq<u8>>::Connection {
            during_certificate: true,
        }) {
            1nat
        } else {
            0nat
        },
{
    assert(a.push(event).drop_last() =~= a);
}

/// The certificate chain is read to its end, however long it is.
proof fn lemma_chain(n: nat)
    ensures
        follows(State::Generating(Stage::Certificate), chain(n)),
        after(State::Generating(Stage::Certificate), chain(n)) == State::ReportingRootHashes,
        continued(chain(n)) == n,
    decreases n,
{
    let s = State::Generating(Stage::Certificate);
    let last = Event::<Seq<u8>>::Connection { during_certificate: n > 0 };
    lemma_exchange(Stage::Certificate);
    lemma_push(s, exchange(), last);
    if n > 0 {
        lemma_chain((n - 1) as nat);
        lemma_concat(s, exchange().push(last), chain((n - 1) as nat));
    }
}

/// If nothing fails the requester gets through the whole flow, however often the
/// certificate chain turns out to be incomplete.
pub proof fn law_undisturbed_flow_completes(n: nat, nonce: Seq<u8>)
    ensures
        follows(first().state, undisturbed(n, nonce)),
        after(first().state, undisturbed(n, nonce)) == State::Waiting,
        asked(trace(undisturbed(n, nonce))) == flow(n + 1),
{
    let s = first().state;
    let e = exchange();
    lemma_exchange(Stage::Version);
    lemma_exchange(Stage::Capabilities);
    lemma_exchange(Stage::Algorithms);
    lemma_exchange(Stage::Digests);
    lemma_exchange(Stage::Challenge);
    lemma_concat(s, e, e);
    lemma_concat(s, e + e, e);
    lemma_concat(s, e + e + e, e);
    let a = (e + e + e + e).push(Event::Reported);
    lemma_push(s, e + e + e + e, Event::Reported);
    lemma_chain(n);
    lemma_concat(s, a, chain(n));
    let b = a + chain(n);
    let c = seq![Event::Reported, Event::Nonce(Some(nonce))];
    lemma_push(s, b, Event::Reported);
    lemma_push(s, b.push(Event::Reported), Event::Nonce(Some(nonce)));
    assert(b + c =~= b.push(Event::Reported).push(Event::Nonce(Some(nonce))));
    lemma_concat(s, b + c, e);
    law_rest_means_whole_flow(undisturbed(n, nonce));
}

/// The challenge carries the bytes that were drawn for it: a flow whose last event is that
/// `nonce` was drawn goes on with a challenge of slot 0 with that nonce, and challenges with
/// different nonces differ.
pub proof fn law_challenge_carries_the_drawn_nonce(
    events: Seq<Event<Seq<u8>>>,
    nonce: Seq<u8>,
    other: Seq<u8>,
)
    requires
        follows(first().state, events),
        events.len() > 0,
        events.last() == Event::Nonce(Some(nonce)),
    ensures
        trace(events).last() == Action::Generate(
            Request::Challenge {
                slot: 0,
                summary: MeasurementSummaryHashType::All,
                nonce,
                context: None,
            },
        ),
        trace(events).last() == trace(events.drop_last().push(Event::Nonce(Some(other)))).last()
            <==> nonce == other,
{
    let changed = events.drop_last().push(Event::Nonce(Some(other)));
    assert(changed.drop_last() =~= events.drop_last());
}

/// The actions of a flow are not changed by later events.
proof fn lemma_trace_grows(events: Seq<Event<Seq<u8>>>, i: int)
    requires
        0 <= i <= events.len(),
    ensures
        trace(events).len() == events.len() + 1,
        trace(events)[i] == trace(events.take(i)).last(),
        trace(events.take(i)).len() == i + 1,
        follows(first().state, events) ==> follows(first().state, events.take(i)),
    decreases events.len(),
{
    if i == events.len() {
        assert(events.take(i) =~= events);
        if i > 0 {
            lemma_trace_grows(events.drop_last(), i - 1);
        }
    } else {
        lemma_trace_grows(events.drop_last(), i);
        assert(events.drop_last().take(i) =~= events.take(i));
    }
}

/// In each state that belongs to a request, the request was generated last, and it is the
/// one of the state's stage.
proof fn lemma_last_request(events: Seq<Event<Seq<u8>>>)
    requires
        follows(first().state, events),
    ensures
        ({
            let n = events.len() as int;
            &&& trace(events).len() == n + 1
            &&& match after(first().state, events) {
                State::Generating(stage) => trace(events)[n] matches Action::Generate(request)
                    && stage_of(request) == stage,
                State::Sending(stage) => n >= 1 && (trace(events)[n - 1]
                    matches Action::Generate(request) && stage_of(request) == stage),
                State::Processing(stage) => n >= 2 && (trace(events)[n - 2]
                    matches Action::Generate(request) && stage_of(request) == stage),
                _ => true,
            }
        }),
    decreases events.len(),
{
    if events.len() > 0 {
        lemma_last_request(events.drop_last());
    }
}

/// Every action of a flow has the parameters that the flow is to have, whenever it comes: the
/// version is asked for with zeroes, no algorithm table is given, a certificate portion is
/// 512 bytes of slot 0 from its start, the challenge is one of slot 0 with all measurements,
/// without context and with the nonce that was drawn just before, requests go to endpoint 10,
/// and a sleep is two minutes long. The message buffer is reset before a response is
/// received, except for a portion of the certificate chain.
pub proof fn law_requests_have_their_parameters(events: Seq<Event<Seq<u8>>>, i: int)
    requires
        follows(first().state, events),
        0 <= i <= events.len(),
    ensures
        trace(events).len() == events.len() + 1,
        match trace(events)[i] {
            Action::Generate(Request::Version { param1, param2 }) => {
                &&& i == 0
                &&& param1 == 0
                &&& param2 == 0
            },
            Action::Generate(Request::Capabilities) => i > 0,
            Action::Generate(Request::Algorithms { tables }) => {
                &&& !tables.first
                &&& !tables.second
                &&& !tables.third
                &&& !tables.fourth
            },
            Action::Generate(Request::Digests) => i > 0,
            Action::Generate(Request::Certificate { slot, offset, length, slot_size_requested }) => {
                &&& slot == 0
                &&& offset == 0
                &&& length == 512
                &&& !slot_size_requested
            },
            Action::Generate(Request::Challenge { slot, summary, nonce, context }) => {
                &&& slot == 0
                &&& summary == MeasurementSummaryHashType::All
                &&& i > 0
                &&& events[i - 1] == Event::Nonce(Some(nonce))
                &&& context is None
            },
            Action::Send { eid } => eid == 10,
            Action::Process { reset } => {
                &&& i >= 2
                &&& trace(events)[i - 2] is Generate
                &&& reset <==> !(trace(events)[i - 2] matches Action::Generate(
                    Request::Certificate { slot, offset, length, slot_size_requested },
                ))
            },
            Action::Wait { millis } => millis == 120000,
            _ => true,
        },
{
    lemma_trace_grows(events, i);
    let now = events.take(i);
    if i > 0 {
        assert(now.last() == events[i - 1]);
        lemma_last_request(now.drop_last());
        lemma_last_request(now);
        if i >= 2 {
            lemma_trace_grows(events, i - 2);
            lemma_trace_grows(now, i - 2);
            assert(now.take(i - 2) =~= events.take(i - 2));
        }
    }
}

/// A flow that gives up says what failed: the phase is that of its last event, and the stage
/// is that of the last request, or the challenge if its nonce could not be drawn.
pub proof fn law_failure_names_its_cause(events: Seq<Event<Seq<u8>>>, stage: Stage, phase: Phase)
    requires
        follows(first().state, events),
        trace(events).last() == (Action::<Seq<u8>>::Fail { stage, phase }),
    ensures
        events.len() > 0,
        phase == Phase::Generate <==> events.last() == Event::<Seq<u8>>::Generated(false),
        phase == Phase::Send <==> events.last() == Event::<Seq<u8>>::Sent(false),
        phase == Phase::Process <==> events.last() == Event::<Seq<u8>>::Processed(false),
        phase == Phase::Nonce <==> events.last() == Event::<Seq<u8>>::Nonce(None),
        phase == Phase::Nonce ==> stage == Stage::Challenge,
        phase != Phase::Nonce ==> asked(trace(events)).len() > 0 && asked(trace(events)).last()
            == stage,
{
    let earlier = events.drop_last();
    if events.len() > 0 {
        lemma_stands(earlier);
        assert(trace(events).drop_last() =~= trace(earlier));
    }
}

/// What each outcome leads to, in each stage: a request that was generated is sent to
/// endpoint 10, one that was sent is waited for, and each failure is given up on.
pub proof fn law_each_phase_leads_on(stage: Stage)
    ensures
        answers(State::Generating(stage), Event::Generated(true)),
        next(State::Generating(stage), Event::Generated(true)).state == State::Sending(stage),
        next(State::Generating(stage), Event::Generated(true)).action == (Action::<
            Seq<u8>,
        >::Send { eid: 10 }),
        answers(State::Generating(stage), Event::Generated(false)),
        next(State::Generating(stage), Event::Generated(false)).state == (State::Failed {
            stage,
            phase: Phase::Generate,
        }),
        next(State::Generating(stage), Event::Generated(false)).action == (Action::<
            Seq<u8>,
        >::Fail { stage, phase: Phase::Generate }),
        answers(State::Sending(stage), Event::Sent(true)),
        next(State::Sending(stage), Event::Sent(true)).state == State::Processing(stage),
        next(State::Sending(stage), Event::Sent(true)).action == (Action::<Seq<u8>>::Process {
            reset: !(stage is Certificate),
        }),
        answers(State::Sending(stage), Event::Sent(false)),
        next(State::Sending(stage), Event::Sent(false)).state == (State::Failed {
            stage,
            phase: Phase::Send,
        }),
        next(State::Sending(stage), Event::Sent(false)).action == (Action::<Seq<u8>>::Fail {
            stage,
            phase: Phase::Send,
        }),
        answers(State::Processing(stage), Event::Processed(true)),
        answers(State::Processing(stage), Event::Processed(false)),
        next(State::Processing(stage), Event::Processed(false)).state == (State::Failed {
            stage,
            phase: Phase::Process,
        }),
        next(State::Processing(stage), Event::Processed(false)).action == (Action::<
            Seq<u8>,
        >::Fail { stage, phase: Phase::Process }),
{
}

/// How the flow starts, and what an accepted response leads to: the version to the
/// capabilities, those to the algorithms without tables, those to the digests, those to their
/// report and a portion of the chain, a portion to another one or the root hashes, those to a
/// nonce, a nonce to its challenge and the challenge to rest.
pub proof fn law_stages_lead_to_each_other(nonce: Seq<u8>)
    ensures
        first().state == State::Generating(Stage::Version),
        first().action == Action::<Seq<u8>>::Generate(Request::Version { param1: 0, param2: 0 }),
        next(State::Processing(Stage::Version), Event::Processed(true)).state == State::Generating(
            Stage::Capabilities,
        ),
        next(State::Processing(Stage::Version), Event::Processed(true)).action == Action::<
            Seq<u8>,
        >::Generate(Request::Capabilities),
        next(State::Processing(Stage::Capabilities), Event::Processed(true)).state
            == State::Generating(Stage::Algorithms),
        next(State::Processing(Stage::Capabilities), Event::Processed(true)).action == Action::<
            Seq<u8>,
        >::Generate(
            Request::Algorithms {
                tables: AlgorithmTables { first: false, second: false, third: false, fourth: false },
            },
        ),
        next(State::Processing(Stage::Algorithms), Event::Processed(true)).state
            == State::Generating(Stage::Digests),
        next(State::Processing(Stage::Algorithms), Event::Processed(true)).action == Action::<
            Seq<u8>,
        >::Generate(Request::Digests),
        next(State::Processing(Stage::Digests), Event::Processed(true)).state
            == State::ReportingDigests,
        next(State::Processing(Stage::Digests), Event::Processed(true)).action == Action::<
            Seq<u8>,
        >::ReportDigests,
        answers(State::ReportingDigests, Event::Reported),
        next(State::ReportingDigests, Event::Reported).state == State::Generating(
            Stage::Certificate,
        ),
        next(State::ReportingDigests, Event::Reported).action == Action::<Seq<u8>>::Generate(
            Request::Certificate { slot: 0, offset: 0, length: 512, slot_size_requested: false },
        ),
        next(State::Processing(Stage::Certificate), Event::Processed(true)).state
            == State::ReadingConnection,
        next(State::Processing(Stage::Certificate), Event::Processed(true)).action == Action::<
            Seq<u8>,
        >::ReadConnection,
        answers(State::ReadingConnection, Event::Connection { during_certificate: true }),
        next(
            State::ReadingConnection,
            Event::Connection { during_certificate: true },
        ).state == State::Generating(Stage::Certificate),
        next(
            State::ReadingConnection,
            Event::Connection { during_certificate: true },
        ).action == Action::<Seq<u8>>::Generate(
            Request::Certificate { slot: 0, offset: 0, length: 512, slot_size_requested: false },
        ),
        answers(State::ReadingConnection, Event::Connection { during_certificate: false }),
        next(
            State::ReadingConnection,
            Event::Connection { during_certificate: false },
        ).state == State::ReportingRootHashes,
        next(
            State::ReadingConnection,
            Event::Connection { during_certificate: false },
        ).action == Action::<Seq<u8>>::ReportRootHashes,
        answers(State::ReportingRootHashes, Event::Reported),
        next(State::ReportingRootHashes, Event::Reported).state == State::DrawingNonce,
        next(State::ReportingRootHashes, Event::Reported).action == Action::<Seq<u8>>::DrawNonce,
        answers(State::DrawingNonce, Event::Nonce(Some(nonce))),
        next(State::DrawingNonce, Event::Nonce(Some(nonce))).state == State::Generating(
            Stage::Challenge,
        ),
        next(State::DrawingNonce, Event::Nonce(Some(nonce))).action == Action::Generate(
            Request::Challenge {
                slot: 0,
                summary: MeasurementSummaryHashType::All,
                nonce,
                context: None,
            },
        ),
        answers(State::DrawingNonce, Event::Nonce(None)),
        next(State::DrawingNonce, Event::Nonce(None)).state == (State::Failed {
            stage: Stage::Challenge,
            phase: Phase::Nonce,
        }),
        next(State::DrawingNonce, Event::Nonce(None)).action == (Action::<Seq<u8>>::Fail {
            stage: Stage::Challenge,
            phase: Phase::Nonce,
        }),
        next(State::Processing(Stage::Challenge), Event::Processed(true)).state == State::Waiting,
        next(State::Processing(Stage::Challenge), Event::Processed(true)).action == (Action::<
            Seq<u8>,
        >::Wait { millis: 120000 }),
        answers(State::Waiting, Event::Waited),
        next(State::Waiting, Event::Waited).state == State::Waiting,
        next(State::Waiting, Event::Waited).action == (Action::<Seq<u8>>::Wait { millis: 120000 }),
{
}

/// The words for a failure are made of what was tried and of the name of the request or of
/// its response. The first four stages have words, a nonce that could not be drawn has none.
pub proof fn law_failure_words(stage: Stage, phase: Phase)
    ensures
        spec_failure_message(stage, phase) is None <==> phase is Nonce || stage is Certificate
            || stage is Challenge,
        spec_failure_message(stage, phase) matches Some(words) ==> ({
            let request = match stage {
                Stage::Version => "GET_VERSION"@,
                Stage::Capabilities => "GET_CAPABILITIES"@,
                Stage::Algorithms => "NEGOTIATE_ALGORITHMS"@,
                _ => "GET_DIGESTS"@,
            };
            let response = match stage {
                Stage::Version => "VERSION"@,
                Stage::Capabilities => "CAPABILITIES"@,
                Stage::Algorithms => "ALGORITHMS"@,
                _ => "DIGESTS"@,
            };
            words == match phase {
                Phase::Generate => "Failed to generate "@ + request + " request"@,
                Phase::Send => "Failed to send "@ + request + " request"@,
                _ => "Failed to process "@ + response + " response"@,
            }
        }),
{
    reveal_strlit("GET_VERSION");
    reveal_strlit("GET_CAPABILITIES");
    reveal_strlit("NEGOTIATE_ALGORITHMS");
    reveal_strlit("GET_DIGESTS");
    reveal_strlit("VERSION");
    reveal_strlit("CAPABILITIES");
    reveal_strlit("ALGORITHMS");
    reveal_strlit("DIGESTS");
    reveal_strlit("Failed to generate ");
    reveal_strlit("Failed to send ");
    reveal_strlit("Failed to process ");
    reveal_strlit(" request");
    reveal_strlit(" response");
    match (stage, phase) {
        (Stage::Version, Phase::Generate) => {
            reveal_strlit("Failed to generate GET_VERSION request");
        },
        (Stage::Version, Phase::Send) => {
            reveal_strlit("Failed to send GET_VERSION request");
        },
        (Stage::Version, Phase::Process) => {
            reveal_strlit("Failed to process VERSION response");
        },
        (Stage::Capabilities, Phase::Generate) => {
            reveal_strlit("Failed to generate GET_CAPABILITIES request");
        },
        (Stage::Capabilities, Phase::Send) => {
            reveal_strlit("Failed to send GET_CAPABILITIES request");
        },
        (Stage::Capabilities, Phase::Process) => {
            reveal_strlit("Failed to process CAPABILITIES response");
        },
        (Stage::Algorithms, Phase::Generate) => {
            reveal_strlit("Failed to generate NEGOTIATE_ALGORITHMS request");
        },
        (Stage::Algorithms, Phase::Send) => {
            reveal_strlit("Failed to send NEGOTIATE_ALGORITHMS request");
        },
        (Stage::Algorithms, Phase::Process) => {
            reveal_strlit("Failed to process ALGORITHMS response");
        },
        (Stage::Digests, Phase::Generate) => {
            reveal_strlit("Failed to generate GET_DIGESTS request");
        },
        (Stage::Digests, Phase::Send) => {
            reveal_strlit("Failed to send GET_DIGESTS request");
        },
        (Stage::Digests, Phase::Process) => {
            reveal_strlit("Failed to process DIGESTS response");
        },
        _ => {},
    }
}

/// The two roles name each other: each end's remote address is the other end's own one, and
/// requests go to the responder's endpoint, which is not the requester's.
pub proof fn law_roles_name_each_other()
    ensures
        crate::requester::OWN_I2C_ADDR == 0x2a && crate::responder::REMOTE_I2C_ADDR == 0x2a,
        crate::requester::REMOTE_I2C_ADDR == 0x2b && crate::responder::OWN_I2C_ADDR == 0x2b,
        crate::requester::OWN_EID == 11,
        RESPONDER_EID == 10 && crate::responder::OWN_EID == 10,
{
}

/// A model of a step has the step's state and its action, with the same values and bytes.
pub proof fn law_step_is_modelled_faithfully(step: Step<&[u8]>)
    ensures
        step@.state == step.state,
        match step.action {
            Action::Generate(Request::Version { param1, param2 }) => step@.action == Action::<
                Seq<u8>,
            >::Generate(Request::Version { param1, param2 }),
            Action::Generate(Request::Capabilities) => step@.action == Action::<Seq<u8>>::Generate(
                Request::Capabilities,
            ),
            Action::Generate(Request::Algorithms { tables }) => step@.action == Action::<
                Seq<u8>,
            >::Generate(Request::Algorithms { tables }),
            Action::Generate(Request::Digests) => step@.action == Action::<Seq<u8>>::Generate(
                Request::Digests,
            ),
            Action::Generate(Request::Certificate { slot, offset, length, slot_size_requested }) => {
                step@.action == Action::<Seq<u8>>::Generate(
                    Request::Certificate { slot, offset, length, slot_size_requested },
                )
            },
            Action::Generate(Request::Challenge { slot, summary, nonce, context: Some(bytes) }) => {
                step@.action == Action::Generate(
                    Request::Challenge { slot, summary, nonce: nonce@, context: Some(bytes@) },
                )
            },
            Action::Generate(Request::Challenge { slot, summary, nonce, context: None }) => {
                step@.action == Action::Generate(
                    Request::Challenge { slot, summary, nonce: nonce@, context: None },
                )
            },
            Action::Send { eid } => step@.action == (Action::<Seq<u8>>::Send { eid }),
            Action::Process { reset } => step@.action == (Action::<Seq<u8>>::Process { reset }),
            Action::ReportDigests => step@.action == Action::<Seq<u8>>::ReportDigests,
            Action::ReadConnection => step@.action == Action::<Seq<u8>>::ReadConnection,
            Action::ReportRootHashes => step@.action == Action::<Seq<u8>>::ReportRootHashes,
            Action::DrawNonce => step@.action == Action::<Seq<u8>>::DrawNonce,
            Action::Wait { millis } => step@.action == (Action::<Seq<u8>>::Wait { millis }),
            Action::Fail { stage, phase } => step@.action == (Action::<Seq<u8>>::Fail {
                stage,
                phase,
            }),
        },
{
}

/// A model of an event has the event's kind, its values and its bytes.
pub proof fn law_event_is_modelled_faithfully(event: Event<&[u8]>)
    ensures
        match event {
            Event::Generated(ok) => event@ == Event::<Seq<u8>>::Generated(ok),
            Event::Sent(ok) => event@ == Event::<Seq<u8>>::Sent(ok),
            Event::Processed(ok) => event@ == Event::<Seq<u8>>::Processed(ok),
            Event::Reported => event@ == Event::<Seq<u8>>::Reported,
            Event::Connection { during_certificate } => event@ == (Event::<Seq<u8>>::Connection {
                during_certificate,
            }),
            Event::Nonce(Some(nonce)) => event@ == Event::Nonce(Some(nonce@)),
            Event::Nonce(None) => event@ == Event::<Seq<u8>>::Nonce(None),
            Event::Waited => event@ == Event::<Seq<u8>>::Waited,
        },
{
}

} // verus!
