//! What holds of whole transport operations, whatever the bus and the router do.
use crate::transport::{
    answers, done, request_message, response_message, Action, ActionView, AppCookie, Awaited,
    CommandKind, Event, EventView, Incoming, Outgoing, State, StateView, Step, Transport,
    TransportError,
};
use vstd::prelude::*;

verus! {

/// The transport and the state of an operation after a series of events.
pub open spec fn after(t: Transport, s: StateView, events: Seq<EventView>) -> (Transport, StateView)
    decreases events.len(),
{
    if events.len() == 0 {
        (t, s)
    } else {
        let (t1, step) = t.next(s, events[0]);
        after(t1, step.state, events.drop_first())
    }
}

/// The actions that a series of events leads to, one for each event.
pub open spec fn actions(t: Transport, s: StateView, events: Seq<EventView>) -> Seq<ActionView>
    decreases events.len(),
{
    if events.len() == 0 {
        seq![]
    } else {
        let (t1, step) = t.next(s, events[0]);
        seq![step.action] + actions(t1, step.state, events.drop_first())
    }
}

/// Whether each event is an outcome of the action before it.
pub open spec fn follows(t: Transport, s: StateView, events: Seq<EventView>) -> bool
    decreases events.len(),
{
    events.len() > 0 ==> {
        let (t1, step) = t.next(s, events[0]);
        &&& answers(s, events[0])
        &&& follows(t1, step.state, events.drop_first())
    }
}

/// Whether a series of events takes an operation to its end.
pub open spec fn completes(t: Transport, s: StateView, events: Seq<EventView>) -> bool {
    &&& events.len() > 0
    &&& follows(t, s, events)
    &&& after(t, s, events).1 == State::<Seq<u8>>::Finished
}

/// What the operation returned.
pub open spec fn outcome(t: Transport, s: StateView, events: Seq<EventView>) -> Result<
    (),
    TransportError,
> {
    actions(t, s, events).last()->Done_0
}

/// What a message buffer that held `before` holds once a payload was stored in it.
pub open spec fn stored_in(before: Seq<u8>, reset: bool, payload: Seq<u8>) -> Seq<u8> {
    if reset {
        payload
    } else {
        before + payload
    }
}

/// What the caller's message buffer holds after a series of events, if it held `before`.
/// There is nothing to say of a buffer that had no room for a payload.
pub open spec fn contents(
    before: Seq<u8>,
    t: Transport,
    s: StateView,
    events: Seq<EventView>,
) -> Seq<u8>
    decreases events.len(),
{
    if events.len() == 0 {
        before
    } else {
        let (t1, step) = t.next(s, events[0]);
        let rest = events.drop_first();
        let now = match step.action {
            Action::Store { reset, payload } => if rest.len() == 0 {
                before
            } else if rest[0] == EventView::Stored(true) {
                stored_in(before, reset, payload)
            } else {
                arbitrary()
            },
            _ => before,
        };
        contents(now, t1, step.state, rest)
    }
}

/// The handles that were given back to the router, in order.
pub open spec fn unbound(actions: Seq<ActionView>) -> Seq<AppCookie>
    decreases actions.len(),
{
    if actions.len() == 0 {
        seq![]
    } else {
        let rest = unbound(actions.drop_first());
        match actions[0] {
            Action::Unbind { handle } => seq![handle] + rest,
            _ => rest,
        }
    }
}

/// The message that the router handed out.
pub open spec fn received(events: Seq<EventView>) -> Option<Incoming<Seq<u8>>>
    decreases events.len(),
{
    if events.len() == 0 {
        None
    } else {
        match events[0] {
            Event::Received(Some(message)) => Some(message),
            _ => received(events.drop_first()),
        }
    }
}

/// Whether the bus or the MCTP stack failed, or a bus master wanted to read.
pub open spec fn failed(event: EventView) -> bool {
    match event {
        Event::Listened(kind) => kind != Some(CommandKind::Write),
        Event::Responded { buf, len } => len is None,
        Event::Decoded(packet) => packet is None,
        Event::Routed(complete) => complete is None,
        _ => false,
    }
}

/// Whether there was such a failure among the events.
pub open spec fn disturbed(events: Seq<EventView>) -> bool
    decreases events.len(),
{
    events.len() > 0 && (failed(events[0]) || disturbed(events.drop_first()))
}

/// Whether there was no room for a payload.
pub open spec fn overfull(events: Seq<EventView>) -> bool
    decreases events.len(),
{
    events.len() > 0 && (events[0] == EventView::Stored(false) || overfull(events.drop_first()))
}

/// The packets that were taken out of I2C frames, in order.
pub open spec fn decoded(events: Seq<EventView>) -> Seq<Seq<u8>>
    decreases events.len(),
{
    if events.len() == 0 {
        seq![]
    } else {
        let rest = decoded(events.drop_first());
        match events[0] {
            Event::Decoded(Some(packet)) => seq![packet] + rest,
            _ => rest,
        }
    }
}

/// The packets that were handed to the router, in order.
pub open spec fn routed(actions: Seq<ActionView>) -> Seq<Seq<u8>>
    decreases actions.len(),
{
    if actions.len() == 0 {
        seq![]
    } else {
        let rest = routed(actions.drop_first());
        match actions[0] {
            Action::Route { packet } => seq![packet] + rest,
            _ => rest,
        }
    }
}

/// The bytes that bus masters wrote, in order.
pub open spec fn written(events: Seq<EventView>) -> Seq<Seq<u8>>
    decreases events.len(),
{
    if events.len() == 0 {
        seq![]
    } else {
        let rest = written(events.drop_first());
        match events[0] {
            Event::Responded { buf, len: Some(len) } => seq![buf.take(len as int)] + rest,
            _ => rest,
        }
    }
}

/// The frames that were decoded, in order.
pub open spec fn frames(actions: Seq<ActionView>) -> Seq<Seq<u8>>
    decreases actions.len(),
{
    if actions.len() == 0 {
        seq![]
    } else {
        let rest = frames(actions.drop_first());
        match actions[0] {
            Action::Decode { own_addr, packet, pec } => seq![packet] + rest,
            _ => rest,
        }
    }
}

/// Whether `s` is a state of a receive operation that awaits `awaited` on `handle` and has
/// not failed.
pub open spec fn receiving(s: StateView, awaited: Awaited, handle: AppCookie) -> bool {
    ||| s == StateView::Polling { awaited, handle }
    ||| on_the_bus(s, awaited, handle)
    ||| s == StateView::Collecting { awaited, handle }
    ||| s == StateView::Storing { awaited, handle }
    ||| s == StateView::Closing { awaited, handle }
}

/// Whether `s` is a state of a receive operation that waits for a packet.
pub open spec fn on_the_bus(s: StateView, awaited: Awaited, handle: AppCookie) -> bool {
    ||| s == StateView::Listening { awaited, handle }
    ||| s == StateView::Responding { awaited, handle }
    ||| s == StateView::Decoding { awaited, handle }
    ||| s == StateView::Routing { awaited, handle }
}

/// Whether `s` is a state in which a request is awaited.
pub open spec fn serving(s: StateView) -> bool {
    match s {
        State::OpeningListener | State::Aborting { .. } => true,
        State::Polling { awaited, .. }
        | State::Listening { awaited, .. }
        | State::Responding { awaited, .. }
        | State::Decoding { awaited, .. }
        | State::Routing { awaited, .. }
        | State::Collecting { awaited, .. }
        | State::Storing { awaited, .. }
        | State::Closing { awaited, .. } => awaited == Awaited::Request,
        _ => false,
    }
}

/// The transport that remembers what the router handed out.
pub open spec fn noting_received(
    t: Transport,
    awaited: Awaited,
    events: Seq<EventView>,
) -> Transport {
    match received(events) {
        Some(message) => t.noting(awaited, message),
        None => t,
    }
}

/// The first event of an operation, and the rest of the operation.
proof fn lemma_split(t: Transport, s: StateView, events: Seq<EventView>)
    requires
        completes(t, s, events),
    ensures
        ({
            let (t1, step) = t.next(s, events[0]);
            let rest = events.drop_first();
            let acts = actions(t, s, events);
            &&& answers(s, events[0])
            &&& after(t, s, events) == after(t1, step.state, rest)
            &&& acts.drop_first() == actions(t1, step.state, rest)
            &&& acts == seq![step.action] + actions(t1, step.state, rest)
            &&& if step.state == State::<Seq<u8>>::Finished {
                &&& events.len() == 1
                &&& after(t, s, events).0 == t1
                &&& acts == seq![step.action]
            } else {
                &&& completes(t1, step.state, rest)
                &&& actions(t1, step.state, rest).len() > 0
                &&& acts.last() == actions(t1, step.state, rest).last()
            }
        }),
{
    let (t1, step) = t.next(s, events[0]);
    let rest = events.drop_first();
    let acts = actions(t, s, events);
    assert(follows(t1, step.state, rest));
    assert(acts == seq![step.action] + actions(t1, step.state, rest));
    assert(acts.drop_first() =~= actions(t1, step.state, rest));
    assert(after(t, s, events) == after(t1, step.state, rest));
}

/// A receive of a request that failed closes its listener and returns its error.
proof fn lemma_aborting(
    t: Transport,
    handle: AppCookie,
    error: TransportError,
    events: Seq<EventView>,
)
    requires
        completes(t, State::Aborting { handle, error }, events),
    ensures
        events == seq![EventView::Unbound],
        actions(t, State::Aborting { handle, error }, events) == seq![ActionView::Done(Err(error))],
        after(t, State::Aborting { handle, error }, events).0 == t,
        unbound(seq![ActionView::Done(Err(error))]) == Seq::<AppCookie>::empty(),
        received(events) is None,
        !disturbed(events),
        !overfull(events),
{
    lemma_split(t, State::Aborting { handle, error }, events);
    assert(seq![ActionView::Done(Err(error))].drop_first() =~= seq![]);
    assert(events.drop_first() =~= seq![]);
    assert(unbound(seq![]) =~= seq![]);
    assert(received(seq![]) is None);
    assert(!disturbed(seq![]) && !overfull(seq![]));
}

/// A receive operation from any of its states to its end.
proof fn lemma_receive(
    t: Transport,
    s: StateView,
    awaited: Awaited,
    handle: AppCookie,
    events: Seq<EventView>,
)
    requires
        receiving(s, awaited, handle),
        completes(t, s, events),
    ensures
        actions(t, s, events).last() is Done,
        s is Storing || s is Closing ==> received(events) is None,
        unbound(actions(t, s, events)) == if s is Closing || (outcome(t, s, events) is Err
            && awaited == Awaited::Response) {
            Seq::<AppCookie>::empty()
        } else {
            seq![handle]
        },
        after(t, s, events).0 == if outcome(t, s, events) is Ok {
            noting_received(t, awaited, events).settled(awaited)
        } else {
            noting_received(t, awaited, events)
        },
        outcome(t, s, events) == Err::<(), _>(TransportError::BufferTooSmall) <==> overfull(events),
        outcome(t, s, events) == Err::<(), _>(TransportError::ReceiveError) <==> disturbed(events),
        outcome(t, s, events) != Err::<(), _>(TransportError::ResponseNotExpected),
        s is Closing ==> outcome(t, s, events) is Ok,
        s is Storing ==> !disturbed(events),
    decreases events.len(),
{
    let (t1, step) = t.next(s, events[0]);
    let rest = events.drop_first();
    let acts = actions(t, s, events);
    lemma_split(t, s, events);
    if step.state == State::<Seq<u8>>::Finished {
        assert(unbound(acts.drop_first()) == Seq::<AppCookie>::empty());
        assert(received(rest) is None);
        assert(!disturbed(rest) && !overfull(rest));
    } else if step.state is Aborting {
        lemma_aborting(t1, step.state->Aborting_handle, step.state->Aborting_error, rest);
        assert(unbound(acts) =~= seq![handle]);
    } else {
        lemma_receive(t1, step.state, awaited, handle, rest);
        if step.state is Closing {
            assert(unbound(acts) =~= seq![handle]);
        }
    }
}

/// Once a message is stored the caller's buffer is left alone.
proof fn lemma_contents_stay(
    before: Seq<u8>,
    t: Transport,
    s: StateView,
    awaited: Awaited,
    handle: AppCookie,
    events: Seq<EventView>,
)
    requires
        s == (StateView::Storing { awaited, handle }) || s == (StateView::Closing { awaited, handle }),
        completes(t, s, events),
    ensures
        contents(before, t, s, events) == before,
    decreases events.len(),
{
    let (t1, step) = t.next(s, events[0]);
    lemma_split(t, s, events);
    if step.state == State::<Seq<u8>>::Finished {
        assert(contents(before, t1, step.state, events.drop_first()) == before);
    } else if step.state is Aborting {
        lemma_aborting(
            t1,
            step.state->Aborting_handle,
            step.state->Aborting_error,
            events.drop_first(),
        );
        reveal_with_fuel(contents, 3);
    } else {
        lemma_contents_stay(before, t1, step.state, awaited, handle, events.drop_first());
    }
}

/// What a receive operation leaves in the caller's buffer.
proof fn lemma_contents(
    before: Seq<u8>,
    t: Transport,
    s: StateView,
    awaited: Awaited,
    handle: AppCookie,
    events: Seq<EventView>,
)
    requires
        receiving(s, awaited, handle),
        completes(t, s, events),
        !overfull(events),
    ensures
        contents(before, t, s, events) == match received(events) {
            Some(message) => message.payload,
            None => before,
        },
        received(events) is Some ==> !disturbed(events),
    decreases events.len(),
{
    let (t1, step) = t.next(s, events[0]);
    let rest = events.drop_first();
    lemma_split(t, s, events);
    if step.state == State::<Seq<u8>>::Finished {
        assert(received(rest) is None);
        assert(contents(before, t1, step.state, rest) == before);
    } else if step.state is Aborting {
        lemma_aborting(t1, step.state->Aborting_handle, step.state->Aborting_error, rest);
        reveal_with_fuel(contents, 3);
    } else if step.state is Storing {
        lemma_receive(t1, step.state, awaited, handle, rest);
        lemma_split(t1, step.state, rest);
        lemma_contents_stay(events[0]->Received_0->0.payload, t1, step.state, awaited, handle, rest);
    } else {
        lemma_contents(before, t1, step.state, awaited, handle, rest);
    }
}

/// A wait on the bus that ends well does so because the router reported a complete
/// message for the operation's own handle.
proof fn lemma_on_the_bus(
    t: Transport,
    s: StateView,
    awaited: Awaited,
    handle: AppCookie,
    events: Seq<EventView>,
)
    requires
        on_the_bus(s, awaited, handle),
        completes(t, s, events),
        outcome(t, s, events) is Ok,
    ensures
        events.contains(Event::Routed(Some(Some(handle)))),
    decreases events.len(),
{
    let (t1, step) = t.next(s, events[0]);
    let rest = events.drop_first();
    lemma_split(t, s, events);
    if events[0] != EventView::Routed(Some(Some(handle))) {
        if step.state is Aborting {
            lemma_aborting(t1, step.state->Aborting_handle, step.state->Aborting_error, rest);
        }
        lemma_on_the_bus(t1, step.state, awaited, handle, rest);
        let i = choose|i: int|
            0 <= i < rest.len() && rest[i] == EventView::Routed(Some(Some(handle)));
        assert(events[i + 1] == rest[i]);
    }
}

/// The end of a receive of the response to the request that is open under `handle`.
/// If it succeeds, the request is no longer outstanding and its handle was given back,
/// once. If it fails, the transport is as it was, the handle is still open and the
/// receive can be tried again. It fails with `BufferTooSmall` exactly if there was no room
/// for the message, and with `ReceiveError` exactly if the bus or the MCTP stack failed;
/// there is no other way to fail.
pub proof fn law_receive_response(t: Transport, handle: AppCookie, events: Seq<EventView>)
    requires
        t.req_handle == Some(handle),
        completes(t, t.first_receive_response().state, events),
    ensures
        ({
            let s = t.first_receive_response().state;
            let released = unbound(actions(t, s, events));
            &&& actions(t, s, events).last() is Done
            &&& outcome(t, s, events) == Err::<(), _>(TransportError::ReceiveError) <==> disturbed(
                events,
            )
            &&& outcome(t, s, events) == Err::<(), _>(TransportError::BufferTooSmall) <==> overfull(
                events,
            )
            &&& outcome(t, s, events) != Err::<(), _>(TransportError::ResponseNotExpected)
            &&& if outcome(t, s, events) is Ok {
                &&& after(t, s, events).0 == (Transport { req_handle: None, ..t })
                &&& released == seq![handle]
            } else {
                &&& after(t, s, events).0 == t
                &&& released.len() == 0
            }
        }),
{
    lemma_receive(t, t.first_receive_response().state, Awaited::Response, handle, events);
}

/// The end of a receive of a request, on the listener that was opened under `handle`.
/// However it ends, the listener was closed, once, so that the next receive can open one
/// again. The transport remembers where the request came from whenever the router handed
/// one out, even if there was no room for it; otherwise the transport is as it was. The
/// ways to fail are those of a response.
pub proof fn law_receive_request(t: Transport, handle: AppCookie, events: Seq<EventView>)
    requires
        completes(t, t.first_receive_request().state, events),
        events[0] == EventView::Opened(handle),
    ensures
        ({
            let s = t.first_receive_request().state;
            &&& actions(t, s, events).last() is Done
            &&& unbound(actions(t, s, events)) == seq![handle]
            &&& after(t, s, events).0 == match received(events) {
                Some(message) => Transport {
                    req_handle: message.cookie,
                    req: Some((message.source, message.tag)),
                    ..t
                },
                None => t,
            }
            &&& outcome(t, s, events) == Err::<(), _>(TransportError::ReceiveError) <==> disturbed(
                events,
            )
            &&& outcome(t, s, events) == Err::<(), _>(TransportError::BufferTooSmall) <==> overfull(
                events,
            )
            &&& outcome(t, s, events) != Err::<(), _>(TransportError::ResponseNotExpected)
        }),
{
    let s = t.first_receive_request().state;
    let (t1, step) = t.next(s, events[0]);
    lemma_split(t, s, events);
    lemma_receive(t1, step.state, Awaited::Request, handle, events.drop_first());
}

/// What a receive of a response leaves in the caller's buffer. If it succeeds, that is the
/// payload of the message that the router handed out, and nothing of what the buffer held
/// before. If the router handed out none, or the bus or the MCTP stack failed, the buffer is
/// as it was.
pub proof fn law_response_replaces_buffer(
    t: Transport,
    handle: AppCookie,
    events: Seq<EventView>,
    before: Seq<u8>,
)
    requires
        t.req_handle == Some(handle),
        completes(t, t.first_receive_response().state, events),
    ensures
        ({
            let s = t.first_receive_response().state;
            &&& outcome(t, s, events) is Ok ==> contents(before, t, s, events) == match received(
                events,
            ) {
                Some(message) => message.payload,
                None => before,
            }
            &&& outcome(t, s, events) == Err::<(), _>(TransportError::ReceiveError) ==> contents(
                before,
                t,
                s,
                events,
            ) == before
        }),
{
    let s = t.first_receive_response().state;
    lemma_receive(t, s, Awaited::Response, handle, events);
    if !overfull(events) {
        lemma_contents(before, t, s, Awaited::Response, handle, events);
    }
}

/// What a receive of a request leaves in the caller's buffer, in the same way.
pub proof fn law_request_replaces_buffer(
    t: Transport,
    handle: AppCookie,
    events: Seq<EventView>,
    before: Seq<u8>,
)
    requires
        completes(t, t.first_receive_request().state, events),
        events[0] == EventView::Opened(handle),
    ensures
        ({
            let s = t.first_receive_request().state;
            &&& outcome(t, s, events) is Ok ==> contents(before, t, s, events) == match received(
                events,
            ) {
                Some(message) => message.payload,
                None => before,
            }
            &&& outcome(t, s, events) == Err::<(), _>(TransportError::ReceiveError) ==> contents(
                before,
                t,
                s,
                events,
            ) == before
        }),
{
    let s = t.first_receive_request().state;
    let (t1, step) = t.next(s, events[0]);
    let rest = events.drop_first();
    lemma_split(t, s, events);
    lemma_receive(t1, step.state, Awaited::Request, handle, rest);
    if !overfull(rest) {
        lemma_contents(before, t1, step.state, Awaited::Request, handle, rest);
    }
}

/// A request arrives as it was sent: if the router of `b` hands out the payload that `a`
/// gave to its router, the buffer that `b` receives into holds the bytes that `a` was to
/// send, whatever it held before. Neither side adds or strips a header.
pub proof fn law_request_round_trip(
    a: Transport,
    dest_eid: u8,
    handle: AppCookie,
    request: Seq<u8>,
    b: Transport,
    listener: AppCookie,
    events: Seq<EventView>,
    message: Incoming<Seq<u8>>,
    before: Seq<u8>,
)
    requires
        completes(b, b.first_receive_request().state, events),
        events[0] == EventView::Opened(listener),
        outcome(b, b.first_receive_request().state, events) is Ok,
        received(events) == Some(message),
        a.next(
            a.first_send_request(dest_eid, request).state,
            Event::Opened(handle),
        ).1.action matches Action::Send { out, payload } && payload == message.payload,
    ensures
        contents(before, b, b.first_receive_request().state, events) == request,
{
    law_request_replaces_buffer(b, listener, events, before);
}

/// A response arrives as it was sent, in the same way.
pub proof fn law_response_round_trip(
    b: Transport,
    response: Seq<u8>,
    a: Transport,
    handle: AppCookie,
    events: Seq<EventView>,
    message: Incoming<Seq<u8>>,
    before: Seq<u8>,
)
    requires
        a.req_handle == Some(handle),
        completes(a, a.first_receive_response().state, events),
        outcome(a, a.first_receive_response().state, events) is Ok,
        received(events) == Some(message),
        b.first_send_response(response).action matches Action::Send { out, payload } && payload
            == message.payload,
    ensures
        contents(before, a, a.first_receive_response().state, events) == response,
{
    law_response_replaces_buffer(a, handle, events, before);
}

/// A message that was complete before the receive started is taken without the bus: its
/// payload is stored, and then the handle is given back and the receive succeeds; or there
/// is no room for the payload and the receive fails.
pub proof fn law_ready_message_needs_no_bus(
    t: Transport,
    awaited: Awaited,
    handle: AppCookie,
    message: Incoming<Seq<u8>>,
    stored: bool,
    events: Seq<EventView>,
)
    requires
        completes(t, State::Polling { awaited, handle }, events),
        events[0] == EventView::Received(Some(message)),
        events[1] == EventView::Stored(stored),
    ensures
        actions(t, State::Polling { awaited, handle }, events) == seq![
            ActionView::Store { reset: true, payload: message.payload },
        ] + if stored {
            seq![ActionView::Unbind { handle }, ActionView::Done(Ok(()))]
        } else {
            match awaited {
                Awaited::Request => seq![
                    ActionView::Unbind { handle },
                    ActionView::Done(Err(TransportError::BufferTooSmall)),
                ],
                Awaited::Response => seq![ActionView::Done(Err(TransportError::BufferTooSmall))],
            }
        },
{
    let s = State::Polling { awaited, handle };
    let (t1, step1) = t.next(s, events[0]);
    let rest1 = events.drop_first();
    lemma_split(t, s, events);
    lemma_split(t1, step1.state, rest1);
    let (t2, step2) = t1.next(step1.state, rest1[0]);
    assert(rest1[0] == events[1]);
    if step2.state != State::<Seq<u8>>::Finished {
        lemma_split(t2, step2.state, rest1.drop_first());
    }
}

/// A receive that found no message ready and still succeeds does so only after the
/// router reported a complete message for the operation's own handle.
pub proof fn law_waits_for_own_message(
    t: Transport,
    awaited: Awaited,
    handle: AppCookie,
    events: Seq<EventView>,
)
    requires
        completes(t, State::Polling { awaited, handle }, events),
        events[0] == EventView::Received(None),
        outcome(t, State::Polling { awaited, handle }, events) is Ok,
    ensures
        events.contains(Event::Routed(Some(Some(handle)))),
{
    let s = State::Polling { awaited, handle };
    let (t1, step) = t.next(s, events[0]);
    let rest = events.drop_first();
    lemma_split(t, s, events);
    lemma_on_the_bus(t1, step.state, awaited, handle, rest);
    let i = choose|i: int| 0 <= i < rest.len() && rest[i] == EventView::Routed(Some(Some(handle)));
    assert(events[i + 1] == rest[i]);
}

/// A packet that arrives on the bus: the `len` first bytes of `buf`, with `packet` inside
/// the frame, completing a message for `complete`.
pub struct Arrival {
    pub buf: Seq<u8>,
    pub len: usize,
    pub packet: Seq<u8>,
    pub complete: Option<AppCookie>,
}

/// The events of a packet that arrives.
pub open spec fn arrival(a: Arrival) -> Seq<EventView> {
    seq![
        Event::Listened(Some(CommandKind::Write)),
        Event::Responded { buf: a.buf, len: Some(a.len) },
        Event::Decoded(Some(a.packet)),
        Event::Routed(Some(a.complete)),
    ]
}

/// The events of packets that arrive one after the other.
pub open spec fn arrivals(packets: Seq<Arrival>) -> Seq<EventView>
    decreases packets.len(),
{
    if packets.len() == 0 {
        seq![]
    } else {
        arrivals(packets.drop_last()) + arrival(packets.last())
    }
}

/// A series of events can be taken in two parts.
proof fn lemma_concat(t: Transport, s: StateView, a: Seq<EventView>, b: Seq<EventView>)
    ensures
        ({
            let (t1, s1) = after(t, s, a);
            &&& after(t, s, a + b) == after(t1, s1, b)
            &&& follows(t, s, a + b) == (follows(t, s, a) && follows(t1, s1, b))
            &&& actions(t, s, a + b) == actions(t, s, a) + actions(t1, s1, b)
        }),
    decreases a.len(),
{
    if a.len() == 0 {
        assert(a + b =~= b);
    } else {
        let (t1, step) = t.next(s, a[0]);
        lemma_concat(t1, step.state, a.drop_first(), b);
        assert((a + b).drop_first() =~= a.drop_first() + b);
    }
}

/// A packet takes a receive operation back to where it was, or on to its message.
proof fn lemma_arrival(t: Transport, awaited: Awaited, handle: AppCookie, a: Arrival)
    requires
        a.len <= a.buf.len(),
    ensures
        ({
            let s = StateView::Listening { awaited, handle };
            &&& follows(t, s, arrival(a))
            &&& after(t, s, arrival(a)) == if a.complete == Some(handle) {
                (t, StateView::Collecting { awaited, handle })
            } else {
                (t, s)
            }
        }),
{
    reveal_with_fuel(follows, 5);
    reveal_with_fuel(after, 5);
}

/// Packets that complete nothing for the operation leave it where it was.
proof fn lemma_foreign_arrivals(
    t: Transport,
    awaited: Awaited,
    handle: AppCookie,
    packets: Seq<Arrival>,
)
    requires
        forall|i: int|
            0 <= i < packets.len() ==> (#[trigger] packets[i]).len <= packets[i].buf.len()
                && packets[i].complete != Some(handle),
    ensures
        ({
            let s = StateView::Listening { awaited, handle };
            &&& follows(t, s, arrivals(packets))
            &&& after(t, s, arrivals(packets)) == (t, s)
        }),
    decreases packets.len(),
{
    if packets.len() > 0 {
        let s = State::Listening { awaited, handle };
        lemma_foreign_arrivals(t, awaited, handle, packets.drop_last());
        lemma_arrival(t, awaited, handle, packets.last());
        lemma_concat(t, s, arrivals(packets.drop_last()), arrival(packets.last()));
    }
}

/// A receive goes on until its message is there: however many other packets arrive
/// first, once one completes a message for the operation's handle, and there is room for
/// it, the receive succeeds.
pub proof fn law_receive_gets_its_message(
    t: Transport,
    awaited: Awaited,
    handle: AppCookie,
    foreign: Seq<Arrival>,
    own: Arrival,
    message: Incoming<Seq<u8>>,
)
    requires
        forall|i: int|
            0 <= i < foreign.len() ==> (#[trigger] foreign[i]).len <= foreign[i].buf.len()
                && foreign[i].complete != Some(handle),
        own.len <= own.buf.len(),
        own.complete == Some(handle),
    ensures
        ({
            let s = StateView::Polling { awaited, handle };
            let events = seq![EventView::Received(None)] + arrivals(foreign) + arrival(own) + seq![
                EventView::Received(Some(message)),
                EventView::Stored(true),
                EventView::Unbound,
            ];
            &&& completes(t, s, events)
            &&& outcome(t, s, events) is Ok
            &&& after(t, s, events).0 == t.noting(awaited, message).settled(awaited)
        }),
{
    let s = StateView::Polling { awaited, handle };
    let a = seq![EventView::Received(None)];
    let b = a + arrivals(foreign);
    let c = b + arrival(own);
    let d = seq![
        EventView::Received(Some(message)),
        EventView::Stored(true),
        EventView::Unbound,
    ];
    reveal_with_fuel(follows, 4);
    reveal_with_fuel(after, 4);
    reveal_with_fuel(actions, 4);
    lemma_foreign_arrivals(t, awaited, handle, foreign);
    lemma_arrival(t, awaited, handle, own);
    assert(follows(t, s, a) && after(t, s, a) == (t, StateView::Listening { awaited, handle }));
    lemma_concat(t, s, a, arrivals(foreign));
    lemma_concat(t, s, b, arrival(own));
    lemma_concat(t, s, c, d);
    let (t1, s1) = after(t, s, c);
    assert(actions(t1, s1, d) =~= seq![
        ActionView::Store { reset: true, payload: message.payload },
        ActionView::Unbind { handle },
        ActionView::Done(Ok(())),
    ]);
}

/// A packet that completes no message, or one for somebody else, changes nothing: the
/// operation listens for the next packet with the transport as it was.
pub proof fn law_foreign_packet_is_skipped(
    t: Transport,
    awaited: Awaited,
    handle: AppCookie,
    a: Arrival,
)
    requires
        a.len <= a.buf.len(),
        a.complete != Some(handle),
    ensures
        ({
            let s = StateView::Listening { awaited, handle };
            &&& follows(t, s, arrival(a))
            &&& after(t, s, arrival(a)) == (t, s)
            &&& actions(t, s, arrival(a)).last() == ActionView::Listen
        }),
{
    lemma_arrival(t, awaited, handle, a);
    reveal_with_fuel(actions, 5);
}

/// Bytes go through the transport unchanged and in order: what a bus master wrote is
/// what gets decoded, as the transport's own device and with the error code checked, and
/// what comes out of a frame is what the router gets.
pub proof fn law_packets_pass_unchanged(t: Transport, s: StateView, events: Seq<EventView>)
    requires
        follows(t, s, events),
    ensures
        frames(actions(t, s, events)) == written(events),
        routed(actions(t, s, events)) == decoded(events),
        after(t, s, events).0.own_i2c_addr == t.own_i2c_addr,
        forall|i: int|
            0 <= i < actions(t, s, events).len() ==> (#[trigger] actions(t, s, events)[i] matches
                Action::Decode { own_addr, packet, pec } ==> own_addr == t.own_i2c_addr && pec),
    decreases events.len(),
{
    if events.len() > 0 {
        let (t1, step) = t.next(s, events[0]);
        let rest = events.drop_first();
        let acts = actions(t, s, events);
        law_packets_pass_unchanged(t1, step.state, rest);
        assert(acts.drop_first() =~= actions(t1, step.state, rest));
        assert forall|i: int| 0 <= i < acts.len() implies (#[trigger] acts[i] matches Action::Decode {
            own_addr,
            packet,
            pec,
        } ==> own_addr == t.own_i2c_addr && pec) by {
            if i > 0 {
                assert(acts[i] == actions(t1, step.state, rest)[i - 1]);
            }
        }
    }
}

/// Once a request was sent its response is expected: the request goes out, byte for byte,
/// under the handle that the router opened for it, and a receive that follows polls that
/// handle.
pub proof fn law_request_expects_response(
    t: Transport,
    dest_eid: u8,
    message: Seq<u8>,
    handle: AppCookie,
)
    ensures
        ({
            let s = t.first_send_request(dest_eid, message).state;
            let events = seq![EventView::Opened(handle), EventView::Sent];
            let t2 = after(t, s, events).0;
            &&& completes(t, s, events)
            &&& actions(t, s, events) == seq![
                ActionView::Send { out: request_message(handle), payload: message },
                ActionView::Done(Ok(())),
            ]
            &&& t2 == (Transport { req_handle: Some(handle), ..t })
            &&& t2.first_receive_response().action == ActionView::Recv { handle }
        }),
{
    reveal_with_fuel(follows, 3);
    reveal_with_fuel(after, 3);
    reveal_with_fuel(actions, 3);
}

/// A call of one of the transport's operations.
pub enum Call {
    SendRequest { dest_eid: u8, message: Seq<u8> },
    ReceiveResponse,
    ReceiveRequest,
    SendResponse { message: Seq<u8> },
}

/// The first state of an operation.
pub open spec fn starts(t: Transport, call: Call) -> StateView {
    match call {
        Call::SendRequest { dest_eid, message } => t.first_send_request(dest_eid, message).state,
        Call::ReceiveResponse => t.first_receive_response().state,
        Call::ReceiveRequest => t.first_receive_request().state,
        Call::SendResponse { message } => t.first_send_response(message).state,
    }
}

/// The transport after a series of calls, each with its events.
pub open spec fn after_calls(t: Transport, calls: Seq<(Call, Seq<EventView>)>) -> Transport
    decreases calls.len(),
{
    if calls.len() == 0 {
        t
    } else {
        let (call, events) = calls[0];
        after_calls(after(t, starts(t, call), events).0, calls.drop_first())
    }
}

/// Whether the events of each call are outcomes of its actions.
pub open spec fn calls_follow(t: Transport, calls: Seq<(Call, Seq<EventView>)>) -> bool
    decreases calls.len(),
{
    calls.len() > 0 ==> {
        let (call, events) = calls[0];
        &&& follows(t, starts(t, call), events)
        &&& calls_follow(after(t, starts(t, call), events).0, calls.drop_first())
    }
}

/// A transport without a handle is left alone by receives of a response and attempts to
/// respond, and so refuses all of them until a request is sent or received.
pub proof fn law_nothing_is_expected_without_a_handle(
    t: Transport,
    calls: Seq<(Call, Seq<EventView>)>,
    message: Seq<u8>,
)
    requires
        t.req_handle is None,
        calls_follow(t, calls),
        forall|i: int|
            0 <= i < calls.len() ==> (#[trigger] calls[i]).0 is ReceiveResponse
                || calls[i].0 is SendResponse,
    ensures
        after_calls(t, calls) == t,
        t.first_receive_response() == done(Err(TransportError::ResponseNotExpected)),
        t.first_send_response(message) == done(Err(TransportError::ResponseNotExpected)),
    decreases calls.len(),
{
    if calls.len() > 0 {
        let (call, events) = calls[0];
        assert(calls[0].0 is ReceiveResponse || calls[0].0 is SendResponse);
        assert(starts(t, call) == StateView::Finished);
        assert(after(t, starts(t, call), events).0 == t);
        assert forall|i: int| 0 <= i < calls.drop_first().len() implies (
        #[trigger] calls.drop_first()[i]).0 is ReceiveResponse
            || calls.drop_first()[i].0 is SendResponse by {
            assert(calls.drop_first()[i] == calls[i + 1]);
        }
        law_nothing_is_expected_without_a_handle(t, calls.drop_first(), message);
    }
}

/// A request gets one response: once it was received, every further receive is refused, and
/// so is every attempt to respond, until a request is sent or received.
pub proof fn law_response_is_accepted_once(
    t: Transport,
    handle: AppCookie,
    events: Seq<EventView>,
    calls: Seq<(Call, Seq<EventView>)>,
    message: Seq<u8>,
)
    requires
        t.req_handle == Some(handle),
        completes(t, t.first_receive_response().state, events),
        outcome(t, t.first_receive_response().state, events) is Ok,
        calls_follow(after(t, t.first_receive_response().state, events).0, calls),
        forall|i: int|
            0 <= i < calls.len() ==> (#[trigger] calls[i]).0 is ReceiveResponse
                || calls[i].0 is SendResponse,
    ensures
        ({
            let t2 = after_calls(after(t, t.first_receive_response().state, events).0, calls);
            &&& t2 == (Transport { req_handle: None, ..t })
            &&& t2.first_receive_response() == done(Err(TransportError::ResponseNotExpected))
            &&& t2.first_send_response(message) == done(Err(TransportError::ResponseNotExpected))
        }),
{
    law_receive_response(t, handle, events);
    law_nothing_is_expected_without_a_handle(
        after(t, t.first_receive_response().state, events).0,
        calls,
        message,
    );
}

/// A response goes where its request came from, byte for byte and under the request's tag,
/// and only once: after it was sent, another attempt to respond is refused.
pub proof fn law_request_is_answered_once(
    t: Transport,
    handle: AppCookie,
    events: Seq<EventView>,
    message: Incoming<Seq<u8>>,
    cookie: AppCookie,
    response: Seq<u8>,
)
    requires
        completes(t, t.first_receive_request().state, events),
        events[0] == EventView::Opened(handle),
        received(events) == Some(message),
        message.cookie == Some(cookie),
    ensures
        ({
            let t2 = after(t, t.first_receive_request().state, events).0;
            let first = t2.first_send_response(response);
            let (t3, second) = t2.next(first.state, Event::Sent);
            &&& first.action == ActionView::Send {
                out: response_message(message.source, message.tag, cookie),
                payload: response,
            }
            &&& second == done(Ok(()))
            &&& t3 == (Transport { req_handle: None, req: None, ..t })
            &&& t3.first_send_response(response) == done(Err(TransportError::ResponseNotExpected))
        }),
{
    law_receive_request(t, handle, events);
}

/// An operation that is no receive of a request brings no request to respond to.
proof fn lemma_no_request_comes(t: Transport, s: StateView, events: Seq<EventView>)
    requires
        t.req is None,
        !serving(s),
        follows(t, s, events),
    ensures
        after(t, s, events).0.req is None,
    decreases events.len(),
{
    if events.len() > 0 {
        let (t1, step) = t.next(s, events[0]);
        lemma_no_request_comes(t1, step.state, events.drop_first());
    }
}

/// Only a receive of a request makes a response possible again: whatever sends, receives of
/// a response and attempts to respond come in between, a transport that has no request to
/// respond to still has none, and refuses to respond.
pub proof fn law_only_a_request_allows_a_response(
    t: Transport,
    calls: Seq<(Call, Seq<EventView>)>,
    message: Seq<u8>,
)
    requires
        t.req is None,
        calls_follow(t, calls),
        forall|i: int| 0 <= i < calls.len() ==> !((#[trigger] calls[i]).0 is ReceiveRequest),
    ensures
        after_calls(t, calls).req is None,
        after_calls(t, calls).first_send_response(message) == done(
            Err(TransportError::ResponseNotExpected),
        ),
    decreases calls.len(),
{
    if calls.len() > 0 {
        let (call, events) = calls[0];
        assert(!(calls[0].0 is ReceiveRequest));
        lemma_no_request_comes(t, starts(t, call), events);
        assert forall|i: int| 0 <= i < calls.drop_first().len() implies !((
        #[trigger] calls.drop_first()[i]).0 is ReceiveRequest) by {
            assert(calls.drop_first()[i] == calls[i + 1]);
        }
        law_only_a_request_allows_a_response(
            after(t, starts(t, call), events).0,
            calls.drop_first(),
            message,
        );
    }
}

/// Everything that is sent or listened for is a plain SPDM message: its MCTP message type
/// is 5, and it has no integrity check.
pub proof fn law_all_messages_are_spdm(
    t: Transport,
    s: StateView,
    event: EventView,
    message: Seq<u8>,
)
    requires
        answers(s, event),
    ensures
        t.next(s, event).1.action matches Action::Send { out, payload } ==> out.typ == 5 && !out.ic,
        t.first_send_response(message).action matches Action::Send { out, payload } ==> out.typ == 5
            && !out.ic,
        t.first_receive_request().action == (ActionView::OpenListener { typ: 5 }),
{
}

/// A new transport expects nothing: it refuses to receive a response and to send one.
pub proof fn law_new_transport_expects_nothing(own_i2c_addr: u8, message: Seq<u8>)
    ensures
        ({
            let t = Transport { own_i2c_addr, req_handle: None, req: None };
            &&& t.first_receive_response() == done(Err(TransportError::ResponseNotExpected))
            &&& t.first_send_response(message) == done(Err(TransportError::ResponseNotExpected))
        }),
{
}

/// A request goes to the endpoint that the caller named: it is opened to that endpoint, the
/// caller's bytes go out under the handle that the router opened, with the destination and
/// the tag left to the router, and then that handle is outstanding and nothing else of the
/// transport has changed. Requests to different endpoints are opened differently.
pub proof fn law_request_goes_to_its_endpoint(
    t: Transport,
    dest_eid: u8,
    message: Seq<u8>,
    handle: AppCookie,
    other_eid: u8,
)
    ensures
        ({
            let opening = t.first_send_request(dest_eid, message);
            let (t1, sending) = t.next(opening.state, Event::Opened(handle));
            let (t2, last) = t1.next(sending.state, Event::Sent);
            &&& opening.action == (ActionView::OpenRequest { dest_eid })
            &&& (opening.action == t.first_send_request(other_eid, message).action <==> dest_eid
                == other_eid)
            &&& opening.state == (StateView::OpeningRequest { message })
            &&& answers(opening.state, Event::Opened(handle))
            &&& t1 == t
            &&& sending.state == (StateView::SendingRequest { handle })
            &&& sending.action == (ActionView::Send {
                out: Outgoing { eid: None, typ: 5, tag: None, ic: false, handle },
                payload: message,
            })
            &&& answers(sending.state, Event::Sent)
            &&& last.state == StateView::Finished
            &&& last.action == ActionView::Done(Ok(()))
            &&& t2.own_i2c_addr == t.own_i2c_addr
            &&& t2.req_handle == Some(handle)
            &&& t2.req == t.req
        }),
{
}

/// A response goes to the endpoint that the request came from, under the request's tag and
/// handle, whatever they are, and then there is nothing left to respond to. Without a handle
/// or without a request it is refused.
pub proof fn law_response_goes_to_its_request(t: Transport, message: Seq<u8>)
    ensures
        ({
            let sending = t.first_send_response(message);
            let (t1, last) = t.next(sending.state, Event::Sent);
            match (t.req_handle, t.req) {
                (Some(handle), Some((eid, tag))) => {
                    &&& sending.state == StateView::SendingResponse
                    &&& sending.action == (ActionView::Send {
                        out: Outgoing { eid: Some(eid), typ: 5, tag: Some(tag), ic: false, handle },
                        payload: message,
                    })
                    &&& answers(sending.state, Event::Sent)
                    &&& last.state == StateView::Finished
                    &&& last.action == ActionView::Done(Ok(()))
                    &&& t1.own_i2c_addr == t.own_i2c_addr
                    &&& t1.req_handle is None
                    &&& t1.req is None
                },
                _ => {
                    &&& sending.state == StateView::Finished
                    &&& sending.action == ActionView::Done(Err(TransportError::ResponseNotExpected))
                },
            }
        }),
{
}

/// Whatever request was received, its response is sent to its source, under its tag and its
/// cookie. A request that came without a cookie cannot be responded to.
pub proof fn law_response_answers_what_was_received(
    t: Transport,
    handle: AppCookie,
    events: Seq<EventView>,
    message: Incoming<Seq<u8>>,
    response: Seq<u8>,
)
    requires
        completes(t, t.first_receive_request().state, events),
        events[0] == EventView::Opened(handle),
        received(events) == Some(message),
    ensures
        ({
            let t2 = after(t, t.first_receive_request().state, events).0;
            match message.cookie {
                Some(cookie) => {
                    &&& t2.first_send_response(response).action matches Action::Send { out, payload }
                    &&& out.eid == Some(message.source)
                    &&& out.tag == Some(message.tag)
                    &&& out.handle == cookie
                    &&& out.typ == 5
                    &&& !out.ic
                    &&& payload == response
                },
                None => t2.first_send_response(response).action == ActionView::Done(
                    Err(TransportError::ResponseNotExpected),
                ),
            }
        }),
{
    law_receive_request(t, handle, events);
}

/// How a receive starts. A request is listened for as SPDM, message type 5, and looked for
/// under the listener's handle; a response is looked for under the handle of its request, and
/// refused if there is none.
pub proof fn law_receive_starts_with_its_handle(t: Transport, listener: AppCookie)
    ensures
        ({
            let opening = t.first_receive_request();
            let (t1, polling) = t.next(opening.state, Event::Opened(listener));
            &&& opening.state == StateView::OpeningListener
            &&& opening.action == (ActionView::OpenListener { typ: 5 })
            &&& answers(opening.state, Event::Opened(listener))
            &&& t1 == t
            &&& polling.state == (StateView::Polling { awaited: Awaited::Request, handle: listener })
            &&& polling.action == (ActionView::Recv { handle: listener })
        }),
        match t.req_handle {
            Some(handle) => {
                &&& t.first_receive_response().state == (StateView::Polling {
                    awaited: Awaited::Response,
                    handle,
                })
                &&& t.first_receive_response().action == (ActionView::Recv { handle })
            },
            None => {
                &&& t.first_receive_response().state == StateView::Finished
                &&& t.first_receive_response().action == ActionView::Done(
                    Err(TransportError::ResponseNotExpected),
                )
            },
        },
{
}

/// A message that the router hands out replaces what the caller's buffer holds. Of a request
/// the transport remembers the source, the tag and the cookie, of a response nothing.
pub proof fn law_message_is_taken_whole(
    t: Transport,
    awaited: Awaited,
    handle: AppCookie,
    message: Incoming<Seq<u8>>,
    s: StateView,
)
    requires
        s == (StateView::Polling { awaited, handle }) || s == (StateView::Collecting {
            awaited,
            handle,
        }),
    ensures
        ({
            let (t1, step) = t.next(s, Event::Received(Some(message)));
            &&& answers(s, Event::Received(Some(message)))
            &&& step.state == (StateView::Storing { awaited, handle })
            &&& step.action == (ActionView::Store { reset: true, payload: message.payload })
            &&& t1.own_i2c_addr == t.own_i2c_addr
            &&& match awaited {
                Awaited::Request => t1.req_handle == message.cookie && t1.req == Some(
                    (message.source, message.tag),
                ),
                Awaited::Response => t1.req_handle == t.req_handle && t1.req == t.req,
            }
        }),
{
}

/// If the router has no message ready, the bus is listened to; if the message that it
/// reported is gone, the receive ends as if the message had been stored.
pub proof fn law_without_a_message(t: Transport, awaited: Awaited, handle: AppCookie)
    ensures
        ({
            let s = StateView::Polling { awaited, handle };
            let (t1, step) = t.next(s, Event::Received(None));
            &&& answers(s, Event::Received(None))
            &&& t1 == t
            &&& step.state == (StateView::Listening { awaited, handle })
            &&& step.action == ActionView::Listen
        }),
        ({
            let s = StateView::Collecting { awaited, handle };
            let (t1, step) = t.next(s, Event::Received(None));
            &&& answers(s, Event::Received(None))
            &&& t1 == t
            &&& step == t.next(StateView::Storing { awaited, handle }, Event::Stored(true)).1
        }),
{
}

/// Once its message is stored, a receive gives its handle back and succeeds; a request that
/// got its response is then no longer outstanding.
pub proof fn law_stored_message_ends_the_receive(t: Transport, awaited: Awaited, handle: AppCookie)
    ensures
        ({
            let s = StateView::Storing { awaited, handle };
            let (t1, closing) = t.next(s, Event::Stored(true));
            let (t2, last) = t1.next(closing.state, Event::Unbound);
            &&& answers(s, Event::Stored(true))
            &&& t1 == t
            &&& closing.state == (StateView::Closing { awaited, handle })
            &&& closing.action == (ActionView::Unbind { handle })
            &&& answers(closing.state, Event::Unbound)
            &&& last.state == StateView::Finished
            &&& last.action == ActionView::Done(Ok(()))
            &&& t2.own_i2c_addr == t.own_i2c_addr
            &&& t2.req == t.req
            &&& match awaited {
                Awaited::Request => t2.req_handle == t.req_handle,
                Awaited::Response => t2.req_handle is None,
            }
        }),
{
}

/// A frame on the bus is received whole, into 255 bytes, decoded as the transport's own
/// device with its error code checked, and what was inside is handed to the router. If that
/// completed a message under the receive's own handle, the message is fetched; if it
/// completed none, or one under another handle, the bus is listened to again.
pub proof fn law_frame_reaches_the_router(
    t: Transport,
    awaited: Awaited,
    handle: AppCookie,
    buf: Seq<u8>,
    len: usize,
    inner: Seq<u8>,
    complete: Option<AppCookie>,
)
    requires
        len <= buf.len(),
    ensures
        ({
            let s = StateView::Listening { awaited, handle };
            let (t1, responding) = t.next(s, Event::Listened(Some(CommandKind::Write)));
            let (t2, decoding) = t1.next(responding.state, Event::Responded { buf, len: Some(len) });
            let (t3, routing) = t2.next(decoding.state, Event::Decoded(Some(inner)));
            let (t4, last) = t3.next(routing.state, Event::Routed(Some(complete)));
            &&& answers(s, Event::Listened(Some(CommandKind::Write)))
            &&& responding.state == (StateView::Responding { awaited, handle })
            &&& responding.action == (ActionView::RespondToWrite { len: 255 })
            &&& answers(responding.state, Event::Responded { buf, len: Some(len) })
            &&& decoding.state == (StateView::Decoding { awaited, handle })
            &&& decoding.action == (ActionView::Decode {
                own_addr: t.own_i2c_addr,
                packet: buf.take(len as int),
                pec: true,
            })
            &&& answers(decoding.state, Event::Decoded(Some(inner)))
            &&& routing.state == (StateView::Routing { awaited, handle })
            &&& routing.action == (ActionView::Route { packet: inner })
            &&& answers(routing.state, Event::Routed(Some(complete)))
            &&& t1 == t && t2 == t && t3 == t && t4 == t
            &&& if complete == Some(handle) {
                &&& last.state == (StateView::Collecting { awaited, handle })
                &&& last.action == (ActionView::Recv { handle })
            } else {
                &&& last.state == s
                &&& last.action == ActionView::Listen
            }
        }),
{
}

/// A receive that fails changes nothing of the transport. A listener is closed before the
/// error is returned; a request stays open. `BufferTooSmall` is returned if the payload finds
/// no room, and `ReceiveError` if the bus fails, a bus master wants to read, a frame is not
/// valid or the router refuses a packet.
pub proof fn law_failed_receive(
    t: Transport,
    awaited: Awaited,
    handle: AppCookie,
    s: StateView,
    event: EventView,
)
    requires
        ({
            ||| s == (StateView::Storing { awaited, handle }) && event == EventView::Stored(false)
            ||| s == (StateView::Listening { awaited, handle }) && (event == EventView::Listened(
                None,
            ) || event == EventView::Listened(Some(CommandKind::Read)))
            ||| s == (StateView::Responding { awaited, handle }) && (event
                matches Event::Responded { buf, len } && len is None)
            ||| s == (StateView::Decoding { awaited, handle }) && event == EventView::Decoded(None)
            ||| s == (StateView::Routing { awaited, handle }) && event == EventView::Routed(None)
        }),
    ensures
        ({
            let error = if event is Stored {
                TransportError::BufferTooSmall
            } else {
                TransportError::ReceiveError
            };
            let (t1, step) = t.next(s, event);
            &&& answers(s, event)
            &&& t1 == t
            &&& match awaited {
                Awaited::Response => {
                    &&& step.state == StateView::Finished
                    &&& step.action == ActionView::Done(Err(error))
                },
                Awaited::Request => {
                    let (t2, last) = t1.next(step.state, Event::Unbound);
                    &&& step.state == (StateView::Aborting { handle, error })
                    &&& step.action == (ActionView::Unbind { handle })
                    &&& answers(step.state, Event::Unbound)
                    &&& t2 == t
                    &&& last.state == StateView::Finished
                    &&& last.action == ActionView::Done(Err(error))
                },
            }
        }),
{
}

/// Whatever is awaited, there is room for the largest frame that a sender puts on the bus:
/// what a bus master writes is received into 255 bytes.
pub proof fn law_every_frame_has_room(t: Transport, s: StateView, event: EventView)
    requires
        answers(s, event),
    ensures
        t.next(s, event).1.action matches Action::RespondToWrite { len } ==> len == 255,
        t.next(s, event).1.state is Responding <==> t.next(s, event).1.action is RespondToWrite,
{
}

/// An operation that is done takes no more events, and every other one takes an event of one
/// kind, that of its action.
pub proof fn law_each_action_has_its_outcome(s: StateView, event: EventView)
    ensures
        answers(s, event) <==> match s {
            State::OpeningRequest { message } => event is Opened,
            State::OpeningListener => event is Opened,
            State::SendingRequest { handle } => event is Sent,
            State::SendingResponse => event is Sent,
            State::Polling { awaited, handle } => event is Received,
            State::Collecting { awaited, handle } => event is Received,
            State::Storing { awaited, handle } => event is Stored,
            State::Listening { awaited, handle } => event is Listened,
            State::Responding { awaited, handle } => event matches Event::Responded { buf, len } && (
            len matches Some(n) ==> n <= buf.len()),
            State::Decoding { awaited, handle } => event is Decoded,
            State::Routing { awaited, handle } => event is Routed,
            State::Closing { awaited, handle } => event is Unbound,
            State::Aborting { handle, error } => event is Unbound,
            State::Finished => false,
        },
{
}

/// A model of an action has the action's kind, its values and its bytes.
pub proof fn law_action_is_modelled_faithfully(action: Action<&[u8]>)
    ensures
        match action {
            Action::OpenRequest { dest_eid } => action@ == (ActionView::OpenRequest { dest_eid }),
            Action::OpenListener { typ } => action@ == (ActionView::OpenListener { typ }),
            Action::Send { out, payload } => action@ == (ActionView::Send {
                out,
                payload: payload@,
            }),
            Action::Recv { handle } => action@ == (ActionView::Recv { handle }),
            Action::Store { reset, payload } => action@ == (ActionView::Store {
                reset,
                payload: payload@,
            }),
            Action::Listen => action@ == ActionView::Listen,
            Action::RespondToWrite { len } => action@ == (ActionView::RespondToWrite { len }),
            Action::Decode { own_addr, packet, pec } => action@ == (ActionView::Decode {
                own_addr,
                packet: packet@,
                pec,
            }),
            Action::Route { packet } => action@ == (ActionView::Route { packet: packet@ }),
            Action::Unbind { handle } => action@ == (ActionView::Unbind { handle }),
            Action::Done(result) => action@ == ActionView::Done(result),
        },
{
}

/// A model of an event has the event's kind, its values and its bytes.
pub proof fn law_event_is_modelled_faithfully(event: Event<&[u8]>)
    ensures
        match event {
            Event::Opened(handle) => event@ == EventView::Opened(handle),
            Event::Sent => event@ == EventView::Sent,
            Event::Received(Some(m)) => event@ == EventView::Received(
                Some(
                    Incoming {
                        source: m.source,
                        tag: m.tag,
                        cookie: m.cookie,
                        payload: m.payload@,
                    },
                ),
            ),
            Event::Received(None) => event@ == EventView::Received(None),
            Event::Stored(stored) => event@ == EventView::Stored(stored),
            Event::Listened(kind) => event@ == EventView::Listened(kind),
            Event::Responded { buf, len } => event@ == (EventView::Responded { buf: buf@, len }),
            Event::Decoded(Some(packet)) => event@ == EventView::Decoded(Some(packet@)),
            Event::Decoded(None) => event@ == EventView::Decoded(None),
            Event::Routed(complete) => event@ == EventView::Routed(complete),
            Event::Unbound => event@ == EventView::Unbound,
        },
{
}

/// A model of a step has the step's state, with the bytes of a message that is still to be
/// sent, and its action.
pub proof fn law_step_is_modelled_faithfully(step: Step<&[u8], &[u8]>)
    ensures
        step@.action == step.action@,
        match step.state {
            State::OpeningRequest { message } => step@.state == (StateView::OpeningRequest {
                message: message@,
            }),
            State::SendingRequest { handle } => step@.state == (StateView::SendingRequest {
                handle,
            }),
            State::SendingResponse => step@.state == StateView::SendingResponse,
            State::OpeningListener => step@.state == StateView::OpeningListener,
            State::Polling { awaited, handle } => step@.state == (StateView::Polling {
                awaited,
                handle,
            }),
            State::Listening { awaited, handle } => step@.state == (StateView::Listening {
                awaited,
                handle,
            }),
            State::Responding { awaited, handle } => step@.state == (StateView::Responding {
                awaited,
                handle,
            }),
            State::Decoding { awaited, handle } => step@.state == (StateView::Decoding {
                awaited,
                handle,
            }),
            State::Routing { awaited, handle } => step@.state == (StateView::Routing {
                awaited,
                handle,
            }),
            State::Collecting { awaited, handle } => step@.state == (StateView::Collecting {
                awaited,
                handle,
            }),
            State::Storing { awaited, handle } => step@.state == (StateView::Storing {
                awaited,
                handle,
            }),
            State::Closing { awaited, handle } => step@.state == (StateView::Closing {
                awaited,
                handle,
            }),
            State::Aborting { handle, error } => step@.state == (StateView::Aborting {
                handle,
                error,
            }),
            State::Finished => step@.state == StateView::Finished,
        },
        step@.state == step.state@,
{
}

} // verus!
