//! The SPDM transport on top of an MCTP router and an I2C bus.
//!
//! An operation is started by [`Transport::send_request`],
//! [`Transport::receive_response`], [`Transport::receive_request`] or
//! [`Transport::send_response`]. Each names a first [`Action`]. The outcome of an
//! action is an [`Event`], which [`Transport::resume`] turns into the next action,
//! until the action is [`Action::Done`].
use crate::outside::spdm_message_type;
use mctp::{Eid, Tag};
use vstd::prelude::*;

verus! {

/// The largest I2C frame, and the size of the buffer that a frame is received into.
pub const MTU: usize = 255;

/// How many listeners the router can hold.
pub const LISTEN_HANDLES: usize = 8;

/// How many outstanding requests the router can hold.
pub const REQ_HANDLES: usize = 8;

/// How the router tells apart the listeners and requests that are open on it.
#[derive(Clone, Copy, Debug, PartialEq, Eq, Structural)]
pub struct AppCookie(pub usize);

/// Why a transport operation failed.
#[derive(Clone, Copy, Debug, PartialEq, Eq, Structural)]
pub enum TransportError {
    /// There is no outstanding request that a response could belong to.
    ResponseNotExpected,
    /// The message does not fit into the caller's buffer.
    BufferTooSmall,
    /// The bus or the MCTP stack failed while a message was awaited.
    ReceiveError,
}

/// What a bus master that addressed this device wants to do.
#[derive(Clone, Copy, Debug, PartialEq, Eq, Structural)]
pub enum CommandKind {
    Write,
    Read,
}

/// How the router is to send a message.
#[derive(Clone, Copy, Debug, PartialEq, Eq)]
pub struct Outgoing {
    /// The destination, where it does not follow from the handle.
    pub eid: Option<Eid>,
    /// The MCTP message type.
    pub typ: u8,
    /// The tag to answer with; a request gets a fresh one from the router.
    pub tag: Option<Tag>,
    /// Whether the message carries an integrity check.
    pub ic: bool,
    pub handle: AppCookie,
}

/// A message that the router had ready. `P` is how bytes are held.
#[derive(Debug, PartialEq, Eq)]
pub struct Incoming<P> {
    pub source: Eid,
    pub tag: Tag,
    pub cookie: Option<AppCookie>,
    pub payload: P,
}

/// What a receive operation is waiting for.
#[derive(Clone, Copy, Debug, PartialEq, Eq, Structural)]
pub enum Awaited {
    /// The response to the outstanding request.
    Response,
    /// A request from any peer.
    Request,
}

/// What the firmware is to do next. `P` is how bytes are held.
#[derive(Debug, PartialEq, Eq)]
pub enum Action<P> {
    /// Open a request to an endpoint on the router.
    OpenRequest { dest_eid: u8 },
    /// Open a listener for a message type on the router.
    OpenListener { typ: u8 },
    /// Let the router send a message.
    Send { out: Outgoing, payload: P },
    /// Ask the router for a complete message.
    Recv { handle: AppCookie },
    /// Put a payload into the caller's message buffer: empty the buffer if `reset`, reserve
    /// as many bytes as the payload has behind what the buffer holds, and copy the payload
    /// there with [`store_payload`].
    Store { reset: bool, payload: P },
    /// Wait until a bus master addresses this device.
    Listen,
    /// Receive what the bus master writes, into a zeroed buffer of `len` bytes.
    RespondToWrite { len: usize },
    /// Strip the I2C framing off a packet, as the device with address `own_addr`.
    Decode { own_addr: u8, packet: P, pec: bool },
    /// Hand an MCTP packet to the router.
    Route { packet: P },
    /// Close a request or a listener on the router.
    Unbind { handle: AppCookie },
    /// Return from the operation.
    Done(Result<(), TransportError>),
}

/// What came of an [`Action`]. `P` is how bytes are held.
#[derive(Debug, PartialEq, Eq)]
pub enum Event<P> {
    /// The router opened a request or a listener.
    Opened(AppCookie),
    /// The router sent the message.
    Sent,
    /// What the router had ready.
    Received(Option<Incoming<P>>),
    /// Whether the payload found room in the caller's message buffer.
    Stored(bool),
    /// How this device was addressed, or `None` if the bus failed.
    Listened(Option<CommandKind>),
    /// How many bytes of `buf` were received, or `None` if the bus failed.
    Responded { buf: P, len: Option<usize> },
    /// The MCTP packet inside the I2C frame, or `None` if the frame is not valid.
    Decoded(Option<P>),
    /// Which handle a message became complete for, or `None` if the router failed.
    Routed(Option<Option<AppCookie>>),
    /// The router closed the handle.
    Unbound,
}

/// Which action an operation is waiting for. `M` is how the caller's message is held.
#[derive(Debug, PartialEq, Eq)]
pub enum State<M> {
    /// Opening a request, with the message to send once it is open.
    OpeningRequest { message: M },
    SendingRequest { handle: AppCookie },
    SendingResponse,
    OpeningListener,
    /// Looking for a message that was complete before the operation started.
    Polling { awaited: Awaited, handle: AppCookie },
    Listening { awaited: Awaited, handle: AppCookie },
    Responding { awaited: Awaited, handle: AppCookie },
    Decoding { awaited: Awaited, handle: AppCookie },
    Routing { awaited: Awaited, handle: AppCookie },
    /// Fetching the message that has just become complete.
    Collecting { awaited: Awaited, handle: AppCookie },
    Storing { awaited: Awaited, handle: AppCookie },
    Closing { awaited: Awaited, handle: AppCookie },
    /// Closing the listener of a receive that failed.
    Aborting { handle: AppCookie, error: TransportError },
    Finished,
}

/// An operation between two events.
#[derive(Debug, PartialEq, Eq)]
pub struct Step<M, P> {
    pub state: State<M>,
    pub action: Action<P>,
}

impl<'a> View for Action<&'a [u8]> {
    type V = Action<Seq<u8>>;

    open spec fn view(&self) -> Action<Seq<u8>> {
        match *self {
            Action::OpenRequest { dest_eid } => Action::OpenRequest { dest_eid },
            Action::OpenListener { typ } => Action::OpenListener { typ },
            Action::Send { out, payload } => Action::Send { out, payload: payload@ },
            Action::Recv { handle } => Action::Recv { handle },
            Action::Store { reset, payload } => Action::Store { reset, payload: payload@ },
            Action::Listen => Action::Listen,
            Action::RespondToWrite { len } => Action::RespondToWrite { len },
            Action::Decode { own_addr, packet, pec } => Action::Decode {
                own_addr,
                packet: packet@,
                pec,
            },
            Action::Route { packet } => Action::Route { packet: packet@ },
            Action::Unbind { handle } => Action::Unbind { handle },
            Action::Done(result) => Action::Done(result),
        }
    }
}

impl<'a> View for Incoming<&'a [u8]> {
    type V = Incoming<Seq<u8>>;

    open spec fn view(&self) -> Incoming<Seq<u8>> {
        Incoming {
            source: self.source,
            tag: self.tag,
            cookie: self.cookie,
            payload: self.payload@,
        }
    }
}

impl<'a> View for Event<&'a [u8]> {
    type V = Event<Seq<u8>>;

    open spec fn view(&self) -> Event<Seq<u8>> {
        match *self {
            Event::Opened(handle) => Event::Opened(handle),
            Event::Sent => Event::Sent,
            Event::Received(Some(message)) => Event::Received(Some(message@)),
            Event::Received(None) => Event::Received(None),
            Event::Stored(stored) => Event::Stored(stored),
            Event::Listened(kind) => Event::Listened(kind),
            Event::Responded { buf, len } => Event::Responded { buf: buf@, len },
            Event::Decoded(Some(packet)) => Event::Decoded(Some(packet@)),
            Event::Decoded(None) => Event::Decoded(None),
            Event::Routed(handle) => Event::Routed(handle),
            Event::Unbound => Event::Unbound,
        }
    }
}

impl<'m> View for State<&'m [u8]> {
    type V = State<Seq<u8>>;

    open spec fn view(&self) -> State<Seq<u8>> {
        match *self {
            State::OpeningRequest { message } => State::OpeningRequest { message: message@ },
            State::SendingRequest { handle } => State::SendingRequest { handle },
            State::SendingResponse => State::SendingResponse,
            State::OpeningListener => State::OpeningListener,
            State::Polling { awaited, handle } => State::Polling { awaited, handle },
            State::Listening { awaited, handle } => State::Listening { awaited, handle },
            State::Responding { awaited, handle } => State::Responding { awaited, handle },
            State::Decoding { awaited, handle } => State::Decoding { awaited, handle },
            State::Routing { awaited, handle } => State::Routing { awaited, handle },
            State::Collecting { awaited, handle } => State::Collecting { awaited, handle },
            State::Storing { awaited, handle } => State::Storing { awaited, handle },
            State::Closing { awaited, handle } => State::Closing { awaited, handle },
            State::Aborting { handle, error } => State::Aborting { handle, error },
            State::Finished => State::Finished,
        }
    }
}

impl<'m, 'a> View for Step<&'m [u8], &'a [u8]> {
    type V = Step<Seq<u8>, Seq<u8>>;

    open spec fn view(&self) -> Step<Seq<u8>, Seq<u8>> {
        Step { state: self.state@, action: self.action@ }
    }
}

/// The mathematical view of a [`Step`].
pub type StepView = Step<Seq<u8>, Seq<u8>>;

/// The mathematical view of a [`State`].
pub type StateView = State<Seq<u8>>;

/// The mathematical view of an [`Action`].
pub type ActionView = Action<Seq<u8>>;

/// The mathematical view of an [`Event`].
pub type EventView = Event<Seq<u8>>;

/// How a request is sent.
pub open spec fn request_message(handle: AppCookie) -> Outgoing {
    Outgoing { eid: None, typ: 5, tag: None, ic: false, handle }
}

/// How the response to a request from `eid` under `tag` is sent.
pub open spec fn response_message(eid: Eid, tag: Tag, handle: AppCookie) -> Outgoing {
    Outgoing { eid: Some(eid), typ: 5, tag: Some(tag), ic: false, handle }
}

/// An operation that returns `result` to its caller.
pub open spec fn done(result: Result<(), TransportError>) -> StepView {
    Step { state: State::Finished, action: Action::Done(result) }
}

/// A receive operation that waits for the next packet on the bus.
pub open spec fn listen(awaited: Awaited, handle: AppCookie) -> StepView {
    Step { state: State::Listening { awaited, handle }, action: Action::Listen }
}

/// A receive operation that makes `payload` the caller's message.
pub open spec fn store(awaited: Awaited, handle: AppCookie, payload: Seq<u8>) -> StepView {
    Step {
        state: State::Storing { awaited, handle },
        action: Action::Store { reset: true, payload },
    }
}

/// A receive operation that gives its handle back to the router.
pub open spec fn close(awaited: Awaited, handle: AppCookie) -> StepView {
    Step { state: State::Closing { awaited, handle }, action: Action::Unbind { handle } }
}

/// A receive operation that fails. A listener was opened for the operation alone and is
/// closed first; a request stays open, so that its response can still be received.
pub open spec fn abandon(awaited: Awaited, handle: AppCookie, error: TransportError) -> StepView {
    match awaited {
        Awaited::Request => Step {
            state: State::Aborting { handle, error },
            action: Action::Unbind { handle },
        },
        Awaited::Response => done(Err(error)),
    }
}

/// Whether `event` is an outcome of the action that `state` waits for.
pub open spec fn answers(state: StateView, event: EventView) -> bool {
    match state {
        State::OpeningRequest { .. } | State::OpeningListener => event is Opened,
        State::SendingRequest { .. } | State::SendingResponse => event is Sent,
        State::Polling { .. } | State::Collecting { .. } => event is Received,
        State::Listening { .. } => event is Listened,
        State::Responding { .. } => match event {
            Event::Responded { buf, len: Some(len) } => len <= buf.len(),
            Event::Responded { buf, len: None } => true,
            _ => false,
        },
        State::Decoding { .. } => event is Decoded,
        State::Routing { .. } => event is Routed,
        State::Storing { .. } => event is Stored,
        State::Closing { .. } | State::Aborting { .. } => event is Unbound,
        State::Finished => false,
    }
}

/// The SPDM transport: which request is outstanding, and whom a response goes to.
#[derive(Clone, Copy, Debug, PartialEq, Eq)]
pub struct Transport {
    pub own_i2c_addr: u8,
    /// The handle of the request that was sent and awaits its response, or, after a receive
    /// of a request, the cookie of that request, under which its response is sent.
    pub req_handle: Option<AppCookie>,
    /// Where the request that was received last came from.
    pub req: Option<(Eid, Tag)>,
}

impl Transport {
    /// The first step of [`Transport::receive_response`].
    pub open spec fn first_receive_response(self) -> StepView {
        match self.req_handle {
            Some(handle) => Step {
                state: State::Polling { awaited: Awaited::Response, handle },
                action: Action::Recv { handle },
            },
            None => done(Err(TransportError::ResponseNotExpected)),
        }
    }

    /// The first step of [`Transport::receive_request`].
    pub open spec fn first_receive_request(self) -> StepView {
        Step { state: State::OpeningListener, action: Action::OpenListener { typ: 5 } }
    }

    /// The first step of [`Transport::send_request`].
    pub open spec fn first_send_request(self, dest_eid: u8, message: Seq<u8>) -> StepView {
        Step { state: State::OpeningRequest { message }, action: Action::OpenRequest { dest_eid } }
    }

    /// The first step of [`Transport::send_response`].
    pub open spec fn first_send_response(self, message: Seq<u8>) -> StepView {
        match (self.req_handle, self.req) {
            (Some(handle), Some((eid, tag))) => Step {
                state: State::SendingResponse,
                action: Action::Send {
                    out: response_message(eid, tag, handle),
                    payload: message,
                },
            },
            _ => done(Err(TransportError::ResponseNotExpected)),
        }
    }

    /// The transport once the router handed out `message`: a request is remembered,
    /// so that it can be responded to.
    pub open spec fn noting(self, awaited: Awaited, message: Incoming<Seq<u8>>) -> Transport {
        match awaited {
            Awaited::Request => Transport {
                req_handle: message.cookie,
                req: Some((message.source, message.tag)),
                ..self
            },
            Awaited::Response => self,
        }
    }

    /// The transport once the awaited message is in the caller's buffer: a request
    /// that got its response is no longer outstanding.
    pub open spec fn settled(self, awaited: Awaited) -> Transport {
        match awaited {
            Awaited::Response => Transport { req_handle: None, ..self },
            Awaited::Request => self,
        }
    }

    /// The transport and the operation after `event`. A failure of the bus or of the MCTP
    /// stack, and a bus master that wants to read, end the operation with `ReceiveError`.
    /// There is nothing to say of an event that does not answer the state.
    pub open spec fn next(self, state: StateView, event: EventView) -> (Transport, StepView) {
        match (state, event) {
            (State::OpeningRequest { message }, Event::Opened(handle)) => (
                self,
                Step {
                    state: State::SendingRequest { handle },
                    action: Action::Send { out: request_message(handle), payload: message },
                },
            ),
            (State::SendingRequest { handle }, Event::Sent) => (
                Transport { req_handle: Some(handle), ..self },
                done(Ok(())),
            ),
            (State::SendingResponse, Event::Sent) => (
                Transport { req_handle: None, req: None, ..self },
                done(Ok(())),
            ),
            (State::OpeningListener, Event::Opened(handle)) => (
                self,
                Step {
                    state: State::Polling { awaited: Awaited::Request, handle },
                    action: Action::Recv { handle },
                },
            ),
            (
                State::Polling { awaited, handle } | State::Collecting { awaited, handle },
                Event::Received(Some(message)),
            ) => (self.noting(awaited, message), store(awaited, handle, message.payload)),
            (State::Polling { awaited, handle }, Event::Received(None)) => (
                self,
                listen(awaited, handle),
            ),
            (State::Collecting { awaited, handle }, Event::Received(None)) => (
                self,
                close(awaited, handle),
            ),
            (State::Storing { awaited, handle }, Event::Stored(stored)) => (
                self,
                if stored {
                    close(awaited, handle)
                } else {
                    abandon(awaited, handle, TransportError::BufferTooSmall)
                },
            ),
            (State::Listening { awaited, handle }, Event::Listened(kind)) => (
                self,
                if kind == Some(CommandKind::Write) {
                    Step {
                        state: State::Responding { awaited, handle },
                        action: Action::RespondToWrite { len: MTU },
                    }
                } else {
                    abandon(awaited, handle, TransportError::ReceiveError)
                },
            ),
            (State::Responding { awaited, handle }, Event::Responded { buf, len }) => (
                self,
                match len {
                    Some(len) => Step {
                        state: State::Decoding { awaited, handle },
                        action: Action::Decode {
                            own_addr: self.own_i2c_addr,
                            packet: buf.take(len as int),
                            pec: true,
                        },
                    },
                    None => abandon(awaited, handle, TransportError::ReceiveError),
                },
            ),
            (State::Decoding { awaited, handle }, Event::Decoded(packet)) => (
                self,
                match packet {
                    Some(packet) => Step {
                        state: State::Routing { awaited, handle },
                        action: Action::Route { packet },
                    },
                    None => abandon(awaited, handle, TransportError::ReceiveError),
                },
            ),
            (State::Routing { awaited, handle }, Event::Routed(routed)) => (
                self,
                match routed {
                    Some(complete) => if complete == Some(handle) {
                        Step {
                            state: State::Collecting { awaited, handle },
                            action: Action::Recv { handle },
                        }
                    } else {
                        listen(awaited, handle)
                    },
                    None => abandon(awaited, handle, TransportError::ReceiveError),
                },
            ),
            (State::Closing { awaited, handle }, Event::Unbound) => (
                self.settled(awaited),
                done(Ok(())),
            ),
            (State::Aborting { handle, error }, Event::Unbound) => (self, done(Err(error))),
            _ => arbitrary(),
        }
    }

    /// A transport for the device with the given I2C address, with nothing outstanding.
    pub fn new(own_i2c_addr: u8) -> (transport: Transport)
        ensures
            transport == (Transport { own_i2c_addr, req_handle: None, req: None }),
    {
        Transport { own_i2c_addr, req_handle: None, req: None }
    }

    /// Nothing has to be set up before the first message.
    pub fn init_sequence(&mut self) -> (result: Result<(), TransportError>)
        ensures
            result == Ok::<(), TransportError>(()),
            *final(self) == *old(self),
    {
        Ok(())
    }

    /// The largest message is the largest payload that the MCTP stack takes.
    pub fn max_message_size(&self, max_payload: usize) -> (size: Result<usize, TransportError>)
        ensures
            size == Ok::<usize, TransportError>(max_payload),
    {
        Ok(max_payload)
    }

    /// The transport adds nothing of its own in front of a message.
    pub fn header_size(&self) -> (size: usize)
        ensures
            size == 0,
    {
        0
    }

    /// Starts to send `message` as a request to an endpoint.
    pub fn send_request<'m, 'a>(&self, dest_eid: u8, message: &'m [u8]) -> (step: Step<
        &'m [u8],
        &'a [u8],
    >)
        ensures
            step@ == self.first_send_request(dest_eid, message@),
            step.action matches Action::OpenRequest { dest_eid: eid } && eid == dest_eid,
    {
        Step { state: State::OpeningRequest { message }, action: Action::OpenRequest { dest_eid } }
    }

    /// Starts to receive the response to the outstanding request.
    pub fn receive_response<'m, 'a>(&self) -> (step: Step<&'m [u8], &'a [u8]>)
        ensures
            step@ == self.first_receive_response(),
            match self.req_handle {
                Some(open) => step.action matches Action::Recv { handle } && handle == open,
                None => step.action == Action::<&[u8]>::Done(
                    Err(TransportError::ResponseNotExpected),
                ),
            },
    {
        match self.req_handle {
            Some(handle) => Step {
                state: State::Polling { awaited: Awaited::Response, handle },
                action: Action::Recv { handle },
            },
            None => Self::finish(Err(TransportError::ResponseNotExpected)),
        }
    }

    /// Starts to receive a request from any peer.
    pub fn receive_request<'m, 'a>(&self) -> (step: Step<&'m [u8], &'a [u8]>)
        ensures
            step@ == self.first_receive_request(),
            step.action matches Action::OpenListener { typ } && typ == 5,
    {
        Step {
            state: State::OpeningListener,
            action: Action::OpenListener { typ: spdm_message_type() },
        }
    }

    /// Starts to send `message` as the response to the request that was received last.
    pub fn send_response<'m, 'a>(&self, message: &'a [u8]) -> (step: Step<&'m [u8], &'a [u8]>)
        ensures
            step@ == self.first_send_response(message@),
            match (self.req_handle, self.req) {
                (Some(handle), Some((eid, tag))) => {
                    &&& step.action matches Action::Send { out, payload }
                    &&& out.eid == Some(eid)
                    &&& out.typ == 5
                    &&& out.tag == Some(tag)
                    &&& !out.ic
                    &&& out.handle == handle
                    &&& payload@ == message@
                },
                _ => step.action == Action::<&[u8]>::Done(
                    Err(TransportError::ResponseNotExpected),
                ),
            },
    {
        match (self.req_handle, self.req) {
            (Some(handle), Some((eid, tag))) => Step {
                state: State::SendingResponse,
                action: Action::Send {
                    out: Outgoing {
                        eid: Some(eid),
                        typ: spdm_message_type(),
                        tag: Some(tag),
                        ic: false,
                        handle,
                    },
                    payload: message,
                },
            },
            _ => Self::finish(Err(TransportError::ResponseNotExpected)),
        }
    }

    /// Goes on with an operation, given what came of the action that it waits for.
    pub fn resume<'m: 'a, 'a>(
        &mut self,
        state: State<&'m [u8]>,
        event: Event<&'a [u8]>,
    ) -> (step: Step<&'m [u8], &'a [u8]>)
        requires
            answers(state@, event@),
        ensures
            (*final(self), step@) == old(self).next(state@, event@),
            final(self).own_i2c_addr == old(self).own_i2c_addr,
            step.action matches Action::RespondToWrite { len } ==> len == 255,
            state matches State::OpeningRequest { message } ==> {
                &&& step.action matches Action::Send { out, payload }
                &&& payload@ == message@
            },
            event matches Event::Received(Some(message)) ==> {
                &&& step.action matches Action::Store { reset, payload }
                &&& reset
                &&& payload@ == message.payload@
            },
            event matches Event::Responded { buf, len: Some(n) } ==> {
                &&& step.action matches Action::Decode { own_addr, packet, pec }
                &&& own_addr == old(self).own_i2c_addr
                &&& packet@ == buf@.take(n as int)
                &&& pec
            },
            event matches Event::Decoded(Some(inner)) ==> {
                &&& step.action matches Action::Route { packet }
                &&& packet@ == inner@
            },
    {
        match (state, event) {
            (State::OpeningRequest { message }, Event::Opened(handle)) => Step {
                state: State::SendingRequest { handle },
                action: Action::Send {
                    out: Outgoing {
                        eid: None,
                        typ: spdm_message_type(),
                        tag: None,
                        ic: false,
                        handle,
                    },
                    payload: message,
                },
            },
            (State::SendingRequest { handle }, Event::Sent) => {
                self.req_handle = Some(handle);
                Self::finish(Ok(()))
            },
            (State::SendingResponse, Event::Sent) => {
                self.req_handle = None;
                self.req = None;
                Self::finish(Ok(()))
            },
            (State::OpeningListener, Event::Opened(handle)) => Step {
                state: State::Polling { awaited: Awaited::Request, handle },
                action: Action::Recv { handle },
            },
            (State::Polling { awaited, handle }, Event::Received(received)) => match received {
                Some(message) => self.take_message(awaited, handle, message),
                None => Step {
                    state: State::Listening { awaited, handle },
                    action: Action::Listen,
                },
            },
            (State::Collecting { awaited, handle }, Event::Received(received)) => match received {
                Some(message) => self.take_message(awaited, handle, message),
                None => Step {
                    state: State::Closing { awaited, handle },
                    action: Action::Unbind { handle },
                },
            },
            (State::Storing { awaited, handle }, Event::Stored(stored)) => if stored {
                Step {
                    state: State::Closing { awaited, handle },
                    action: Action::Unbind { handle },
                }
            } else {
                Self::give_up(awaited, handle, TransportError::BufferTooSmall)
            },
            (State::Listening { awaited, handle }, Event::Listened(kind)) => match kind {
                Some(CommandKind::Write) => Step {
                    state: State::Responding { awaited, handle },
                    action: Action::RespondToWrite { len: MTU },
                },
                _ => Self::give_up(awaited, handle, TransportError::ReceiveError),
            },
            (State::Responding { awaited, handle }, Event::Responded { buf, len }) => match len {
                Some(len) => {
                    let packet: &'a [u8] = &buf[0..len];
                    assert(packet@ =~= buf@.take(len as int));
                    Step {
                        state: State::Decoding { awaited, handle },
                        action: Action::Decode { own_addr: self.own_i2c_addr, packet, pec: true },
                    }
                },
                None => Self::give_up(awaited, handle, TransportError::ReceiveError),
            },
            (State::Decoding { awaited, handle }, Event::Decoded(packet)) => match packet {
                Some(packet) => Step {
                    state: State::Routing { awaited, handle },
                    action: Action::Route { packet },
                },
                None => Self::give_up(awaited, handle, TransportError::ReceiveError),
            },
            (State::Routing { awaited, handle }, Event::Routed(routed)) => match routed {
                Some(complete) => {
                    let ours: bool = match complete {
                        Some(cookie) => cookie.0 == handle.0,
                        None => false,
                    };
                    if ours {
                        Step {
                            state: State::Collecting { awaited, handle },
                            action: Action::Recv { handle },
                        }
                    } else {
                        Step {
                            state: State::Listening { awaited, handle },
                            action: Action::Listen,
                        }
                    }
                },
                None => Self::give_up(awaited, handle, TransportError::ReceiveError),
            },
            (State::Closing { awaited, handle }, Event::Unbound) => {
                match awaited {
                    Awaited::Response => {
                        self.req_handle = None;
                    },
                    Awaited::Request => {},
                }
                Self::finish(Ok(()))
            },
            (State::Aborting { handle, error }, Event::Unbound) => Self::finish(Err(error)),
            _ => unreached(),
        }
    }

    /// Ends an operation.
    fn finish<'m, 'a>(result: Result<(), TransportError>) -> (step: Step<&'m [u8], &'a [u8]>)
        ensures
            step@ == done(result),
    {
        Step { state: State::Finished, action: Action::Done(result) }
    }

    /// Ends a receive that failed.
    fn give_up<'m, 'a>(awaited: Awaited, handle: AppCookie, error: TransportError) -> (step: Step<
        &'m [u8],
        &'a [u8],
    >)
        ensures
            step@ == abandon(awaited, handle, error),
    {
        match awaited {
            Awaited::Request => Step {
                state: State::Aborting { handle, error },
                action: Action::Unbind { handle },
            },
            Awaited::Response => Self::finish(Err(error)),
        }
    }

    /// Goes on once the router handed out a message.
    fn take_message<'m, 'a>(
        &mut self,
        awaited: Awaited,
        handle: AppCookie,
        message: Incoming<&'a [u8]>,
    ) -> (step: Step<&'m [u8], &'a [u8]>)
        ensures
            *final(self) == old(self).noting(awaited, message@),
            step@ == store(awaited, handle, message@.payload),
    {
        match awaited {
            Awaited::Request => {
                self.req_handle = message.cookie;
                self.req = Some((message.source, message.tag));
            },
            Awaited::Response => {},
        }
        Step {
            state: State::Storing { awaited, handle },
            action: Action::Store { reset: true, payload: message.payload },
        }
    }
}

/// Copies a received payload into the space that the caller's message buffer had for
/// it. `None` stands for a buffer without that much space. Returns whether the payload
/// was stored.
pub fn store_payload(space: Option<&mut [u8]>, payload: &[u8]) -> (stored: bool)
    requires
        space matches Some(bytes) ==> bytes@.len() == payload@.len(),
    ensures
        stored == (space is Some),
        space matches Some(bytes) ==> final(bytes)@ == payload@,
{
    match space {
        Some(bytes) => {
            let n: usize = payload.len();
            let mut i: usize = 0;
            while i < n
                invariant
                    i <= n,
                    n == payload@.len(),
                    bytes@.len() == n,
                    forall|j: int| 0 <= j < i ==> bytes@[j] == payload@[j],
                decreases n - i,
            {
                bytes[i] = payload[i];
                i = i + 1;
            }
            true
        },
        None => false,
    }
}

} // verus!
