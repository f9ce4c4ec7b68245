use mctp::{Eid, Tag, TagValue};
use spdm_demo::transport::{
    store_payload, Action, AppCookie, Awaited, CommandKind, Event, Incoming, Outgoing, State, Step,
    Transport, TransportError, LISTEN_HANDLES, MTU, REQ_HANDLES,
};

const H: AppCookie = AppCookie(3);
const REQUEST: [u8; 4] = [0x10, 0x84, 0x00, 0x00];
const RESPONSE: [u8; 3] = [0x12, 0x04, 0x01];

fn outstanding() -> Transport {
    let mut t = Transport::new(0x2a);
    let step = t.send_request(10, &REQUEST);
    assert_eq!(step.action, Action::OpenRequest { dest_eid: 10 });
    let step = t.resume(step.state, Event::Opened(H));
    let step = t.resume(step.state, Event::Sent);
    assert_eq!(step.action, Action::Done(Ok(())));
    t
}

fn message(payload: &[u8]) -> Incoming<&[u8]> {
    Incoming {
        source: Eid(11),
        tag: Tag::Unowned(TagValue(2)),
        cookie: Some(AppCookie(5)),
        payload,
    }
}

fn listening(t: &mut Transport) -> State<&'static [u8]> {
    let step = t.receive_request();
    let step = t.resume(step.state, Event::Opened(H));
    assert_eq!(step.action, Action::Recv { handle: H });
    step.state
}

fn at_the_bus(t: &mut Transport) -> State<&'static [u8]> {
    let step = t.receive_response();
    assert_eq!(step.action, Action::Recv { handle: H });
    let step = t.resume(step.state, Event::Received(None));
    assert_eq!(step.action, Action::Listen);
    step.state
}

fn addressed(t: &mut Transport) -> State<&'static [u8]> {
    let state = at_the_bus(t);
    let step = t.resume(state, Event::Listened(Some(CommandKind::Write)));
    assert_eq!(step.action, Action::RespondToWrite { len: 255 });
    step.state
}

fn failed_keeping(t: &Transport, step: Step<&[u8], &[u8]>, error: TransportError) {
    assert_eq!(step.action, Action::Done(Err(error)));
    assert_eq!(step.state, State::Finished);
    assert_eq!(t.req_handle, Some(H));
}

fn released(t: &mut Transport, step: Step<&[u8], &[u8]>, error: TransportError) {
    assert_eq!(step.action, Action::Unbind { handle: H });
    let step = t.resume(step.state, Event::Unbound);
    assert_eq!(step.action, Action::Done(Err(error)));
    assert_eq!(t.receive_request().action, Action::OpenListener { typ: 5 });
}

#[test]
fn new_transport_has_nothing_outstanding() {
    let t = Transport::new(0x2a);
    assert_eq!(t, Transport { own_i2c_addr: 0x2a, req_handle: None, req: None });
    assert_eq!(
        t.receive_response().action,
        Action::Done(Err(TransportError::ResponseNotExpected))
    );
    assert_eq!(
        t.send_response(&RESPONSE).action,
        Action::Done(Err(TransportError::ResponseNotExpected))
    );
}

#[test]
fn constants() {
    assert_eq!(MTU, 255);
    assert_eq!(LISTEN_HANDLES, 8);
    assert_eq!(REQ_HANDLES, 8);
    let mut t = Transport::new(1);
    assert_eq!(t.header_size(), 0);
    assert_eq!(t.max_message_size(1032), Ok(1032));
    assert_eq!(t.init_sequence(), Ok(()));
    assert_eq!(t, Transport::new(1));
}

#[test]
fn request_goes_out_as_plain_spdm() {
    let mut t = Transport::new(0x2a);
    let step = t.send_request(10, &REQUEST);
    let step = t.resume(step.state, Event::Opened(H));
    assert_eq!(
        step.action,
        Action::Send {
            out: Outgoing {
                eid: None,
                typ: mctp::MCTP_TYPE_SPDM.0,
                tag: None,
                ic: false,
                handle: H
            },
            payload: &[0x10, 0x84, 0x00, 0x00][..]
        }
    );
    assert_eq!(t.req_handle, None);
    let step = t.resume(step.state, Event::Sent);
    assert_eq!(step.action, Action::Done(Ok(())));
    assert_eq!(t.req_handle, Some(H));
    assert_eq!(t.req, None);
}

#[test]
fn ready_response_is_taken_without_the_bus() {
    let mut t = outstanding();
    let step = t.receive_response();
    assert_eq!(step.action, Action::Recv { handle: H });
    let step = t.resume(step.state, Event::Received(Some(message(&RESPONSE))));
    assert_eq!(step.action, Action::Store { reset: true, payload: &RESPONSE[..] });
    let step = t.resume(step.state, Event::Stored(true));
    assert_eq!(step.action, Action::Unbind { handle: H });
    assert_eq!(t.req_handle, Some(H));
    let step = t.resume(step.state, Event::Unbound);
    assert_eq!(step.action, Action::Done(Ok(())));
    assert_eq!(t.req_handle, None);
    assert_eq!(t.req, None);
    for _ in 0..3 {
        assert_eq!(
            t.receive_response().action,
            Action::Done(Err(TransportError::ResponseNotExpected))
        );
        assert_eq!(
            t.send_response(&RESPONSE).action,
            Action::Done(Err(TransportError::ResponseNotExpected))
        );
    }
}

#[test]
fn refusals_last_until_the_next_request() {
    let mut t = Transport::new(0x2a);
    let idle = Transport::new(0x2a);
    for _ in 0..3 {
        let step = t.receive_response();
        assert_eq!(step.action, Action::Done(Err(TransportError::ResponseNotExpected)));
        assert_eq!(step.state, State::Finished);
        let step = t.send_response(&RESPONSE);
        assert_eq!(step.action, Action::Done(Err(TransportError::ResponseNotExpected)));
        assert_eq!(step.state, State::Finished);
        assert_eq!(t, idle);
    }
    let step = t.send_request(10, &REQUEST);
    let step = t.resume(step.state, Event::Opened(H));
    let step = t.resume(step.state, Event::Sent);
    assert_eq!(step.action, Action::Done(Ok(())));
    assert_eq!(t.receive_response().action, Action::Recv { handle: H });
}

#[test]
fn response_arrives_after_foreign_packets() {
    let mut t = outstanding();
    let mut state = at_the_bus(&mut t);
    let mut buf = [0u8; MTU];
    buf[0] = 0x54;
    buf[1] = 0x0f;
    buf[2] = 0x77;
    for complete in [None, Some(AppCookie(4)), Some(H)] {
        let step = t.resume(state, Event::Listened(Some(CommandKind::Write)));
        assert_eq!(step.action, Action::RespondToWrite { len: MTU });
        let step = t.resume(step.state, Event::Responded { buf: &buf, len: Some(3) });
        assert_eq!(
            step.action,
            Action::Decode { own_addr: 0x2a, packet: &[0x54, 0x0f, 0x77][..], pec: true }
        );
        let packet = [9u8, 8, 7];
        let step = t.resume(step.state, Event::Decoded(Some(&packet)));
        assert_eq!(step.action, Action::Route { packet: &[9, 8, 7][..] });
        let step = t.resume(step.state, Event::Routed(Some(complete)));
        if complete == Some(H) {
            assert_eq!(step.action, Action::Recv { handle: H });
        } else {
            assert_eq!(step.action, Action::Listen);
            assert_eq!(t.req_handle, Some(H));
        }
        state = step.state;
    }
    let step = t.resume(state, Event::Received(Some(message(&RESPONSE))));
    assert_eq!(step.action, Action::Store { reset: true, payload: &RESPONSE[..] });
    let step = t.resume(step.state, Event::Stored(true));
    assert_eq!(step.action, Action::Unbind { handle: H });
    let step = t.resume(step.state, Event::Unbound);
    assert_eq!(step.action, Action::Done(Ok(())));
    assert_eq!(t.req_handle, None);
}

#[test]
fn complete_message_that_vanished_still_ends_the_receive() {
    let mut t = outstanding();
    let state = State::Collecting { awaited: Awaited::Response, handle: H };
    let step = t.resume(state, Event::Received(None));
    assert_eq!(step.action, Action::Unbind { handle: H });
    let step = t.resume(step.state, Event::Unbound);
    assert_eq!(step.action, Action::Done(Ok(())));
    assert_eq!(t.req_handle, None);
}

#[test]
fn response_that_does_not_fit_keeps_the_request_open() {
    let mut t = outstanding();
    let step = t.receive_response();
    let step = t.resume(step.state, Event::Received(Some(message(&RESPONSE))));
    let step = t.resume(step.state, Event::Stored(false));
    failed_keeping(&t, step, TransportError::BufferTooSmall);
    let state = State::Collecting { awaited: Awaited::Response, handle: H };
    let step = t.resume(state, Event::Received(Some(message(&RESPONSE))));
    let step = t.resume(step.state, Event::Stored(false));
    failed_keeping(&t, step, TransportError::BufferTooSmall);
    assert_eq!(t.receive_response().action, Action::Recv { handle: H });
}

#[test]
fn failed_listen_is_a_receive_error() {
    let mut t = outstanding();
    let state = at_the_bus(&mut t);
    let step = t.resume(state, Event::Listened(None));
    failed_keeping(&t, step, TransportError::ReceiveError);
}

#[test]
fn read_command_is_a_receive_error() {
    let mut t = outstanding();
    let state = at_the_bus(&mut t);
    let step = t.resume(state, Event::Listened(Some(CommandKind::Read)));
    failed_keeping(&t, step, TransportError::ReceiveError);
}

#[test]
fn failed_write_response_is_a_receive_error() {
    let mut t = outstanding();
    let state = addressed(&mut t);
    let step = t.resume(state, Event::Responded { buf: &[0; 255], len: None });
    failed_keeping(&t, step, TransportError::ReceiveError);
}

#[test]
fn invalid_frame_is_a_receive_error() {
    let mut t = outstanding();
    let state = addressed(&mut t);
    let step = t.resume(state, Event::Responded { buf: &[1; 255], len: Some(255) });
    assert_eq!(
        step.action,
        Action::Decode { own_addr: 0x2a, packet: &[1; 255][..], pec: true }
    );
    let step = t.resume(step.state, Event::Decoded(None));
    failed_keeping(&t, step, TransportError::ReceiveError);
}

#[test]
fn refused_packet_is_a_receive_error() {
    let mut t = outstanding();
    let state = addressed(&mut t);
    let step = t.resume(state, Event::Responded { buf: &[0; 255], len: Some(0) });
    assert_eq!(
        step.action,
        Action::Decode { own_addr: 0x2a, packet: &[][..], pec: true }
    );
    let step = t.resume(step.state, Event::Decoded(Some(&[])));
    let step = t.resume(step.state, Event::Routed(None));
    failed_keeping(&t, step, TransportError::ReceiveError);
}

#[test]
fn request_is_answered_once_where_it_came_from() {
    let mut t = Transport::new(0x2b);
    let step = t.receive_request();
    assert_eq!(step.action, Action::OpenListener { typ: 5 });
    assert_eq!(step.action, Action::OpenListener { typ: mctp::MCTP_TYPE_SPDM.0 });
    let step = t.resume(step.state, Event::Opened(AppCookie(7)));
    assert_eq!(step.action, Action::Recv { handle: AppCookie(7) });
    let step = t.resume(step.state, Event::Received(Some(message(&REQUEST))));
    assert_eq!(step.action, Action::Store { reset: true, payload: &REQUEST[..] });
    let step = t.resume(step.state, Event::Stored(true));
    assert_eq!(step.action, Action::Unbind { handle: AppCookie(7) });
    let step = t.resume(step.state, Event::Unbound);
    assert_eq!(step.action, Action::Done(Ok(())));
    assert_eq!(t.req_handle, Some(AppCookie(5)));
    assert_eq!(t.req, Some((Eid(11), Tag::Unowned(TagValue(2)))));

    let step = t.send_response(&RESPONSE);
    assert_eq!(
        step.action,
        Action::Send {
            out: Outgoing {
                eid: Some(Eid(11)),
                typ: 5,
                tag: Some(Tag::Unowned(TagValue(2))),
                ic: false,
                handle: AppCookie(5)
            },
            payload: &[0x12, 0x04, 0x01][..]
        }
    );
    let step = t.resume(step.state, Event::Sent);
    assert_eq!(step.action, Action::Done(Ok(())));
    assert_eq!(t, Transport::new(0x2b));
    assert_eq!(
        t.send_response(&RESPONSE).action,
        Action::Done(Err(TransportError::ResponseNotExpected))
    );
}

#[test]
fn sending_a_request_does_not_allow_another_response() {
    let mut t = Transport::new(0x2b);
    let step = t.send_request(11, &REQUEST);
    let step = t.resume(step.state, Event::Opened(H));
    t.resume(step.state, Event::Sent);
    assert_eq!(
        t.send_response(&RESPONSE).action,
        Action::Done(Err(TransportError::ResponseNotExpected))
    );
}

#[test]
fn request_arrives_as_it_was_sent() {
    let mut a = Transport::new(0x2a);
    let step = a.send_request(10, &REQUEST);
    let step = a.resume(step.state, Event::Opened(H));
    let sent = match step.action {
        Action::Send { payload, .. } => payload,
        _ => panic!("the request is sent"),
    };
    let mut b = Transport::new(0x2b);
    let state = listening(&mut b);
    let step = b.resume(state, Event::Received(Some(message(sent))));
    let mut buffer = vec![0xee; 9];
    match step.action {
        Action::Store { reset, payload } => {
            if reset {
                buffer.clear();
            }
            let start = buffer.len();
            buffer.resize(start + payload.len(), 0);
            assert!(store_payload(Some(&mut buffer[start..]), payload));
        }
        _ => panic!("the request is stored"),
    }
    let step = b.resume(step.state, Event::Stored(true));
    let step = b.resume(step.state, Event::Unbound);
    assert_eq!(step.action, Action::Done(Ok(())));
    assert_eq!(buffer, REQUEST);
}

#[test]
fn request_that_does_not_fit_is_remembered_and_frees_its_listener() {
    let mut t = Transport::new(0x2b);
    let state = listening(&mut t);
    let step = t.resume(state, Event::Received(Some(message(&REQUEST))));
    let step = t.resume(step.state, Event::Stored(false));
    released(&mut t, step, TransportError::BufferTooSmall);
    assert_eq!(t.req_handle, Some(AppCookie(5)));
    assert_eq!(t.req, Some((Eid(11), Tag::Unowned(TagValue(2)))));
}

#[test]
fn request_without_a_cookie_cannot_be_answered() {
    let mut t = Transport::new(0x2b);
    let state = listening(&mut t);
    let m = Incoming { cookie: None, ..message(&REQUEST) };
    let step = t.resume(state, Event::Received(Some(m)));
    let step = t.resume(step.state, Event::Stored(true));
    let step = t.resume(step.state, Event::Unbound);
    assert_eq!(step.action, Action::Done(Ok(())));
    assert_eq!(
        t.send_response(&RESPONSE).action,
        Action::Done(Err(TransportError::ResponseNotExpected))
    );
}

#[test]
fn failed_receive_of_a_request_frees_its_listener_and_changes_nothing() {
    let buf = [0u8; 255];
    let failures = [
        vec![Event::Listened(None)],
        vec![Event::Listened(Some(CommandKind::Read))],
        vec![
            Event::Listened(Some(CommandKind::Write)),
            Event::Responded { buf: &buf[..], len: None },
        ],
        vec![
            Event::Listened(Some(CommandKind::Write)),
            Event::Responded { buf: &buf[..], len: Some(4) },
            Event::Decoded(None),
        ],
        vec![
            Event::Listened(Some(CommandKind::Write)),
            Event::Responded { buf: &buf[..], len: Some(4) },
            Event::Decoded(Some(&buf[..2])),
            Event::Routed(None),
        ],
    ];
    for events in failures {
        let mut t = Transport::new(0x2b);
        let state = listening(&mut t);
        let mut step = t.resume(state, Event::Received(None));
        for event in events {
            step = t.resume(step.state, event);
        }
        released(&mut t, step, TransportError::ReceiveError);
        assert_eq!(t, Transport::new(0x2b));
    }
}

#[test]
fn an_outstanding_request_alone_cannot_be_answered() {
    let t = outstanding();
    assert_eq!(
        t.send_response(&RESPONSE).action,
        Action::Done(Err(TransportError::ResponseNotExpected))
    );
}

#[test]
fn payload_is_stored_as_it_came() {
    let mut space = [0u8; 4];
    assert!(store_payload(Some(&mut space), &[1, 2, 3, 255]));
    assert_eq!(space, [1, 2, 3, 255]);
    assert!(store_payload(Some(&mut []), &[]));
    assert!(!store_payload(None, &[1]));
}
