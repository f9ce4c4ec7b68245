//! What holds of a whole send, whatever the bus and the MCTP stack do.
use crate::sender::{answers, Fragment, I2cSender, SendAction, SendError, SendEvent};
use mctp::Tag;
use vstd::prelude::*;

verus! {

/// The actions that a series of events leads to, one for each event.
pub open spec fn actions<M>(sender: I2cSender, message: M, events: Seq<SendEvent<Seq<u8>>>) -> Seq<
    SendAction<M, Seq<u8>>,
> {
    events.map_values(|event| sender.next(message, event))
}

/// The action that event number `i` is to be an outcome of.
pub open spec fn pending<M>(
    sender: I2cSender,
    message: M,
    events: Seq<SendEvent<Seq<u8>>>,
    i: int,
) -> SendAction<M, Seq<u8>> {
    if i == 0 {
        sender.first(message)
    } else {
        sender.next(message, events[i - 1])
    }
}

/// Whether each event of a send is an outcome of the action before it.
pub open spec fn follows<M>(
    sender: I2cSender,
    message: M,
    events: Seq<SendEvent<Seq<u8>>>,
) -> bool {
    forall|i: int|
        0 <= i < events.len() ==> answers(#[trigger] pending(sender, message, events, i), events[i])
}

/// Whether a series of events takes a send to its end.
pub open spec fn completes<M>(
    sender: I2cSender,
    message: M,
    events: Seq<SendEvent<Seq<u8>>>,
) -> bool {
    &&& events.len() > 0
    &&& follows(sender, message, events)
    &&& sender.next(message, events.last()) is Done
}

/// What the send returned.
pub open spec fn outcome<M>(
    sender: I2cSender,
    message: M,
    events: Seq<SendEvent<Seq<u8>>>,
) -> Result<Tag, SendError> {
    actions(sender, message, events).last()->Done_0
}

/// The packets that the message was cut into, in order.
pub open spec fn packets(events: Seq<SendEvent<Seq<u8>>>) -> Seq<Seq<u8>>
    decreases events.len(),
{
    if events.len() == 0 {
        seq![]
    } else {
        let before = packets(events.drop_last());
        match events.last() {
            SendEvent::Fragmented(Fragment::Packet(packet)) => before.push(packet),
            _ => before,
        }
    }
}

/// The packets that were framed, in order.
pub open spec fn framed<M>(actions: Seq<SendAction<M, Seq<u8>>>) -> Seq<Seq<u8>>
    decreases actions.len(),
{
    if actions.len() == 0 {
        seq![]
    } else {
        let before = framed(actions.drop_last());
        match actions.last() {
            SendAction::Encode { own_addr, remote_addr, packet, len, pec } => before.push(packet),
            _ => before,
        }
    }
}

/// The frames that came out of the framing, in order.
pub open spec fn frames(events: Seq<SendEvent<Seq<u8>>>) -> Seq<Seq<u8>>
    decreases events.len(),
{
    if events.len() == 0 {
        seq![]
    } else {
        let before = frames(events.drop_last());
        match events.last() {
            SendEvent::Encoded(Ok(frame)) => before.push(frame),
            _ => before,
        }
    }
}

/// The frames that were put on the bus, in order.
pub open spec fn written<M>(actions: Seq<SendAction<M, Seq<u8>>>) -> Seq<Seq<u8>>
    decreases actions.len(),
{
    if actions.len() == 0 {
        seq![]
    } else {
        let before = written(actions.drop_last());
        match actions.last() {
            SendAction::Write { remote_addr, frame } => before.push(frame),
            _ => before,
        }
    }
}

/// Each packet that the message was cut into is framed, each frame is put on the bus, in
/// order and unchanged, and every frame goes from this device to the remote one, with an
/// error code.
pub proof fn law_frames_go_out_unchanged<M>(
    sender: I2cSender,
    message: M,
    events: Seq<SendEvent<Seq<u8>>>,
)
    ensures
        framed(actions(sender, message, events)) == packets(events),
        written(actions(sender, message, events)) == frames(events),
        forall|i: int|
            0 <= i < events.len() ==> match #[trigger] actions(sender, message, events)[i] {
                SendAction::Encode { own_addr, remote_addr, packet, len, pec } => {
                    &&& own_addr == sender.own_addr
                    &&& remote_addr == sender.remote_addr
                    &&& pec
                },
                SendAction::Write { remote_addr, frame } => remote_addr == sender.remote_addr,
                _ => true,
            },
    decreases events.len(),
{
    if events.len() > 0 {
        law_frames_go_out_unchanged(sender, message, events.drop_last());
        assert(actions(sender, message, events).drop_last() =~= actions(
            sender,
            message,
            events.drop_last(),
        ));
    }
}

/// Every packet is cut from the whole message, and every frame fits the bus: a packet has at
/// most 247 bytes and a frame at most 255.
pub proof fn law_frames_fit_the_bus<M>(
    sender: I2cSender,
    message: M,
    events: Seq<SendEvent<Seq<u8>>>,
)
    requires
        follows(sender, message, events),
    ensures
        sender.first(message) == (SendAction::<M, Seq<u8>>::Fragment { message, len: 247 }),
        forall|i: int|
            0 <= i < events.len() ==> match #[trigger] actions(sender, message, events)[i] {
                SendAction::Fragment { message: cut, len } => cut == message && len == 247,
                SendAction::Encode { own_addr, remote_addr, packet, len, pec } => {
                    &&& packet.len() <= 247
                    &&& len == 255
                },
                SendAction::Write { remote_addr, frame } => frame.len() <= 255,
                SendAction::Done(_) => true,
            },
{
    assert forall|i: int| 0 <= i < events.len() implies match #[trigger] actions(
        sender,
        message,
        events,
    )[i] {
        SendAction::Fragment { message: cut, len } => cut == message && len == 247,
        SendAction::Encode { own_addr, remote_addr, packet, len, pec } => {
            &&& packet.len() <= 247
            &&& len == 255
        },
        SendAction::Write { remote_addr, frame } => frame.len() <= 255,
        SendAction::Done(_) => true,
    } by {
        assert(answers(pending(sender, message, events, i), events[i]));
    }
}

/// A send returns what its last event says, and nothing before the last event ended it:
/// the tag if the message is complete, `TxFailure` if the bus did not take a frame, and
/// the MCTP stack's error if that failed. Every frame but one that the bus refused was
/// taken.
pub proof fn law_send_outcome<M>(sender: I2cSender, message: M, events: Seq<SendEvent<Seq<u8>>>)
    requires
        completes(sender, message, events),
    ensures
        match outcome(sender, message, events) {
            Ok(tag) => events.last() == SendEvent::<Seq<u8>>::Fragmented(Fragment::Complete(tag)),
            Err(SendError::TxFailure) => events.last() == SendEvent::<Seq<u8>>::Written(false),
            Err(SendError::Mctp(error)) => {
                ||| events.last() == SendEvent::<Seq<u8>>::Fragmented(Fragment::Failed(error))
                ||| events.last() == SendEvent::<Seq<u8>>::Encoded(Err(error))
            },
        },
        forall|i: int|
            0 <= i < events.len() - 1 ==> match #[trigger] events[i] {
                SendEvent::Fragmented(fragment) => fragment is Packet,
                SendEvent::Encoded(result) => result is Ok,
                SendEvent::Written(taken) => taken,
            },
{
    assert(actions(sender, message, events).last() == sender.next(message, events.last()));
    assert forall|i: int| 0 <= i < events.len() - 1 implies match #[trigger] events[i] {
        SendEvent::Fragmented(fragment) => fragment is Packet,
        SendEvent::Encoded(result) => result is Ok,
        SendEvent::Written(taken) => taken,
    } by {
        assert(answers(pending(sender, message, events, i + 1), events[i + 1]));
    }
}

/// The events of a send in which the packets `packets` are framed as `frames` and the
/// bus takes each frame.
pub open spec fn undisturbed(
    packets: Seq<Seq<u8>>,
    frames: Seq<Seq<u8>>,
    tag: Tag,
) -> Seq<SendEvent<Seq<u8>>>
    decreases packets.len(),
{
    if packets.len() == 0 {
        seq![SendEvent::Fragmented(Fragment::Complete(tag))]
    } else {
        seq![
            SendEvent::Fragmented(Fragment::Packet(packets[0])),
            SendEvent::Encoded(Ok(frames[0])),
            SendEvent::Written(true),
        ] + undisturbed(packets.drop_first(), frames.drop_first(), tag)
    }
}

/// The actions of such a send.
pub open spec fn undisturbed_actions<M>(
    sender: I2cSender,
    message: M,
    packets: Seq<Seq<u8>>,
    frames: Seq<Seq<u8>>,
    tag: Tag,
) -> Seq<SendAction<M, Seq<u8>>>
    decreases packets.len(),
{
    if packets.len() == 0 {
        seq![SendAction::Done(Ok(tag))]
    } else {
        seq![
            SendAction::Encode {
                own_addr: sender.own_addr,
                remote_addr: sender.remote_addr,
                packet: packets[0],
                len: 255,
                pec: true,
            },
            SendAction::Write { remote_addr: sender.remote_addr, frame: frames[0] },
            SendAction::Fragment { message, len: 247 },
        ] + undisturbed_actions(sender, message, packets.drop_first(), frames.drop_first(), tag)
    }
}

/// A message that nothing disturbs is sent whole, one packet after the other, and the
/// send returns its tag.
pub proof fn law_message_is_sent_whole<M>(
    sender: I2cSender,
    message: M,
    packets: Seq<Seq<u8>>,
    frames: Seq<Seq<u8>>,
    tag: Tag,
)
    requires
        packets.len() == frames.len(),
        forall|i: int| 0 <= i < packets.len() ==> (#[trigger] packets[i]).len() <= 247,
        forall|i: int| 0 <= i < frames.len() ==> (#[trigger] frames[i]).len() <= 255,
    ensures
        completes(sender, message, undisturbed(packets, frames, tag)),
        actions(sender, message, undisturbed(packets, frames, tag)) == undisturbed_actions(
            sender,
            message,
            packets,
            frames,
            tag,
        ),
        outcome(sender, message, undisturbed(packets, frames, tag)) == Ok::<_, SendError>(tag),
    decreases packets.len(),
{
    let events = undisturbed(packets, frames, tag);
    if packets.len() > 0 {
        let rest = undisturbed(packets.drop_first(), frames.drop_first(), tag);
        law_message_is_sent_whole(sender, message, packets.drop_first(), frames.drop_first(), tag);
        assert(events.last() == rest.last());
        assert forall|i: int| 0 <= i < events.len() implies answers(
            #[trigger] pending(sender, message, events, i),
            events[i],
        ) by {
            if i >= 3 {
                assert(events[i] == rest[i - 3]);
                assert(pending(sender, message, events, i) == pending(
                    sender,
                    message,
                    rest,
                    i - 3,
                ));
            }
        }
        lemma_actions_of_concat(sender, message, events.take(3), rest);
        assert(events =~= events.take(3) + rest);
        assert(actions(sender, message, events.take(3)) =~= undisturbed_actions(
            sender,
            message,
            packets,
            frames,
            tag,
        ).take(3));
        assert(actions(sender, message, events).last() == actions(sender, message, rest).last());
    } else {
        assert(actions(sender, message, events) =~= undisturbed_actions(
            sender,
            message,
            packets,
            frames,
            tag,
        ));
    }
}

/// Actions belong to their events one by one.
proof fn lemma_actions_of_concat<M>(
    sender: I2cSender,
    message: M,
    a: Seq<SendEvent<Seq<u8>>>,
    b: Seq<SendEvent<Seq<u8>>>,
)
    ensures
        actions(sender, message, a + b) == actions(sender, message, a) + actions(
            sender,
            message,
            b,
        ),
{
    assert(actions(sender, message, a + b) =~= actions(sender, message, a) + actions(
        sender,
        message,
        b,
    ));
}

/// What each event leads to, whatever the message and the packet are: a packet is framed
/// whole from this device to the remote one, a frame is written whole to the remote device, a
/// frame that was taken makes room for the next packet of the same message, and every other
/// event ends the send with its own result.
pub proof fn law_each_event_leads_on<M>(
    sender: I2cSender,
    message: M,
    event: SendEvent<Seq<u8>>,
)
    ensures
        sender.first(message) == (SendAction::<M, Seq<u8>>::Fragment { message, len: 247 }),
        match event {
            SendEvent::Fragmented(Fragment::Packet(packet)) => sender.next(message, event) == (
            SendAction::<M, Seq<u8>>::Encode {
                own_addr: sender.own_addr,
                remote_addr: sender.remote_addr,
                packet,
                len: 255,
                pec: true,
            }),
            SendEvent::Fragmented(Fragment::Complete(tag)) => sender.next(message, event)
                == SendAction::<M, Seq<u8>>::Done(Ok(tag)),
            SendEvent::Fragmented(Fragment::Failed(error)) => sender.next(message, event)
                == SendAction::<M, Seq<u8>>::Done(Err(SendError::Mctp(error))),
            SendEvent::Encoded(Ok(frame)) => sender.next(message, event) == (SendAction::<
                M,
                Seq<u8>,
            >::Write { remote_addr: sender.remote_addr, frame }),
            SendEvent::Encoded(Err(error)) => sender.next(message, event) == SendAction::<
                M,
                Seq<u8>,
            >::Done(Err(SendError::Mctp(error))),
            SendEvent::Written(taken) => sender.next(message, event) == if taken {
                SendAction::<M, Seq<u8>>::Fragment { message, len: 247 }
            } else {
                SendAction::<M, Seq<u8>>::Done(Err(SendError::TxFailure))
            },
        },
{
}

/// A model of an action has the action's kind, its values and its bytes.
pub proof fn law_action_is_modelled_faithfully<M>(action: SendAction<M, &[u8]>)
    ensures
        match action {
            SendAction::Fragment { message, len } => action@ == (SendAction::<
                M,
                Seq<u8>,
            >::Fragment { message, len }),
            SendAction::Encode { own_addr, remote_addr, packet, len, pec } => action@ == (
            SendAction::<M, Seq<u8>>::Encode { own_addr, remote_addr, packet: packet@, len, pec }),
            SendAction::Write { remote_addr, frame } => action@ == (SendAction::<
                M,
                Seq<u8>,
            >::Write { remote_addr, frame: frame@ }),
            SendAction::Done(result) => action@ == SendAction::<M, Seq<u8>>::Done(result),
        },
{
}

/// A model of an event has the event's kind, its values and its bytes.
pub proof fn law_event_is_modelled_faithfully(event: SendEvent<&[u8]>)
    ensures
        match event {
            SendEvent::Fragmented(Fragment::Packet(packet)) => event@ == SendEvent::Fragmented(
                Fragment::Packet(packet@),
            ),
            SendEvent::Fragmented(Fragment::Complete(tag)) => event@ == SendEvent::<
                Seq<u8>,
            >::Fragmented(Fragment::Complete(tag)),
            SendEvent::Fragmented(Fragment::Failed(error)) => event@ == SendEvent::<
                Seq<u8>,
            >::Fragmented(Fragment::Failed(error)),
            SendEvent::Encoded(Ok(frame)) => event@ == SendEvent::Encoded(Ok(frame@)),
            SendEvent::Encoded(Err(error)) => event@ == SendEvent::<Seq<u8>>::Encoded(Err(error)),
            SendEvent::Written(taken) => event@ == SendEvent::<Seq<u8>>::Written(taken),
        },
{
}

} // verus!
