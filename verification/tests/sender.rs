use mctp::{Error, Tag, TagValue};
use spdm_demo::sender::{Fragment, I2cSender, SendAction, SendError, SendEvent, PACKET_LEN};

const SENDER: I2cSender = I2cSender { remote_addr: 0x2b, own_addr: 0x2a };

#[test]
fn sizes() {
    assert_eq!(SENDER.get_mtu(), 255);
    assert_eq!(PACKET_LEN, 247);
}

#[test]
fn message_of_two_packets_is_sent_whole() {
    let message: &[&[u8]] = &[&[1, 2], &[3, 4]];
    let packets: [&[u8]; 2] = [&[1, 2, 3], &[4]];
    let frames: [&[u8]; 2] = [&[0xf, 1, 2, 3, 0x99], &[0xf, 4, 0x98]];
    let mut action = SENDER.send_vectored(message);
    for i in 0..2 {
        match action {
            SendAction::Fragment { message: cut, len } => {
                assert_eq!(cut, message);
                assert_eq!(len, 247);
            }
            _ => panic!("a packet is cut"),
        }
        action = SENDER.resume(message, SendEvent::Fragmented(Fragment::Packet(packets[i])));
        match action {
            SendAction::Encode { own_addr, remote_addr, packet, len, pec } => {
                assert_eq!((own_addr, remote_addr, len, pec), (0x2a, 0x2b, 255, true));
                assert_eq!(packet, packets[i]);
            }
            _ => panic!("a packet is framed"),
        }
        action = SENDER.resume(message, SendEvent::Encoded(Ok(frames[i])));
        match action {
            SendAction::Write { remote_addr, frame } => {
                assert_eq!(remote_addr, 0x2b);
                assert_eq!(frame, frames[i]);
            }
            _ => panic!("a frame is written"),
        }
        action = SENDER.resume(message, SendEvent::Written(true));
    }
    assert!(matches!(action, SendAction::Fragment { len: 247, .. }));
    let tag = Tag::Owned(TagValue(6));
    match SENDER.resume(message, SendEvent::Fragmented(Fragment::Complete(tag))) {
        SendAction::Done(Ok(sent)) => assert_eq!(sent, tag),
        _ => panic!("the send is over"),
    }
}

#[test]
fn refused_frame_is_a_transmit_failure() {
    let action = SENDER.resume((), SendEvent::Written(false));
    assert!(matches!(action, SendAction::Done(Err(SendError::TxFailure))));
}

#[test]
fn stack_errors_are_passed_on() {
    let failed = SendEvent::Fragmented(Fragment::Failed(Error::TagUnavailable));
    let action = SENDER.resume((), failed);
    assert!(matches!(
        action,
        SendAction::Done(Err(SendError::Mctp(Error::TagUnavailable)))
    ));
    let action = SENDER.resume((), SendEvent::Encoded(Err(Error::NoSpace)));
    assert!(matches!(
        action,
        SendAction::Done(Err(SendError::Mctp(Error::NoSpace)))
    ));
}
