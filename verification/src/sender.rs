//! Sending an MCTP message over I2C.
//!
//! A message is cut into packets by the MCTP stack, each packet is framed for the bus
//! and each frame is written to the remote device before the next packet is cut.
//! [`I2cSender::send_vectored`] names the first [`SendAction`]; the outcome of an action
//! is a [`SendEvent`], which [`I2cSender::resume`] turns into the next action, until the
//! action is [`SendAction::Done`].
use crate::transport::MTU;
use mctp::{Error, Tag};
use vstd::prelude::*;

verus! {

/// The largest MCTP packet: a frame without its framing.
pub const PACKET_LEN: usize = MTU - 8;

/// The two ends of the bus: where frames go, and whom they come from.
#[derive(Clone, Copy, Debug, PartialEq, Eq, Structural)]
pub struct I2cSender {
    pub remote_addr: u8,
    pub own_addr: u8,
}

/// Why a message was not sent.
#[derive(Debug)]
pub enum SendError {
    /// The bus did not take a frame.
    TxFailure,
    /// The MCTP stack failed.
    Mctp(Error),
}

/// What the MCTP stack made of the next part of a message. `P` is how bytes are held.
#[derive(Debug)]
pub enum Fragment<P> {
    /// The next packet.
    Packet(P),
    /// There are no more packets; the message went out under this tag.
    Complete(Tag),
    /// The message cannot be cut into packets.
    Failed(Error),
}

/// What the firmware is to do next. `M` is how the message is held, `P` how other bytes are.
#[derive(Debug)]
pub enum SendAction<M, P> {
    /// Cut the next packet of the message, into a zeroed buffer of `len` bytes.
    Fragment { message: M, len: usize },
    /// Frame a packet from one device to another, into a zeroed buffer of `len` bytes.
    Encode { own_addr: u8, remote_addr: u8, packet: P, len: usize, pec: bool },
    /// Write a frame to a device.
    Write { remote_addr: u8, frame: P },
    /// Return from the operation.
    Done(Result<Tag, SendError>),
}

/// What came of a [`SendAction`]. `P` is how bytes are held.
#[derive(Debug)]
pub enum SendEvent<P> {
    Fragmented(Fragment<P>),
    /// The frame, or why there is none.
    Encoded(Result<P, Error>),
    /// Whether the bus took the frame.
    Written(bool),
}

impl<'a, M> View for SendAction<M, &'a [u8]> {
    type V = SendAction<M, Seq<u8>>;

    open spec fn view(&self) -> SendAction<M, Seq<u8>> {
        match *self {
            SendAction::Fragment { message, len } => SendAction::Fragment { message, len },
            SendAction::Encode { own_addr, remote_addr, packet, len, pec } => SendAction::Encode {
                own_addr,
                remote_addr,
                packet: packet@,
                len,
                pec,
            },
            SendAction::Write { remote_addr, frame } => SendAction::Write {
                remote_addr,
                frame: frame@,
            },
            SendAction::Done(result) => SendAction::Done(result),
        }
    }
}

impl<'a> View for SendEvent<&'a [u8]> {
    type V = SendEvent<Seq<u8>>;

    open spec fn view(&self) -> SendEvent<Seq<u8>> {
        match *self {
            SendEvent::Fragmented(Fragment::Packet(packet)) => SendEvent::Fragmented(
                Fragment::Packet(packet@),
            ),
            SendEvent::Fragmented(Fragment::Complete(tag)) => SendEvent::Fragmented(
                Fragment::Complete(tag),
            ),
            SendEvent::Fragmented(Fragment::Failed(error)) => SendEvent::Fragmented(
                Fragment::Failed(error),
            ),
            SendEvent::Encoded(Ok(frame)) => SendEvent::Encoded(Ok(frame@)),
            SendEvent::Encoded(Err(error)) => SendEvent::Encoded(Err(error)),
            SendEvent::Written(taken) => SendEvent::Written(taken),
        }
    }
}

/// Whether `event` is an outcome of `action`. What is put into a buffer is no longer than
/// the buffer.
pub open spec fn answers<M>(action: SendAction<M, Seq<u8>>, event: SendEvent<Seq<u8>>) -> bool {
    match action {
        SendAction::Fragment { message, len } => match event {
            SendEvent::Fragmented(Fragment::Packet(packet)) => packet.len() <= len,
            SendEvent::Fragmented(_) => true,
            _ => false,
        },
        SendAction::Encode { own_addr, remote_addr, packet, len, pec } => match event {
            SendEvent::Encoded(Ok(frame)) => frame.len() <= len,
            SendEvent::Encoded(Err(_)) => true,
            _ => false,
        },
        SendAction::Write { .. } => event is Written,
        SendAction::Done(_) => false,
    }
}

impl I2cSender {
    /// The first action of a send.
    pub open spec fn first<M>(self, message: M) -> SendAction<M, Seq<u8>> {
        SendAction::Fragment { message, len: PACKET_LEN }
    }

    /// The action that `event` leads to in the send of `message`. Which action the event is
    /// an outcome of follows from its kind.
    pub open spec fn next<M>(self, message: M, event: SendEvent<Seq<u8>>) -> SendAction<
        M,
        Seq<u8>,
    > {
        match event {
            SendEvent::Fragmented(Fragment::Packet(packet)) => SendAction::Encode {
                own_addr: self.own_addr,
                remote_addr: self.remote_addr,
                packet,
                len: MTU,
                pec: true,
            },
            SendEvent::Fragmented(Fragment::Complete(tag)) => SendAction::Done(Ok(tag)),
            SendEvent::Fragmented(Fragment::Failed(error)) => SendAction::Done(
                Err(SendError::Mctp(error)),
            ),
            SendEvent::Encoded(Ok(frame)) => SendAction::Write {
                remote_addr: self.remote_addr,
                frame,
            },
            SendEvent::Encoded(Err(error)) => SendAction::Done(Err(SendError::Mctp(error))),
            SendEvent::Written(true) => self.first(message),
            SendEvent::Written(false) => SendAction::Done(Err(SendError::TxFailure)),
        }
    }

    /// The largest frame that the bus takes.
    pub fn get_mtu(&self) -> (mtu: usize)
        ensures
            mtu == 255,
    {
        MTU
    }

    /// Starts to send a message.
    pub fn send_vectored<'a, M>(&self, message: M) -> (action: SendAction<M, &'a [u8]>)
        ensures
            action@ == self.first(message),
            action matches SendAction::Fragment { message: cut, len } && cut == message && len
                == 247,
    {
        SendAction::Fragment { message, len: PACKET_LEN }
    }

    /// Goes on with the send of `message`, given what came of its last action.
    pub fn resume<'a, M>(&self, message: M, event: SendEvent<&'a [u8]>) -> (action: SendAction<
        M,
        &'a [u8],
    >)
        ensures
            action@ == self.next(message, event@),
            event matches SendEvent::Fragmented(Fragment::Packet(cut)) ==> {
                &&& action matches SendAction::Encode { own_addr, remote_addr, packet, len, pec }
                &&& own_addr == self.own_addr
                &&& remote_addr == self.remote_addr
                &&& packet@ == cut@
                &&& len == 255
                &&& pec
            },
            event matches SendEvent::Encoded(Ok(encoded)) ==> {
                &&& action matches SendAction::Write { remote_addr, frame }
                &&& remote_addr == self.remote_addr
                &&& frame@ == encoded@
            },
    {
        match event {
            SendEvent::Fragmented(Fragment::Packet(packet)) => SendAction::Encode {
                own_addr: self.own_addr,
                remote_addr: self.remote_addr,
                packet,
                len: MTU,
                pec: true,
            },
            SendEvent::Fragmented(Fragment::Complete(tag)) => SendAction::Done(Ok(tag)),
            SendEvent::Fragmented(Fragment::Failed(error)) => SendAction::Done(
                Err(SendError::Mctp(error)),
            ),
            SendEvent::Encoded(Ok(frame)) => SendAction::Write {
                remote_addr: self.remote_addr,
                frame,
            },
            SendEvent::Encoded(Err(error)) => SendAction::Done(Err(SendError::Mctp(error))),
            SendEvent::Written(taken) => if taken {
                self.send_vectored(message)
            } else {
                SendAction::Done(Err(SendError::TxFailure))
            },
        }
    }
}

} // verus!
