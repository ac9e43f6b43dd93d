//! A two-party channel: two linked endpoints, each of which sends values of
//! one type and receives values of another.

use crossbeam_channel::{Receiver, RecvError, SendError, Sender};
use vstd::prelude::*;

verus! {

#[verifier::external_type_specification]
#[verifier::external_body]
#[verifier::reject_recursive_types(T)]
pub struct ExSender<T>(Sender<T>);

#[verifier::external_type_specification]
#[verifier::external_body]
#[verifier::reject_recursive_types(T)]
pub struct ExReceiver<T>(Receiver<T>);

#[verifier::external_type_specification]
#[verifier::external_body]
#[verifier::reject_recursive_types(T)]
pub struct ExSendError<T>(SendError<T>);

#[verifier::external_type_specification]
#[verifier::external_body]
pub struct ExRecvError(RecvError);

/// `crossbeam_channel::unbounded` makes a channel of unlimited capacity and
/// returns its two sides. Nothing is claimed of them.
pub assume_specification<T>[ crossbeam_channel::unbounded::<T> ]() -> (sides: (
    Sender<T>,
    Receiver<T>,
));

/// `Sender::send` hands a message to the channel, or fails where the channel
/// is disconnected. Which of the two happens depends on the other side, so
/// nothing is claimed of the result.
pub assume_specification<T>[ Sender::<T>::send ](sender: &Sender<T>, msg: T) -> (sent: Result<
    (),
    SendError<T>,
>);

/// `Receiver::recv` blocks until a message arrives, or fails where the
/// channel is empty and disconnected. What comes back depends on the other
/// side, so nothing is claimed of the result.
pub assume_specification<T>[ Receiver::<T>::recv ](receiver: &Receiver<T>) -> (got: Result<
    T,
    RecvError,
>);

/// Cloning a `Sender` gives another handle to the same channel. Nothing is
/// claimed of it.
pub assume_specification<T>[ <Sender<T> as Clone>::clone ](sender: &Sender<T>) -> (other: Sender<
    T,
>);

/// Cloning a `Receiver` gives another handle to the same channel. Nothing is
/// claimed of it.
pub assume_specification<T>[ <Receiver<T> as Clone>::clone ](receiver: &Receiver<T>) -> (other:
    Receiver<T>);

/// The other endpoint is gone: nothing can be sent to it, and nothing more
/// will come from it.
#[derive(Copy, Clone, PartialEq, Eq, Structural, Debug)]
pub struct ChannelClosed;

/// One endpoint of a two-party channel. It sends values of type `I` to the
/// other endpoint and receives values of type `O` from it.
#[derive(Clone)]
#[verifier::reject_recursive_types(I)]
#[verifier::reject_recursive_types(O)]
pub struct BidirectionalChannel<I, O> where I: Send, O: Send {
    sender: Sender<I>,
    recv: Receiver<O>,
}

/// What a send on the underlying channel came to, as this library reports
/// it.
pub fn send_outcome<T>(sent: Result<(), SendError<T>>) -> (r: Result<(), ChannelClosed>)
    ensures
        r is Ok <==> sent is Ok,
{
    match sent {
        Ok(_) => Ok(()),
        Err(_) => Err(ChannelClosed),
    }
}

/// What a receive on the underlying channel came to, as this library
/// reports it: the value that arrived, or that the channel is closed.
pub fn recv_outcome<T>(got: Result<T, RecvError>) -> (r: Result<T, ChannelClosed>)
    ensures
        match got {
            Ok(v) => r == Ok::<T, ChannelClosed>(v),
            Err(_) => r == Err::<T, ChannelClosed>(ChannelClosed),
        },
{
    match got {
        Ok(v) => Ok(v),
        Err(_) => Err(ChannelClosed),
    }
}

impl<I, O> BidirectionalChannel<I, O> where I: Send, O: Send {
    /// Two linked endpoints: what the first sends the second receives, and
    /// the other way round.
    pub fn new() -> (pair: (BidirectionalChannel<I, O>, BidirectionalChannel<O, I>)) {
        let (sender1, recv1) = crossbeam_channel::unbounded::<I>();
        let (sender2, recv2) = crossbeam_channel::unbounded::<O>();
        let first_channel = BidirectionalChannel { sender: sender1, recv: recv2 };
        let second_channel = BidirectionalChannel { sender: sender2, recv: recv1 };
        (first_channel, second_channel)
    }

    /// Sends `input` to the other endpoint without blocking. This fails only
    /// where the other endpoint is gone.
    pub fn send(&self, input: I) -> (sent: Result<(), ChannelClosed>) {
        send_outcome(self.sender.send(input))
    }

    /// Blocks until a value from the other endpoint is there and returns
    /// it. This fails where the other endpoint is gone and nothing is
    /// pending.
    pub fn recv(&self) -> (got: Result<O, ChannelClosed>) {
        recv_outcome(self.recv.recv())
    }

    /// Sends `i` and blocks for the one reply to it. Where the send fails,
    /// no reply is waited for.
    pub fn send_n_receive_sync(&self, i: I) -> (reply: Result<O, ChannelClosed>) {
        match self.send(i) {
            Ok(_) => self.recv(),
            Err(closed) => Err(closed),
        }
    }
}

} // verus!
