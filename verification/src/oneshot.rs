//! A simple oneshot channel.
//!
//! The two halves share a [`Channel`], which the caller keeps where both reach it.

use vstd::prelude::*;

verus! {

/// Error when the receiver finds that nothing will be sent any more.
#[derive(Debug, Clone, Copy, PartialEq, Eq, Structural)]
pub struct RecvError;

/// Error when sender tries to send but receiver is dropped. Gives the value back.
#[derive(Debug, PartialEq, Eq)]
pub struct SendError<T>(pub T);

/// What a channel holds.
#[derive(Debug)]
pub enum ChannelState<T> {
    /// Nothing has been sent.
    Empty,
    /// A value has been sent and not received.
    Data(T),
    /// The value has been received, or the receiver was dropped.
    Closed,
}

/// What the two halves of a oneshot channel share.
#[derive(Debug)]
pub struct Channel<T, W> {
    /// What the channel holds.
    pub state: ChannelState<T>,
    /// The waker of the receiver that waits.
    pub waker: Option<W>,
}

impl<T, W> Channel<T, W> {
    /// What sending a value leaves, and answers.
    pub open spec fn sent(
        self,
        value: T,
        after: Self,
        answer: Result<bool, SendError<T>>,
    ) -> bool {
        &&& after.waker == self.waker
        &&& if self.state is Empty {
            &&& answer == Ok::<bool, SendError<T>>(self.waker is Some)
            &&& after.state == ChannelState::Data(value)
        } else {
            &&& answer == Err::<bool, SendError<T>>(SendError(value))
            &&& after.state == self.state
        }
    }

    /// What polling the receiver leaves, and gives.
    pub open spec fn polled(
        self,
        waker: W,
        after: Self,
        received: Option<Result<T, RecvError>>,
    ) -> bool {
        match self.state {
            ChannelState::Data(value) => {
                &&& received == Some(Ok::<T, RecvError>(value))
                &&& after.state is Closed
                &&& after.waker == self.waker
            },
            ChannelState::Closed => {
                &&& received == Some(Err::<T, RecvError>(RecvError))
                &&& after.state is Closed
                &&& after.waker == self.waker
            },
            ChannelState::Empty => {
                &&& received is None
                &&& after.state is Empty
                &&& after.waker == Some(waker)
            },
        }
    }
}

/// A value that was sent is what the receiver gets, once; a receiver that waits is
/// woken by the sending.
pub proof fn law_a_value_sent_is_received_once<T, W>(
    channel: Channel<T, W>,
    value: T,
    waker: W,
    between: Channel<T, W>,
    answer: Result<bool, SendError<T>>,
    after: Channel<T, W>,
    received: Option<Result<T, RecvError>>,
    end: Channel<T, W>,
    again: Option<Result<T, RecvError>>,
)
    requires
        channel.state is Empty,
        channel.sent(value, between, answer),
        between.polled(waker, after, received),
        after.polled(waker, end, again),
    ensures
        answer == Ok::<bool, SendError<T>>(channel.waker is Some),
        received == Some(Ok::<T, RecvError>(value)),
        again == Some(Err::<T, RecvError>(RecvError)),
{
}

/// Sending where nothing can be received any more gives the value back and changes
/// nothing.
pub proof fn law_a_value_that_cannot_arrive_comes_back<T, W>(
    channel: Channel<T, W>,
    value: T,
    after: Channel<T, W>,
    answer: Result<bool, SendError<T>>,
)
    requires
        !(channel.state is Empty),
        channel.sent(value, after, answer),
    ensures
        answer == Err::<bool, SendError<T>>(SendError(value)),
        after == channel,
{
}

/// Sender half of oneshot channel.
#[derive(Debug)]
pub struct Sender;

/// Receiver half of oneshot channel.
#[derive(Debug)]
pub struct Receiver;

/// Creates a oneshot channel.
pub fn channel<T, W>() -> (made: (Sender, Receiver, Channel<T, W>))
    ensures
        made.2.state is Empty,
        made.2.waker is None,
{
    (Sender, Receiver, Channel { state: ChannelState::Empty, waker: None })
}

impl Sender {
    /// Send a value through the channel.
    ///
    /// On success, returns whether a receiver waits and is to be woken.
    pub fn send<T, W>(self, channel: &mut Channel<T, W>, value: T) -> (sent: Result<
        bool,
        SendError<T>,
    >)
        ensures
            old(channel).sent(value, *final(channel), sent),
    {
        match channel.state {
            ChannelState::Empty => {
                channel.state = ChannelState::Data(value);
                Ok(channel.waker.is_some())
            },
            _ => Err(SendError(value)),
        }
    }
}

impl Receiver {
    /// Receives the value if it has been sent; otherwise records who waits for it.
    pub fn poll<T, W>(&mut self, channel: &mut Channel<T, W>, waker: W) -> (received: Option<
        Result<T, RecvError>,
    >)
        ensures
            old(channel).polled(waker, *final(channel), received),
    {
        let mut state: ChannelState<T> = ChannelState::Closed;
        std::mem::swap(&mut state, &mut channel.state);
        match state {
            ChannelState::Data(value) => Some(Ok(value)),
            ChannelState::Closed => Some(Err(RecvError)),
            ChannelState::Empty => {
                channel.state = ChannelState::Empty;
                channel.waker = Some(waker);
                None
            },
        }
    }

    /// Gives the channel up: nothing sent through it from here on arrives, and a
    /// sender that tries is told so.
    pub fn dropped<T, W>(self, channel: &mut Channel<T, W>)
        ensures
            final(channel).state is Closed,
            final(channel).waker is None,
    {
        channel.state = ChannelState::Closed;
        channel.waker = None;
    }
}

} // verus!
