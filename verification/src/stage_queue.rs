//! Small bounded queues between pipeline stages, carrying timestamped payloads.
//!
//! The queues are `crossbeam_channel` channels; what a receive returns depends on the other
//! threads, so the contracts state only what holds of every outcome: a refused send hands the
//! very item back.

use vstd::prelude::*;

use crossbeam_channel::{Receiver, Sender};

verus! {

/// `crossbeam_channel::Sender`, carried as an opaque value.
#[verifier::external_type_specification]
#[verifier::external_body]
#[verifier::reject_recursive_types(T)]
pub struct ExCrossbeamSender<T>(Sender<T>);

/// `crossbeam_channel::Receiver`, carried as an opaque value.
#[verifier::external_type_specification]
#[verifier::external_body]
#[verifier::reject_recursive_types(T)]
pub struct ExCrossbeamReceiver<T>(Receiver<T>);

/// `Sender::clone`: another handle to the same channel. Nothing is stated of the handle.
pub assume_specification<T>[ <Sender<T> as Clone>::clone ](s: &Sender<T>) -> Sender<T>;

/// Timestamped pipeline message payload.
pub struct Timed<T> {
    pub timestamp_us: u64,
    pub data: T,
}

impl<T> Timed<T> {
    pub fn new(timestamp_us: u64, data: T) -> (r: Self)
        ensures
            r.timestamp_us == timestamp_us,
            r.data == data,
    {
        Timed { timestamp_us, data }
    }
}

/// A send refused because every receiver is gone; holds the item that was not sent.
pub struct StageSendError<T>(pub Timed<T>);

/// A non-blocking send that was refused; holds the item that was not sent.
pub enum StageTrySendError<T> {
    /// The queue is full (for a zero-capacity queue: no receiver was waiting).
    Full(Timed<T>),
    /// Every receiver is gone.
    Disconnected(Timed<T>),
}

impl<T> StageTrySendError<T> {
    /// The item that was not sent.
    pub open spec fn item(self) -> Timed<T> {
        match self {
            StageTrySendError::Full(x) => x,
            StageTrySendError::Disconnected(x) => x,
        }
    }
}

/// A blocking receive that failed because the queue is empty and every sender is gone.
#[derive(Clone, Copy, Debug, PartialEq, Eq, Structural)]
pub struct StageRecvError;

/// A non-blocking receive that returned nothing.
#[derive(Clone, Copy, Debug, PartialEq, Eq, Structural)]
pub enum StageTryRecvError {
    /// Nothing is waiting (for a zero-capacity queue: no sender was waiting).
    Empty,
    /// Nothing is waiting and every sender is gone.
    Disconnected,
}

/// `crossbeam_channel::bounded(capacity)`: a channel holding at most `capacity` messages
/// (a rendezvous channel for 0). The crate panics when the capacity cannot be represented in
/// its internal index arithmetic, which `requires` rules out.
#[verifier::external_body]
pub(crate) fn channel_bounded<T>(capacity: usize) -> (Sender<T>, Receiver<T>)
    requires
        capacity <= usize::MAX / 4,
{
    crossbeam_channel::bounded(capacity)
}

/// `Sender::send`: blocks until the message is queued; an error, when every receiver is gone,
/// carries the message back unchanged.
#[verifier::external_body]
pub(crate) fn channel_send<T>(tx: &Sender<T>, msg: T) -> (r: Result<(), T>)
    ensures
        r matches Err(m) ==> m == msg,
{
    match tx.send(msg) {
        Ok(()) => Ok(()),
        Err(e) => Err(e.0),
    }
}

/// A non-blocking send that was refused, holding the message.
pub enum TrySendRefusal<T> {
    /// The channel is full (for a zero-capacity channel: no receiver was waiting).
    Full(T),
    /// Every receiver is gone.
    Disconnected(T),
}

impl<T> TrySendRefusal<T> {
    /// The message that was not sent.
    pub open spec fn message(self) -> T {
        match self {
            TrySendRefusal::Full(m) => m,
            TrySendRefusal::Disconnected(m) => m,
        }
    }
}

/// `Sender::try_send`: queues the message without blocking, or returns it unchanged inside
/// `Full` or `Disconnected`.
#[verifier::external_body]
pub(crate) fn channel_try_send<T>(tx: &Sender<T>, msg: T) -> (r: Result<(), TrySendRefusal<T>>)
    ensures
        r matches Err(e) ==> e.message() == msg,
{
    match tx.try_send(msg) {
        Ok(()) => Ok(()),
        Err(crossbeam_channel::TrySendError::Full(m)) => Err(TrySendRefusal::Full(m)),
        Err(crossbeam_channel::TrySendError::Disconnected(m)) => Err(TrySendRefusal::Disconnected(m)),
    }
}

/// `Receiver::recv`: blocks for the next message; fails once the channel is empty and every
/// sender is gone. Which message arrives depends on the senders, so nothing is stated of it.
#[verifier::external_body]
fn channel_recv<T>(rx: &Receiver<T>) -> Option<T> {
    rx.recv().ok()
}

/// `Receiver::try_recv`: the next message if one is waiting. Which message arrives depends on
/// the senders, so nothing is stated of it.
#[verifier::external_body]
fn channel_try_recv<T>(rx: &Receiver<T>) -> Result<T, StageTryRecvError> {
    match rx.try_recv() {
        Ok(m) => Ok(m),
        Err(crossbeam_channel::TryRecvError::Empty) => Err(StageTryRecvError::Empty),
        Err(crossbeam_channel::TryRecvError::Disconnected) => Err(StageTryRecvError::Disconnected),
    }
}

/// Sending half of a stage queue.
#[verifier::reject_recursive_types(T)]
#[derive(Clone)]
pub struct StageTx<T> {
    inner: Sender<Timed<T>>,
}

/// Receiving half of a stage queue.
#[verifier::reject_recursive_types(T)]
pub struct StageRx<T> {
    inner: Receiver<Timed<T>>,
}

/// A bounded queue pair for cross-thread pipeline stages.
pub fn stage_channel<T>(capacity: usize) -> (r: (StageTx<T>, StageRx<T>))
    requires
        capacity <= usize::MAX / 4,
{
    let (tx, rx) = channel_bounded(capacity);
    (StageTx { inner: tx }, StageRx { inner: rx })
}

impl<T> StageTx<T> {
    /// Blocks until `item` is queued; an error hands `item` back.
    pub fn send(&self, item: Timed<T>) -> (r: Result<(), StageSendError<T>>)
        ensures
            r matches Err(e) ==> e.0 == item,
    {
        match channel_send(&self.inner, item) {
            Ok(()) => Ok(()),
            Err(m) => Err(StageSendError(m)),
        }
    }

    /// Queues `item` without blocking; an error hands `item` back.
    pub fn try_send(&self, item: Timed<T>) -> (r: Result<(), StageTrySendError<T>>)
        ensures
            r matches Err(e) ==> e.item() == item,
    {
        match channel_try_send(&self.inner, item) {
            Ok(()) => Ok(()),
            Err(TrySendRefusal::Full(m)) => Err(StageTrySendError::Full(m)),
            Err(TrySendRefusal::Disconnected(m)) => Err(StageTrySendError::Disconnected(m)),
        }
    }
}

impl<T> StageRx<T> {
    /// Blocks for the next item; fails once the queue is empty and every sender is gone.
    pub fn recv(&self) -> Result<Timed<T>, StageRecvError> {
        match channel_recv(&self.inner) {
            Some(m) => Ok(m),
            None => Err(StageRecvError),
        }
    }

    /// The next item if one is waiting.
    pub fn try_recv(&self) -> Result<Timed<T>, StageTryRecvError> {
        channel_try_recv(&self.inner)
    }
}

} // verus!
