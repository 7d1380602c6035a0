//! One-shot completion signals from `tokio`, by which a finished watering
//! cycle is reported to whoever asked for it.
use tokio::sync::oneshot::{Receiver, Sender};
use vstd::prelude::*;

verus! {

#[verifier::external_type_specification]
#[verifier::external_body]
#[verifier::reject_recursive_types(T)]
pub struct ExSender<T>(Sender<T>);

#[verifier::external_type_specification]
#[verifier::external_body]
#[verifier::reject_recursive_types(T)]
pub struct ExReceiver<T>(Receiver<T>);

/// The error of an awaited `Receiver`; declared because `Receiver` is a
/// future that yields it.
#[verifier::external_type_specification]
#[verifier::external_body]
pub struct ExRecvError(tokio::sync::oneshot::error::RecvError);

/// The record that a completion signal was sent on a sender. Only
/// `fire_completion` makes one.
pub struct Fired {
    sender: Ghost<Sender<()>>,
}

impl Fired {
    /// The sender on which the signal was sent.
    pub closed spec fn sender(&self) -> Sender<()> {
        self.sender@
    }
}

/// The record that a sender and a receiver are the two ends of one
/// completion signal. Only `completion_channel` makes one.
pub struct Pairing {
    sender: Ghost<Sender<()>>,
    receiver: Ghost<Receiver<()>>,
}

impl Pairing {
    /// The sending end.
    pub closed spec fn sender(&self) -> Sender<()> {
        self.sender@
    }

    /// The receiving end.
    pub closed spec fn receiver(&self) -> Receiver<()> {
        self.receiver@
    }
}

/// The history of completion signals: the senders fired, in order, and the
/// pairs of ends made together.
pub struct CompletionLog {
    fired: Ghost<Seq<Sender<()>>>,
    pairs: Ghost<Seq<(Sender<()>, Receiver<()>)>>,
}

impl CompletionLog {
    /// The senders fired, in order.
    pub closed spec fn fired(&self) -> Seq<Sender<()>> {
        self.fired@
    }

    /// The pairs of ends made together, in order.
    pub closed spec fn pairs(&self) -> Seq<(Sender<()>, Receiver<()>)> {
        self.pairs@
    }

    /// An empty history.
    pub fn new() -> (log: CompletionLog)
        ensures
            log.fired() == Seq::<Sender<()>>::empty(),
            log.pairs() == Seq::<(Sender<()>, Receiver<()>)>::empty(),
    {
        CompletionLog { fired: Ghost(Seq::empty()), pairs: Ghost(Seq::empty()) }
    }

    /// Adds a fired sender to the history.
    pub fn record_fired(&mut self, fired: Fired)
        ensures
            final(self).fired() == old(self).fired().push(fired.sender()),
            final(self).pairs() == old(self).pairs(),
    {
        self.fired = Ghost(self.fired@.push(fired.sender@));
    }

    /// Adds a pair of ends to the history.
    pub fn record_pair(&mut self, pairing: Pairing)
        ensures
            final(self).pairs() == old(self).pairs().push((pairing.sender(), pairing.receiver())),
            final(self).fired() == old(self).fired(),
    {
        self.pairs = Ghost(self.pairs@.push((pairing.sender@, pairing.receiver@)));
    }
}

/// Makes a completion signal with `tokio::sync::oneshot::channel`.
///
/// Claims only that the record names the two ends that this one call made;
/// nothing else is claimed of the ends, which are opaque here.
#[verifier::external_body]
pub(crate) fn completion_channel() -> (made: (Sender<()>, Receiver<()>, Pairing))
    ensures
        made.2.sender() == made.0,
        made.2.receiver() == made.1,
{
    let (sender, receiver) = tokio::sync::oneshot::channel();
    let pairing = Pairing { sender: Ghost(sender), receiver: Ghost(receiver) };
    (sender, receiver, pairing)
}

/// Fires a completion signal with `tokio::sync::oneshot::Sender::send`.
///
/// Claims only that the record names the sender that was handed to `send`.
/// Whether the signal arrives is not claimed: the send fails when the
/// receiving end is gone, and that outcome is dropped.
#[verifier::external_body]
pub(crate) fn fire_completion(sender: Sender<()>) -> (fired: Fired)
    ensures
        fired.sender() == sender,
{
    let fired = Fired { sender: Ghost(sender) };
    let _ = sender.send(());
    fired
}

} // verus!
