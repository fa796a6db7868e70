//! The broadcast channel of a room.

use tokio::sync::broadcast::{Receiver, Sender};
use vstd::arithmetic::power2::is_pow2;
use vstd::prelude::*;

use crate::rooms::ConnectedRooms;

verus! {

#[verifier::external_type_specification]
#[verifier::external_body]
#[verifier::reject_recursive_types(T)]
pub struct ExSender<T>(tokio::sync::broadcast::Sender<T>);

#[verifier::external_type_specification]
#[verifier::external_body]
#[verifier::reject_recursive_types(T)]
pub struct ExReceiver<T>(tokio::sync::broadcast::Receiver<T>);

/// How many messages the channel of a sender holds for a receiver that lags behind.
pub uninterp spec fn slots(tx: Sender<String>) -> nat;

/// A sender of the channel that a receiver reads.
pub uninterp spec fn sender_of(rx: Receiver<String>) -> Sender<String>;

/// Whether a channel made for `capacity` messages holds `n`: the next power of two.
pub open spec fn rounded_up(capacity: nat, n: nat) -> bool {
    is_pow2(n as int) && capacity <= n < 2 * capacity
}

/// Calls `tokio::sync::broadcast::channel`.
///
/// Trusted: the two ends belong to one channel, which holds `capacity` messages rounded up to a
/// power of two. It is a new channel: no room of `connected`, each of which keeps a sender of its
/// channel alive, has it. The call panics on a capacity of zero and on one above half of
/// `usize::MAX`.
#[allow(unused_variables)]
#[verifier::external_body]
pub(crate) fn new_channel(capacity: usize, connected: &ConnectedRooms) -> (ends: (
    Sender<String>,
    Receiver<String>,
))
    requires
        0 < capacity <= usize::MAX / 2,
    ensures
        rounded_up(capacity as nat, slots(ends.0)),
        sender_of(ends.1) == ends.0,
        forall|k: Seq<char>| connected@.contains_key(k) ==> (#[trigger] connected@[k]).tx != ends.0,
{
    tokio::sync::broadcast::channel(capacity)
}

/// Calls `tokio::sync::broadcast::Sender::subscribe`.
///
/// Trusted: the receiver reads the channel of the sender. Which messages it will see is not
/// stated: that depends on what is sent after the call.
#[verifier::external_body]
pub(crate) fn subscribe(tx: &Sender<String>) -> (rx: Receiver<String>)
    ensures
        sender_of(rx) == *tx,
{
    tx.subscribe()
}

/// Calls `clone` on a `tokio::sync::broadcast::Sender`.
///
/// Trusted: the copy is a handle of the same channel, as good as the sender itself.
#[verifier::external_body]
pub(crate) fn clone_sender(tx: &Sender<String>) -> (copy: Sender<String>)
    ensures
        copy == *tx,
{
    tx.clone()
}

} // verus!
