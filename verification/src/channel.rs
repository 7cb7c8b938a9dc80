//! The single-use channel that carries one response from a handler to the
//! connection that waits for it.

use tokio::sync::oneshot::Sender;
use vstd::prelude::*;

verus! {

#[verifier::external_type_specification]
#[verifier::external_body]
#[verifier::reject_recursive_types(T)]
pub struct ExSender<T>(tokio::sync::oneshot::Sender<T>);

/// `Sender::send`: hands the message to the channel and uses the sender up.
/// Whether the receiver is still there is not ours to know; where it is
/// gone, the message comes back.
#[verifier::external_body]
pub(crate) fn hand_over<T>(sender: Sender<T>, message: T) -> (refused: Result<(), T>)
    ensures
        refused matches Err(back) ==> back == message,
{
    sender.send(message)
}

} // verus!
