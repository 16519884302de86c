//! The delivery channel between the broker and one subscriber.
//!
//! A channel is tokio's unbounded queue. The broker keeps the sending half
//! and hands the receiving half to whoever serves the subscriber's
//! connection. What this module states about tokio is believed, not proved.

use tokio::sync::mpsc::UnboundedReceiver;
use tokio::sync::mpsc::UnboundedSender;
use vstd::prelude::*;

verus! {

/// `tokio::sync::mpsc::UnboundedSender`, carried as an opaque value.
#[verifier::external_type_specification]
#[verifier::external_body]
#[verifier::reject_recursive_types(T)]
pub struct ExUnboundedSender<T>(UnboundedSender<T>);

/// `tokio::sync::mpsc::UnboundedReceiver`, carried as an opaque value.
#[verifier::external_type_specification]
#[verifier::external_body]
#[verifier::reject_recursive_types(T)]
pub struct ExUnboundedReceiver<T>(UnboundedReceiver<T>);

/// The events that have been put on the queue through this sending half,
/// oldest first. An event that the channel refused is not among them.
pub uninterp spec fn accepted(handle: UnboundedSender<String>) -> Seq<Seq<char>>;

/// The inbox behind each sending half of `handles`, in the same order.
pub open spec fn inboxes_behind(handles: Seq<UnboundedSender<String>>) -> Seq<Seq<Seq<char>>> {
    Seq::new(handles.len(), |i: int| accepted(handles[i]))
}

/// An inbox after one offer of `event`: one longer if the channel took it,
/// unchanged if it did not.
pub open spec fn after_offer(inbox: Seq<Seq<char>>, event: Seq<char>, taken: bool) -> Seq<
    Seq<char>,
> {
    if taken {
        inbox.push(event)
    } else {
        inbox
    }
}

/// Calls `tokio::sync::mpsc::unbounded_channel`, which makes a new, empty
/// queue and returns its two halves. The contract claims that nothing has
/// been put on the queue through the sending half yet.
#[verifier::external_body]
pub(crate) fn open_channel() -> (halves: (UnboundedSender<String>, UnboundedReceiver<String>))
    ensures
        accepted(halves.0) == Seq::<Seq<char>>::empty(),
{
    tokio::sync::mpsc::unbounded_channel()
}

/// Calls `UnboundedSender::send`, which never waits. It returns `Ok` after
/// putting the value at the back of the queue, and `Err` with nothing queued
/// when the receiving half has been closed or dropped. The contract claims
/// just that, of the events queued through this half; whether the channel
/// takes the event is not promised. The half is taken by unique reference so
/// that its history is a function of its value. (tokio ends the process
/// should one queue ever hold half of `usize::MAX` values; memory runs out
/// long before.)
#[verifier::external_body]
pub(crate) fn offer(handle: &mut UnboundedSender<String>, event: String) -> (taken: bool)
    ensures
        taken ==> accepted(*final(handle)) == accepted(*old(handle)).push(event@),
        !taken ==> accepted(*final(handle)) == accepted(*old(handle)),
{
    handle.send(event).is_ok()
}

} // verus!
