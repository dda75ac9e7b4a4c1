//! Trusted bindings to the cross-context sinks: the one-shot and bounded
//! streaming channels through which a resolved completion is handed to the
//! task awaiting it on another execution context.

use vstd::prelude::*;

verus! {

#[verifier::external_type_specification]
#[verifier::external_body]
#[verifier::reject_recursive_types(T)]
pub struct ExOneshotSender<T>(futures::channel::oneshot::Sender<T>);

#[verifier::external_type_specification]
#[verifier::external_body]
#[verifier::reject_recursive_types(T)]
pub struct ExMpscSender<T>(futures::channel::mpsc::Sender<T>);

#[verifier::external_type_specification]
#[verifier::external_body]
#[verifier::reject_recursive_types(T)]
pub struct ExTrySendError<T>(futures::channel::mpsc::TrySendError<T>);

/// Relies on futures' one-shot `Sender::send`: the sender is consumed, so a
/// sink can be resolved at most once; the value is enqueued for the receiver
/// and `Ok(())` returned, or the receiver is already gone and the value comes
/// back unchanged as `Err`.
pub assume_specification<T>[ futures::channel::oneshot::Sender::<T>::send ](
    s: futures::channel::oneshot::Sender<T>,
    t: T,
) -> (r: Result<(), T>)
    ensures
        r matches Err(t2) ==> t2 == t,
;

/// Relies on futures' bounded `Sender::try_send`: delivery is attempted
/// without ever blocking; when the channel is full or disconnected the
/// message is handed back inside the error instead of being enqueued.
pub assume_specification<T>[ futures::channel::mpsc::Sender::<T>::try_send ](
    s: &mut futures::channel::mpsc::Sender<T>,
    msg: T,
) -> (r: Result<(), futures::channel::mpsc::TrySendError<T>>)
;

} // verus!
