//! The wake signal: a `tokio` watch channel that carries no value.
//!
//! Nothing in this module is proved. It declares the two ends of the channel
//! and wraps the two calls that the registry's users make on them.

use vstd::prelude::*;

verus! {

/// The sending end of a watch channel, `tokio::sync::watch::Sender`. A value
/// of it is carried around and handed to `tokio`; nothing is known of what is
/// inside.
#[verifier::external_type_specification]
#[verifier::external_body]
#[verifier::reject_recursive_types(T)]
pub struct ExSender<T>(tokio::sync::watch::Sender<T>);

/// The receiving end of a watch channel, `tokio::sync::watch::Receiver`,
/// carried around in the same way.
#[verifier::external_type_specification]
#[verifier::external_body]
#[verifier::reject_recursive_types(T)]
pub struct ExReceiver<T>(tokio::sync::watch::Receiver<T>);

/// Calls `tokio::sync::watch::channel` with the unit value, which makes a
/// fresh channel and returns its two ends. Nothing is claimed of them.
#[verifier::external_body]
pub(crate) fn open_channel() -> (ends: (
    tokio::sync::watch::Sender<()>,
    tokio::sync::watch::Receiver<()>,
)) {
    tokio::sync::watch::channel(())
}

/// Calls `tokio::sync::watch::Sender::send` with the unit value and reports
/// whether it returned `Ok`. It returns an error when no receiver is left, so
/// nothing is claimed of the answer. The call takes the channel's write lock
/// for a moment, and so waits for as long as somebody holds a borrow of the
/// channel's value; this library never takes one.
#[verifier::external_body]
pub(crate) fn fire(signal: &tokio::sync::watch::Sender<()>) -> (delivered: bool) {
    signal.send(()).is_ok()
}

} // verus!
