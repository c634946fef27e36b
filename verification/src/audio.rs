//! The audio helper thread's control loop: it performs no signal work and
//! only relays control messages until it is told to shut down.

use vstd::prelude::*;

verus! {

/// A control message for the audio thread.
#[non_exhaustive]
#[derive(Debug, Clone, Copy)]
pub enum AudioMsg {
    Shutdown,
    Pause,
    Unpause,
}

/// Whether a message ends the audio thread's loop: only `Shutdown` does;
/// every other message has no handler and is ignored.
pub fn should_shutdown(msg: AudioMsg) -> (b: bool)
    ensures
        b == (msg is Shutdown),
{
    match msg {
        AudioMsg::Shutdown => true,
        _ => false,
    }
}

#[verifier::external_type_specification]
#[verifier::external_body]
#[verifier::reject_recursive_types(T)]
pub struct ExReceiver<T>(std::sync::mpsc::Receiver<T>);

#[verifier::external_type_specification]
#[verifier::external_body]
#[verifier::reject_recursive_types(T)]
pub struct ExSyncSender<T>(std::sync::mpsc::SyncSender<T>);

/// Relies on std::sync::mpsc::Receiver::iter and Iterator::find: blocks,
/// receiving and discarding messages, until one passes the verified
/// `should_shutdown` test, and returns that message. The iteration itself
/// cannot be a verified loop, since the stream of messages is unbounded.
/// Panics if every sender is gone before such a message arrives, the
/// fatal outcome for a dead control channel.
#[verifier::external_body]
fn wait_for_shutdown(rx: &std::sync::mpsc::Receiver<AudioMsg>) -> (m: AudioMsg)
    ensures
        m is Shutdown,
{
    rx.iter().find(|m| should_shutdown(*m)).expect("main thread channel closed early")
}

/// Receives control messages until a `Shutdown` arrives, ignoring the
/// messages it has no handler for. The sending half is accepted for
/// symmetry with the host's channel pair; this loop never sends.
pub fn thread_start(
    tx: std::sync::mpsc::SyncSender<AudioMsg>,
    rx: std::sync::mpsc::Receiver<AudioMsg>,
) {
    let _ = tx;
    let last: AudioMsg = wait_for_shutdown(&rx);
    proof {
        assert(last is Shutdown);
    }
}

} // verus!
