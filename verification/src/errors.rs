use vstd::prelude::*;

verus! {

/// No receiver is registered under the target name; raised on send and
/// fatal to the sender actor.
#[derive(Clone, Copy, Debug, PartialEq, Eq, Structural)]
pub enum RoutingError {
    NoReceiver,
}

/// A supervised unit could not be registered at startup; fatal to process
/// bootstrap, since the pipeline cannot run without both halves.
#[derive(Clone, Copy, Debug, PartialEq, Eq, Structural)]
pub enum SupervisionError {
    RegistrationFailed,
}

/// A persistence task's sink call failed. The task aborts on it: the
/// failure is not retried, not reported to the supervisor, and not surfaced
/// to the sender.
#[derive(Clone, Copy, Debug, PartialEq, Eq, Structural)]
pub enum SinkError {
    CreateFailed,
    WriteFailed,
    FlushFailed,
}

} // verus!
