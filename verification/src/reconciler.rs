//! The reconciler bridge: pacing parameters, error taxonomy and the
//! retry decisions.
//!
//! The surrounding framework invokes a reconciler per resource; the
//! reconciler converts the resource (see [`crate::convert`]), hands
//! commands to the engine, and decides from the replies when to requeue.
//! Those decisions live here.

use vstd::prelude::*;
use vstd::string::StringExecFns;
use crate::convert::ConversionError;

verus! {

/// How long an applied resource waits before its routine re-reconcile.
pub const APPLY_REQUEUE_SECS: u64 = 60;

/// The execution parameters of a reconciler.
#[derive(Debug, Clone, PartialEq, Eq)]
pub struct Params {
    /// The finalizer name that guards cleanup.
    pub finalizer_name: String,
    /// How long a command send to the engine may take before the engine
    /// counts as wedged, in seconds.
    pub pcp_client_command_timeout_secs: u64,
    /// How long to wait before checking again on a cleanup in progress,
    /// in seconds.
    pub cleanup_requeue_secs: u64,
    /// How long to wait before retrying after an error, in seconds.
    pub error_requeue_secs: u64,
}

impl Default for Params {
    /// The default pacing: a one-minute command timeout, ten seconds
    /// between cleanup checks, a minute between error retries.
    fn default() -> (r: Self)
        ensures
            r.finalizer_name@ == "port-forward-controller.io/cleanup"@,
            r.pcp_client_command_timeout_secs == 60,
            r.cleanup_requeue_secs == 10,
            r.error_requeue_secs == 60,
    {
        Params {
            finalizer_name: String::from_str("port-forward-controller.io/cleanup"),
            pcp_client_command_timeout_secs: 60,
            cleanup_requeue_secs: 10,
            error_requeue_secs: 60,
        }
    }
}

/// An error that can occur while reconciling one resource.
#[derive(Debug, Clone, PartialEq, Eq)]
pub enum Error {
    /// Sending a command to the engine timed out or failed.
    CommandSend,
    /// The resource could not be converted.
    Converter(ConversionError),
    /// The engine's reply channel closed before it answered.
    ReplyRxClosed,
    /// The cleanup is still in progress; the finalizer must stay.
    CleanUpInProgress,
}

/// A reconciler error together with the phase it happened in.
#[derive(Debug, Clone, PartialEq, Eq)]
pub enum ReconcileError {
    /// The apply path failed.
    ApplyFailed(Error),
    /// The cleanup path failed.
    CleanupFailed(Error),
}

/// The requeue delay an error earns: a cleanup still in progress is
/// polled on the cleanup cadence, every other error waits the error
/// interval.
pub open spec fn spec_requeue_secs(error: ReconcileError, params: Params) -> u64 {
    match error {
        ReconcileError::CleanupFailed(Error::CleanUpInProgress) => params.cleanup_requeue_secs,
        _ => params.error_requeue_secs,
    }
}

/// Choose the requeue delay, in seconds, for a failed reconciliation.
pub fn error_policy(error: &ReconcileError, params: &Params) -> (secs: u64)
    ensures
        secs == spec_requeue_secs(*error, *params),
{
    match error {
        ReconcileError::CleanupFailed(Error::CleanUpInProgress) => params.cleanup_requeue_secs,
        _ => params.error_requeue_secs,
    }
}

/// The cleanup verdict after the engine answered whether the identity
/// still has state: state left means the cleanup is still in progress
/// and the finalizer must stay; no state left allows its removal.
pub fn cleanup_verdict(has_state: bool) -> (r: Result<(), Error>)
    ensures
        r == (if has_state {
            Err::<(), Error>(Error::CleanUpInProgress)
        } else {
            Ok::<(), Error>(())
        }),
{
    if has_state {
        Err(Error::CleanUpInProgress)
    } else {
        Ok(())
    }
}

/// The seconds to sleep before acting on a reported lifetime: at least
/// one, so a zero lifetime never busy-loops.
pub fn lifetime_to_duration(lifetime: u32) -> (secs: u64)
    ensures
        secs == (if lifetime >= 1 {
            lifetime as u64
        } else {
            1u64
        }),
{
    if lifetime >= 1 {
        lifetime as u64
    } else {
        1
    }
}

/// The lifetime to request for mappings kept alive on the given
/// interval: twice the interval, saturated to the 32-bit maximum.
pub fn mapping_lifetime_for_interval(keepalive_interval_secs: u64) -> (lifetime: u32)
    ensures
        lifetime as int == (if 2 * (keepalive_interval_secs as int) <= u32::MAX as int {
            2 * (keepalive_interval_secs as int)
        } else {
            u32::MAX as int
        }),
{
    if keepalive_interval_secs <= (u32::MAX as u64) / 2 {
        (2 * keepalive_interval_secs) as u32
    } else {
        u32::MAX
    }
}

} // verus!
