//! Tests for the reconciler bridge decisions and pacing.

use port_forward_controller::consts::result_code;
use port_forward_controller::consts::result_code::is_short_lifetime_error;
use port_forward_controller::reconciler::{
    cleanup_verdict, error_policy, lifetime_to_duration, mapping_lifetime_for_interval, Error,
    Params, ReconcileError,
};

#[test]
fn default_params() {
    let params = Params::default();
    assert_eq!(
        params.finalizer_name,
        "port-forward-controller.io/cleanup"
    );
    assert_eq!(params.pcp_client_command_timeout_secs, 60);
    assert_eq!(params.cleanup_requeue_secs, 10);
    assert_eq!(params.error_requeue_secs, 60);
}

#[test]
fn cleanup_in_progress_is_polled_on_the_cleanup_cadence() {
    let params = Params::default();
    assert_eq!(
        error_policy(
            &ReconcileError::CleanupFailed(Error::CleanUpInProgress),
            &params
        ),
        10
    );
    assert_eq!(
        error_policy(
            &ReconcileError::ApplyFailed(Error::CleanUpInProgress),
            &params
        ),
        60
    );
    assert_eq!(
        error_policy(&ReconcileError::CleanupFailed(Error::CommandSend), &params),
        60
    );
    assert_eq!(
        error_policy(&ReconcileError::ApplyFailed(Error::ReplyRxClosed), &params),
        60
    );
}

#[test]
fn cleanup_verdict_blocks_while_state_remains() {
    assert_eq!(cleanup_verdict(true), Err(Error::CleanUpInProgress));
    assert_eq!(cleanup_verdict(false), Ok(()));
}

#[test]
fn lifetime_to_duration_never_sleeps_zero() {
    assert_eq!(lifetime_to_duration(0), 1);
    assert_eq!(lifetime_to_duration(1), 1);
    assert_eq!(lifetime_to_duration(110), 110);
    assert_eq!(lifetime_to_duration(u32::MAX), u32::MAX as u64);
}

#[test]
fn mapping_lifetime_is_twice_the_interval_clamped() {
    assert_eq!(mapping_lifetime_for_interval(30), 60);
    assert_eq!(mapping_lifetime_for_interval(0), 0);
    assert_eq!(
        mapping_lifetime_for_interval(u32::MAX as u64),
        u32::MAX
    );
    assert_eq!(mapping_lifetime_for_interval(u64::MAX / 2), u32::MAX);
}

#[test]
fn short_lifetime_error_codes() {
    assert!(is_short_lifetime_error(result_code::NETWORK_FAILURE));
    assert!(is_short_lifetime_error(result_code::NO_RESOURCES));
    assert!(is_short_lifetime_error(result_code::USER_EX_QUOTA));
    assert!(!is_short_lifetime_error(result_code::SUCCESS));
    assert!(!is_short_lifetime_error(result_code::NOT_AUTHORIZED));
    assert!(!is_short_lifetime_error(result_code::UNSUPP_PROTOCOL));
}
