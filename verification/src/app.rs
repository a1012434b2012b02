use vstd::prelude::*;

use crate::cli::LaunchOptions;
use crate::error::AppError;
use crate::lifecycle::{EXIT_CANCELLED, EXIT_FAILURE};

verus! {

/// The launch options, until the editor takes them, and whether any export
/// of the session succeeded.
pub struct LaunchState {
    pub options: Option<LaunchOptions>,
    pub succeeded: bool,
}

impl LaunchState {
    pub fn new(options: LaunchOptions) -> (r: Self)
        ensures
            r.options == Some(options),
            !r.succeeded,
    {
        LaunchState { options: Some(options), succeeded: false }
    }

    /// Hands the launch options to the editor, once.
    pub fn take_launch_options(&mut self) -> (r: Result<LaunchOptions, AppError>)
        ensures
            final(self).options is None,
            final(self).succeeded == old(self).succeeded,
            take_outcome(*old(self), r),
    {
        match self.options.take() {
            Some(o) => Ok(o),
            None => Err(AppError::Internal(String::from_str("launch options were already consumed"))),
        }
    }

    /// Records that an export of this session succeeded.
    pub fn mark_succeeded(&mut self)
        ensures
            final(self).succeeded,
            final(self).options == old(self).options,
    {
        self.succeeded = true;
    }
}

/// The exit status of a session: 0 once any export succeeded, so staying
/// open and closing later still exits 0; otherwise only cancellation keeps
/// its own status and everything else is a failure.
pub open spec fn exit_status(requested: i32, succeeded: bool) -> i32 {
    if succeeded {
        0
    } else if requested == EXIT_CANCELLED {
        EXIT_CANCELLED
    } else {
        EXIT_FAILURE
    }
}

pub fn exit_code(requested: i32, succeeded: bool) -> (r: i32)
    ensures
        r == exit_status(requested, succeeded),
        r == 0 <==> succeeded,
{
    if succeeded {
        0
    } else if requested == EXIT_CANCELLED {
        EXIT_CANCELLED
    } else {
        EXIT_FAILURE
    }
}

/// What taking the launch options from `s` answers: the options while they
/// are there, else the error that they were already consumed.
pub open spec fn take_outcome(s: LaunchState, r: Result<LaunchOptions, AppError>) -> bool {
    match s.options {
        Some(o) => r == Ok::<LaunchOptions, AppError>(o),
        None => r matches Err(AppError::Internal(m)) && m@ == "launch options were already consumed"@,
    }
}

/// Launch options are handed out once: the first take gets them, and a
/// take on the state that the first one leaves is refused.
pub proof fn launch_options_taken_once(
    s0: LaunchState,
    first: Result<LaunchOptions, AppError>,
    s1: LaunchState,
    second: Result<LaunchOptions, AppError>,
)
    requires
        take_outcome(s0, first),
        s1.options is None,
        s1.succeeded == s0.succeeded,
        take_outcome(s1, second),
    ensures
        s0.options matches Some(o) ==> first == Ok::<LaunchOptions, AppError>(o),
        second matches Err(AppError::Internal(m)) && m@ == "launch options were already consumed"@,
{
}

/// Once an export succeeded the session exits 0, whatever status is asked
/// for; otherwise a cancelled session exits 130 and any other one 1.
pub proof fn success_exits_zero(requested: i32)
    ensures
        exit_status(requested, true) == 0,
        exit_status(requested, false) != 0,
        exit_status(130, false) == 130,
        requested != 130 ==> exit_status(requested, false) == 1,
{
}

} // verus!
