//! Lifecycle state of a goal, and its wire encoding as a status code.

use vstd::prelude::*;

verus! {

/// Lifecycle state of a goal. `Unknown` is the default for any goal the
/// client has not yet observed a status broadcast for. `Succeeded`,
/// `Canceled` and `Aborted` are terminal.
#[derive(Clone, Copy, PartialEq, Eq, Structural, Debug)]
pub enum GoalStatus {
    Unknown,
    Accepted,
    Executing,
    Canceling,
    Succeeded,
    Canceled,
    Aborted,
}

/// Wire code of a status, in declaration order starting at 0.
pub open spec fn status_code(g: GoalStatus) -> int {
    match g {
        GoalStatus::Unknown => 0,
        GoalStatus::Accepted => 1,
        GoalStatus::Executing => 2,
        GoalStatus::Canceling => 3,
        GoalStatus::Succeeded => 4,
        GoalStatus::Canceled => 5,
        GoalStatus::Aborted => 6,
    }
}

/// The status a valid wire code decodes to.
pub open spec fn status_of_code(s: int) -> GoalStatus {
    if s == 0 {
        GoalStatus::Unknown
    } else if s == 1 {
        GoalStatus::Accepted
    } else if s == 2 {
        GoalStatus::Executing
    } else if s == 3 {
        GoalStatus::Canceling
    } else if s == 4 {
        GoalStatus::Succeeded
    } else if s == 5 {
        GoalStatus::Canceled
    } else {
        GoalStatus::Aborted
    }
}

impl GoalStatus {
    /// Encodes the status as its wire code.
    pub fn to_rcl(&self) -> (r: i8)
        ensures
            r == status_code(*self),
    {
        match self {
            GoalStatus::Unknown => 0,
            GoalStatus::Accepted => 1,
            GoalStatus::Executing => 2,
            GoalStatus::Canceling => 3,
            GoalStatus::Succeeded => 4,
            GoalStatus::Canceled => 5,
            GoalStatus::Aborted => 6,
        }
    }

    /// Decodes a wire code that is known to be valid.
    pub fn from_rcl(s: i8) -> (r: Self)
        requires
            0 <= s <= 6,
        ensures
            r == status_of_code(s as int),
            status_code(r) == s,
    {
        match s {
            0 => GoalStatus::Unknown,
            1 => GoalStatus::Accepted,
            2 => GoalStatus::Executing,
            3 => GoalStatus::Canceling,
            4 => GoalStatus::Succeeded,
            5 => GoalStatus::Canceled,
            _ => GoalStatus::Aborted,
        }
    }

    /// Decodes a wire code; any code outside 0..=6 is a protocol violation
    /// and yields `None`.
    pub fn try_from_rcl(s: i8) -> (r: Option<Self>)
        ensures
            0 <= s <= 6 ==> r == Some(status_of_code(s as int)),
            !(0 <= s <= 6) ==> r is None,
    {
        if 0 <= s && s <= 6 {
            Some(Self::from_rcl(s))
        } else {
            None
        }
    }
}

} // verus!
