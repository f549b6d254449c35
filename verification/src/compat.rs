//! Deadlines for operations that know of none.

use vstd::prelude::*;

verus! {

/// The operation did not complete within its deadline.
#[derive(Clone, Copy, Debug, PartialEq, Eq, Structural)]
pub struct Elapsed;

impl Elapsed {
    /// The error in words.
    pub fn message(&self) -> (text: String)
        ensures
            text@ == "deadline has elapsed"@,
    {
        "deadline has elapsed".to_owned()
    }
}

/// What an operation with a deadline gives: `result`, or nothing yet.
pub open spec fn is_timeout<T>(
    value: Option<T>,
    timer_over: bool,
    result: Option<Result<T, Elapsed>>,
) -> bool {
    match result {
        Some(Ok(v)) => value == Some(v),
        Some(Err(_)) => value is None && timer_over,
        None => value is None && !timer_over,
    }
}

/// Polls an operation that has a deadline. `value` is what the operation gave
/// when it was polled, and `timer_over` says whether its timer is over. The
/// operation comes first: a value is handed on though the deadline has come.
/// As soon as there is a result, the caller drops the operation and the timer.
pub fn timeout<T>(value: Option<T>, timer_over: bool) -> (result: Option<Result<T, Elapsed>>)
    ensures
        result == (match value {
            Some(v) => Some(Ok(v)),
            None => if timer_over {
                Some(Err(Elapsed))
            } else {
                None
            },
        }),
        is_timeout(value, timer_over, result),
{
    match value {
        Some(v) => Some(Ok(v)),
        None => if timer_over {
            Some(Err(Elapsed))
        } else {
            None
        },
    }
}

/// An operation that gave a value is never reported as late, one that did not is
/// reported exactly when its time is over, and the value is handed on unchanged.
pub proof fn values_beat_deadlines<T>(
    value: T,
    given: Option<T>,
    timer_over: bool,
    result: Option<Result<T, Elapsed>>,
)
    requires
        is_timeout(given, timer_over, result),
    ensures
        given == Some(value) ==> result == Some(Ok::<T, Elapsed>(value)),
        given is None && timer_over ==> result matches Some(Err(_)),
        given is None && !timer_over ==> result is None,
{
}

} // verus!
