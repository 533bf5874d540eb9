use vstd::prelude::*;

verus! {

/// Which of two loggers failed, with their errors.
pub enum MergedLoggerError<E1, E2> {
    Logger1(E1),
    Logger2(E2),
    Both(E1, E2),
}

impl<E1, E2> MergedLoggerError<E1, E2> {
    /// Both results when both loggers succeeded, else the errors of those
    /// that failed.
    pub fn from_results<T1, T2>(result_1: Result<T1, E1>, result_2: Result<T2, E2>) -> (r: Result<
        (T1, T2),
        Self,
    >)
        ensures
            match (result_1, result_2) {
                (Ok(t1), Ok(t2)) => r == Ok::<(T1, T2), Self>((t1, t2)),
                (Err(e1), Ok(_)) => r == Err::<(T1, T2), Self>(MergedLoggerError::Logger1(e1)),
                (Ok(_), Err(e2)) => r == Err::<(T1, T2), Self>(MergedLoggerError::Logger2(e2)),
                (Err(e1), Err(e2)) => r == Err::<(T1, T2), Self>(MergedLoggerError::Both(e1, e2)),
            },
    {
        match (result_1, result_2) {
            (Ok(t1), Ok(t2)) => Ok((t1, t2)),
            (Err(e1), Ok(_)) => Err(Self::Logger1(e1)),
            (Ok(_), Err(e2)) => Err(Self::Logger2(e2)),
            (Err(e1), Err(e2)) => Err(Self::Both(e1, e2)),
        }
    }

    /// Whether a reading was logged by either logger, when both succeeded.
    pub fn logged_by_either(result_1: Result<bool, E1>, result_2: Result<bool, E2>) -> (r: Result<
        bool,
        Self,
    >)
        ensures
            match (result_1, result_2) {
                (Ok(a), Ok(b)) => r == Ok::<bool, Self>(a || b),
                (Err(e1), Ok(_)) => r == Err::<bool, Self>(MergedLoggerError::Logger1(e1)),
                (Ok(_), Err(e2)) => r == Err::<bool, Self>(MergedLoggerError::Logger2(e2)),
                (Err(e1), Err(e2)) => r == Err::<bool, Self>(MergedLoggerError::Both(e1, e2)),
            },
    {
        match Self::from_results(result_1, result_2) {
            Ok((a, b)) => Ok(a || b),
            Err(e) => Err(e),
        }
    }
}

/// The outcome of logging to two tiers: the first tier's error if it
/// failed, else the second's, else success.
pub fn first_error<E>(result_1: Result<(), E>, result_2: Result<(), E>) -> (r: Result<(), E>)
    ensures
        match result_1 {
            Err(e) => r == Err::<(), E>(e),
            Ok(_) => r == result_2,
        },
{
    match result_1 {
        Err(e) => Err(e),
        Ok(_) => result_2,
    }
}

} // verus!
