//! Small helpers that sort the outcome of one I/O attempt into a tagged
//! result: done, try again, not ready yet, or failed.
use vstd::prelude::*;

verus! {

#[verifier::external_type_specification]
#[verifier::external_body]
pub struct ExIoError(std::io::Error);

#[derive(Debug)]
/// What one attempt of an operation that may be interrupted came to.
pub enum Attempt<T, E> {
    /// It completed with this value.
    Done(T),
    /// It was interrupted and should simply be attempted again.
    Retry,
    /// It failed with this error, which goes to the caller.
    Fatal(E),
}

#[derive(Debug)]
/// The outcome of one poll of an operation that reports a byte count.
pub enum Polled<T, E> {
    /// It completed with this value.
    Ready(T),
    /// It cannot make progress yet; the task will be woken.
    NotReady,
    /// It failed with this error.
    Failed(E),
}

#[derive(Debug)]
/// A byte-count poll sorted by whether it made progress.
pub enum Nonzero<E> {
    /// Some bytes moved: this many, never 0.
    Count(usize),
    /// The operation completed but moved no byte: the end of a read stream,
    /// or a writer that takes nothing.
    Zero,
    /// Not ready yet; the caller passes that on.
    NotReady,
    /// It failed with this error, which goes to the caller.
    Fatal(E),
}

/// Relies on std::io::Error::kind: whether the error is of kind `Interrupted`.
#[verifier::external_body]
fn is_interrupted(e: &std::io::Error) -> bool {
    e.kind() == std::io::ErrorKind::Interrupted
}

/// Sorts the result of one attempt: a value is done, an interrupted error
/// means to try again, any other error is fatal.
pub fn attempt_outcome<T, E>(r: Result<T, E>, interrupted: bool) -> (a: Attempt<T, E>)
    ensures
        match r {
            Ok(t) => a == Attempt::<T, E>::Done(t),
            Err(e) => if interrupted {
                a == Attempt::<T, E>::Retry
            } else {
                a == Attempt::<T, E>::Fatal(e)
            },
        },
{
    match r {
        Ok(t) => Attempt::Done(t),
        Err(e) => if interrupted {
            Attempt::Retry
        } else {
            Attempt::Fatal(e)
        },
    }
}

/// Sorts the result of one I/O attempt: a value is done, an error of kind
/// `Interrupted` means to try again, and any other error is handed back.
pub fn retry_step<T>(r: Result<T, std::io::Error>) -> (a: Attempt<T, std::io::Error>)
    ensures
        match r {
            Ok(t) => a == Attempt::<T, std::io::Error>::Done(t),
            Err(e) => a == Attempt::<T, std::io::Error>::Retry || a == Attempt::<T, std::io::Error>::Fatal(e),
        },
{
    let interrupted = match &r {
        Ok(_) => false,
        Err(e) => is_interrupted(e),
    };
    attempt_outcome(r, interrupted)
}

/// Sorts a byte-count poll: a positive count is progress, a count of 0 is
/// its own outcome, and not-ready and errors pass through.
pub fn nonzero<E>(p: Polled<usize, E>) -> (r: Nonzero<E>)
    ensures
        match p {
            Polled::Ready(n) => if n == 0 {
                r == Nonzero::<E>::Zero
            } else {
                r == Nonzero::<E>::Count(n)
            },
            Polled::NotReady => r == Nonzero::<E>::NotReady,
            Polled::Failed(e) => r == Nonzero::<E>::Fatal(e),
        },
{
    match p {
        Polled::Ready(n) => if n == 0 {
            Nonzero::Zero
        } else {
            Nonzero::Count(n)
        },
        Polled::NotReady => Nonzero::NotReady,
        Polled::Failed(e) => Nonzero::Fatal(e),
    }
}

} // verus!
