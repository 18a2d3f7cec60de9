//! Effects: what a job gives back.
use vstd::prelude::*;

verus! {

/// The two parts of what a job does: the pure part, a value or an error
/// that is known without touching the world, and an optional I/O part that
/// realizes the value when the job runs. The planner reads the pure part
/// only; the I/O part is carried along for whoever runs the job.
pub struct Effect<T, E, F> {
    pure: Result<T, E>,
    io: Option<F>,
}

impl<T, E, F> Effect<T, E, F> {
    /// The pure part.
    pub closed spec fn projected(&self) -> Result<T, E> {
        self.pure
    }

    /// The I/O part.
    pub closed spec fn realization(&self) -> Option<F> {
        self.io
    }

    /// The effect of a value, without I/O.
    pub fn of(value: T) -> (r: Self)
        ensures
            r.projected() == Ok::<T, E>(value),
            r.realization() is None,
    {
        Effect { pure: Ok(value), io: None }
    }

    /// The effect that fails.
    pub fn from_error(error: E) -> (r: Self)
        ensures
            r.projected() == Err::<T, E>(error),
            r.realization() is None,
    {
        Effect { pure: Err(error), io: None }
    }

    /// The effect of a result, without I/O.
    pub fn from_result(result: Result<T, E>) -> (r: Self)
        ensures
            r.projected() == result,
            r.realization() is None,
    {
        Effect { pure: result, io: None }
    }

    /// The same pure part, with `io` to realize it.
    pub fn with_io(self, io: F) -> (r: Self)
        ensures
            r.projected() == self.projected(),
            r.realization() == Some(io),
    {
        Effect { pure: self.pure, io: Some(io) }
    }

    /// Whether the effect has an I/O part.
    pub fn has_io(&self) -> (r: bool)
        ensures
            r == self.realization() is Some,
    {
        self.io.is_some()
    }

    /// The pure part alone: the I/O part is dropped, not run.
    pub fn pure(self) -> (r: Result<T, E>)
        ensures
            r == self.projected(),
    {
        self.pure
    }

    /// Both parts, for whoever runs the effect.
    pub fn into_parts(self) -> (r: (Result<T, E>, Option<F>))
        ensures
            r.0 == self.projected(),
            r.1 == self.realization(),
    {
        (self.pure, self.io)
    }
}

impl<T, E, F: FnOnce(T) -> Result<T, E>> Effect<T, E, F> {
    /// Runs the effect: the pure part, and where it gave a value and there
    /// is an I/O part, the I/O part on that value. An error of the pure part
    /// comes back as it is, and the I/O part does not run.
    pub fn run(self) -> (r: Result<T, E>)
        requires
            self.projected() is Ok && self.realization() is Some ==> call_requires(
                self.realization()->0,
                (self.projected()->Ok_0,),
            ),
        ensures
            match self.projected() {
                Err(e) => r == Err::<T, E>(e),
                Ok(value) => match self.realization() {
                    None => r == Ok::<T, E>(value),
                    Some(io) => call_ensures(io, (value,), r),
                },
            },
    {
        match self.pure {
            Err(e) => Err(e),
            Ok(value) => match self.io {
                None => Ok(value),
                Some(io) => io(value),
            },
        }
    }
}

} // verus!
