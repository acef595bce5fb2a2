use vstd::prelude::*;

verus! {

/// A handle on an outcome that is either already at hand or still being
/// computed by `F`.
///
/// One turn of the handle either hands out the outcome at hand or forwards
/// whatever one poll of the wrapped computation gave, unchanged.
#[derive(Debug, PartialEq, Eq)]
pub enum FutureResult<T, E, F> {
    /// An outcome at hand; `None` once it has been handed out.
    Result(Option<Result<T, E>>),
    /// A computation that will produce the outcome.
    Future(F),
}

/// What a turn of a [`FutureResult`] asks of its driver.
#[derive(Debug, PartialEq, Eq)]
pub enum ResultStep<T, E> {
    /// The turn is over: this is the outcome.
    Ready(Result<T, E>),
    /// Poll the wrapped computation once and hand its answer on unchanged.
    Inner,
}

impl<T, E, F> FutureResult<T, E, F> {
    /// The outcome at hand was already handed out: the handle may not be
    /// advanced again.
    pub open spec fn spent(self) -> bool {
        self matches FutureResult::Result(None)
    }

    /// The answer of one turn, given `inner`, what one poll of the wrapped
    /// computation gives (`None` while it is not complete). `inner` is
    /// consulted on the `Future` variant only.
    pub open spec fn answer(self, inner: Option<Result<T, E>>) -> Option<Result<T, E>> {
        match self {
            FutureResult::Result(o) => o,
            FutureResult::Future(_) => inner,
        }
    }

    /// The handle after one turn.
    pub open spec fn after_turn(self) -> Self {
        match self {
            FutureResult::Result(_) => FutureResult::Result(None),
            FutureResult::Future(f) => FutureResult::Future(f),
        }
    }

    pub fn ok(ok: T) -> (r: Self)
        ensures
            r == FutureResult::<T, E, F>::Result(Some(Ok(ok))),
    {
        FutureResult::Result(Some(Ok(ok)))
    }

    pub fn err(err: E) -> (r: Self)
        ensures
            r == FutureResult::<T, E, F>::Result(Some(Err(err))),
    {
        FutureResult::Result(Some(Err(err)))
    }

    pub fn result(result: Result<T, E>) -> (r: Self)
        ensures
            r == FutureResult::<T, E, F>::Result(Some(result)),
    {
        FutureResult::Result(Some(result))
    }

    pub fn future(future: F) -> (r: Self)
        ensures
            r == FutureResult::<T, E, F>::Future(future),
    {
        FutureResult::Future(future)
    }

    pub fn is_spent(&self) -> (r: bool)
        ensures
            r == self.spent(),
    {
        match self {
            FutureResult::Result(o) => o.is_none(),
            FutureResult::Future(_) => false,
        }
    }

    /// Runs one turn. An outcome at hand is handed out and the slot left
    /// empty; on a computation, the driver is asked to poll it and forward
    /// its answer.
    pub fn poll_step(&mut self) -> (s: ResultStep<T, E>)
        requires
            !old(self).spent(),
        ensures
            *final(self) == old(self).after_turn(),
            match *old(self) {
                FutureResult::Result(Some(r)) => s == ResultStep::Ready(r),
                _ => s == ResultStep::<T, E>::Inner,
            },
    {
        match self {
            FutureResult::Result(slot) => {
                let r = slot.take();
                match r {
                    Some(r) => ResultStep::Ready(r),
                    None => ResultStep::Inner,
                }
            },
            FutureResult::Future(_) => ResultStep::Inner,
        }
    }
}

impl<T, E> ResultStep<T, E> {
    /// The answer of the turn that asked for this step, given `inner`, what
    /// one poll of the wrapped computation gave.
    pub open spec fn answer(self, inner: Option<Result<T, E>>) -> Option<Result<T, E>> {
        match self {
            ResultStep::Ready(r) => Some(r),
            ResultStep::Inner => inner,
        }
    }
}

impl<T, E, F> From<Result<T, E>> for FutureResult<T, E, F> {
    fn from(result: Result<T, E>) -> (r: Self) {
        Self::result(result)
    }
}

impl<T, E, F> vstd::std_specs::convert::FromSpecImpl<Result<T, E>> for FutureResult<T, E, F> {
    open spec fn obeys_from_spec() -> bool {
        true
    }

    open spec fn from_spec(v: Result<T, E>) -> Self {
        FutureResult::Result(Some(v))
    }
}

/// A step that a turn asks for yields the turn's answer: the step and the
/// answer of the handle agree for every answer of the wrapped computation.
pub proof fn lemma_step_answer<T, E, F>(
    h: FutureResult<T, E, F>,
    s: ResultStep<T, E>,
    inner: Option<Result<T, E>>,
)
    requires
        !h.spent(),
        match h {
            FutureResult::Result(Some(r)) => s == ResultStep::Ready(r),
            _ => s == ResultStep::<T, E>::Inner,
        },
    ensures
        s.answer(inner) == h.answer(inner),
{
}

/// The first turn of a handle made from a value yields `Ok` of that value,
/// whatever the wrapped computation would say.
pub proof fn lemma_ok_first_turn<T, E, F>(v: T, inner: Option<Result<T, E>>)
    ensures
        FutureResult::<T, E, F>::Result(Some(Ok(v))).answer(inner) == Some(Ok::<T, E>(v)),
        !FutureResult::<T, E, F>::Result(Some(Ok(v))).spent(),
{
}

/// The first turn of a handle made from an error yields `Err` of that error.
pub proof fn lemma_err_first_turn<T, E, F>(e: E, inner: Option<Result<T, E>>)
    ensures
        FutureResult::<T, E, F>::Result(Some(Err(e))).answer(inner) == Some(Err::<T, E>(e)),
        !FutureResult::<T, E, F>::Result(Some(Err(e))).spent(),
{
}

/// The first turn of a handle made from an outcome yields that outcome, and
/// the conversion from an outcome makes the same handle as `result`.
pub proof fn lemma_result_first_turn<T, E, F>(r: Result<T, E>, inner: Option<Result<T, E>>)
    ensures
        FutureResult::<T, E, F>::Result(Some(r)).answer(inner) == Some(r),
        <FutureResult<T, E, F> as vstd::std_specs::convert::FromSpec<Result<T, E>>>::from_spec(r)
            == FutureResult::<T, E, F>::Result(Some(r)),
{
}

/// Nesting is transparent: an outer pending handle that wraps a pending
/// handle that wraps a resolved one yields the innermost outcome on its first
/// turn, each layer forwarding the answer of the layer below it.
pub proof fn lemma_nesting_flattens<T, E, G>(r: Result<T, E>, below: Option<Result<T, E>>)
    ensures
        ({
            let innermost = FutureResult::<T, E, G>::Result(Some(r));
            let middle = FutureResult::<T, E, FutureResult<T, E, G>>::Future(innermost);
            let outer = FutureResult::<
                T,
                E,
                FutureResult<T, E, FutureResult<T, E, G>>,
            >::Future(middle);
            outer.answer(middle.answer(innermost.answer(below))) == Some(r)
        }),
{
}

/// Once the outcome at hand has been handed out, the handle is spent and may
/// not be advanced again; a computation never becomes spent by a turn.
pub proof fn lemma_spent_after_turn<T, E, F>(h: FutureResult<T, E, F>)
    ensures
        h matches FutureResult::Result(_) ==> h.after_turn().spent(),
        h matches FutureResult::Future(_) ==> !h.after_turn().spent(),
{
}

} // verus!
