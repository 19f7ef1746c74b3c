//! What a destination of pixels has to offer, and how a series of writes to
//! it is described.

use vstd::prelude::*;
use crate::geometry::Point;

verus! {

/// One pixel for a sink: a position and a packed 16-bit colour.
#[derive(Clone, Copy, Debug, PartialEq, Eq, Structural)]
pub struct PixelWrite {
    pub at: Point,
    pub color: u16,
}

/// A write that a sink was asked for, with the error that the sink refused
/// it with, if it did.
pub ghost struct Attempt<E> {
    pub write: PixelWrite,
    pub refusal: Option<E>,
}

/// The attempt made of a write and the sink's answer to it.
pub open spec fn attempt<E>(write: PixelWrite, outcome: Result<(), E>) -> Attempt<E> {
    Attempt {
        write,
        refusal: match outcome {
            Ok(_) => None,
            Err(error) => Some(error),
        },
    }
}

/// The attempts made of `writes` where the sink accepts every one.
pub open spec fn all_accepted<E>(writes: Seq<PixelWrite>) -> Seq<Attempt<E>> {
    Seq::new(writes.len(), |i: int| attempt(writes[i], Ok(())))
}

/// The attempts made of `planned` where the sink accepts the first `n`
/// writes and refuses the next with `error`, after which nothing is asked.
pub open spec fn refused_at<E>(planned: Seq<PixelWrite>, n: int, error: E) -> Seq<Attempt<E>>
    recommends
        0 <= n < planned.len(),
{
    all_accepted::<E>(planned.take(n)).push(attempt(planned[n], Err(error)))
}

/// Whether a sink whose history was `before` and now is `after` has been
/// asked for the writes of `planned`, in order and one at a time, up to the
/// first one that it refused, and `result` is what that leaves: `Ok` where it
/// accepted them all, and else the error of the write it refused, which is
/// the last that it was asked for.
pub open spec fn issued<E>(
    before: Seq<Attempt<E>>,
    after: Seq<Attempt<E>>,
    planned: Seq<PixelWrite>,
    result: Result<(), E>,
) -> bool {
    match result {
        Ok(_) => after == before + all_accepted::<E>(planned),
        Err(error) => {
            let n: int = after.len() - before.len() - 1;
            &&& 0 <= n < planned.len()
            &&& after == before + refused_at(planned, n, error)
        },
    }
}

/// One more accepted write after an accepted series is the longer accepted
/// series.
pub proof fn lemma_one_more_accepted<E>(
    before: Seq<Attempt<E>>,
    writes: Seq<PixelWrite>,
    write: PixelWrite,
)
    ensures
        (before + all_accepted::<E>(writes)).push(attempt(write, Ok(()))) == before
            + all_accepted::<E>(writes.push(write)),
{
    assert((before + all_accepted::<E>(writes)).push(attempt(write, Ok(()))) =~= before
        + all_accepted::<E>(writes.push(write)));
}

/// A refused write after the accepted first `n` writes of a plan, where it
/// is the plan's next, is the plan refused at `n`.
pub proof fn lemma_next_refused<E>(
    before: Seq<Attempt<E>>,
    planned: Seq<PixelWrite>,
    n: int,
    error: E,
)
    requires
        0 <= n < planned.len(),
    ensures
        (before + all_accepted::<E>(planned.take(n))).push(attempt(planned[n], Err(error)))
            == before + refused_at(planned, n, error),
{
    assert((before + all_accepted::<E>(planned.take(n))).push(attempt(planned[n], Err(error)))
        =~= before + refused_at(planned, n, error));
}

/// A destination that takes pixels one at a time.
///
/// A sink checks its own bounds and reports what goes wrong in `Error`.
/// Nothing is asked of how it answers.
pub trait PixelSink {
    /// What the sink reports when it refuses a write.
    type Error;

    /// Asks the sink for one write.
    fn write(&mut self, write: PixelWrite) -> (outcome: Result<(), Self::Error>);
}

/// A sink together with the record of what it was asked for: every write
/// that went to the sink through this value, oldest first, each with the
/// sink's answer.
pub struct Traced<S: PixelSink> {
    sink: S,
    log: Ghost<Seq<Attempt<S::Error>>>,
}

impl<S: PixelSink> Traced<S> {
    /// Every write that the sink was asked for through this value so far,
    /// oldest first.
    pub closed spec fn history(&self) -> Seq<Attempt<S::Error>> {
        self.log@
    }

    /// The sink.
    pub closed spec fn spec_sink(&self) -> &S {
        &self.sink
    }

    /// Takes the sink, with nothing asked of it yet.
    pub fn new(sink: S) -> (traced: Self)
        ensures
            traced.history() == Seq::<Attempt<S::Error>>::empty(),
            *traced.spec_sink() == sink,
    {
        Traced { sink, log: Ghost(Seq::empty()) }
    }

    /// Asks the sink for one write and hands its answer on.
    pub fn write(&mut self, write: PixelWrite) -> (outcome: Result<(), S::Error>)
        ensures
            final(self).history() == old(self).history().push(attempt(write, outcome)),
    {
        let outcome = self.sink.write(write);
        proof {
            self.log@ = self.log@.push(attempt(write, outcome));
        }
        outcome
    }

    /// The sink.
    #[verifier::when_used_as_spec(spec_sink)]
    pub fn sink(&self) -> (sink: &S)
        ensures
            sink == self.spec_sink(),
    {
        &self.sink
    }

    /// Gives the sink back.
    pub fn into_sink(self) -> (sink: S)
        ensures
            sink == *self.spec_sink(),
    {
        self.sink
    }
}

} // verus!
