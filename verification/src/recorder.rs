//! A sink in memory that keeps what it was asked for.

use vstd::prelude::*;
use crate::sink::{PixelSink, PixelWrite};

verus! {

/// The answer of a [`Recorder`] that has accepted as many writes as it was
/// made for.
#[derive(Clone, Copy, Debug, PartialEq, Eq, Structural)]
pub struct Refused;

/// A sink that keeps every write it is asked for, in order. It accepts the
/// first `limit` of them and refuses all later ones.
pub struct Recorder {
    asked: Vec<PixelWrite>,
    limit: usize,
}

impl Recorder {
    /// The writes that the recorder was asked for, oldest first.
    pub closed spec fn spec_asked(&self) -> Seq<PixelWrite> {
        self.asked@
    }

    /// The number of writes that the recorder accepts.
    pub closed spec fn spec_limit(&self) -> nat {
        self.limit as nat
    }

    /// A recorder that accepts `usize::MAX` writes.
    pub fn new() -> (r: Recorder)
        ensures
            r.spec_asked() == Seq::<PixelWrite>::empty(),
            r.spec_limit() == usize::MAX,
    {
        Recorder { asked: Vec::new(), limit: usize::MAX }
    }

    /// A recorder that accepts `limit` writes and refuses the ones after.
    pub fn with_limit(limit: usize) -> (r: Recorder)
        ensures
            r.spec_asked() == Seq::<PixelWrite>::empty(),
            r.spec_limit() == limit,
    {
        Recorder { asked: Vec::new(), limit }
    }

    /// The writes that the recorder was asked for, oldest first: the
    /// accepted ones are the first `limit` of them.
    pub fn asked(&self) -> (v: &Vec<PixelWrite>)
        ensures
            v@ == self.spec_asked(),
    {
        &self.asked
    }

    /// The number of writes that the recorder accepts.
    pub fn limit(&self) -> (n: usize)
        ensures
            n == self.spec_limit(),
    {
        self.limit
    }
}

impl PixelSink for Recorder {
    type Error = Refused;

    fn write(&mut self, write: PixelWrite) -> (outcome: Result<(), Refused>)
        ensures
            final(self).spec_asked() == old(self).spec_asked().push(write),
            final(self).spec_limit() == old(self).spec_limit(),
            outcome is Ok <==> old(self).spec_asked().len() < old(self).spec_limit(),
    {
        let accepted = self.asked.len() < self.limit;
        self.asked.push(write);
        if accepted {
            Ok(())
        } else {
            Err(Refused)
        }
    }
}

} // verus!
