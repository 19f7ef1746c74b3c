//! A window onto a picture, put in front of a sink.

use vstd::prelude::*;
use crate::geometry::{Point, Rectangle, COORDINATE_END};
use crate::sink::{attempt, PixelSink, PixelWrite, Traced};

verus! {

/// Where the position `p` of a picture lands in the sink when the top-left
/// corner of `window` is put at `corner`: `x` first, then `y`.
pub open spec fn landing(window: Rectangle, corner: Point, p: Point) -> (int, int) {
    (corner.x + (p.x - window.top_left.x), corner.y + (p.y - window.top_left.y))
}

/// Whether a write at `p` goes on to the sink: `p` lies in the window, and
/// where it lands is a point.
pub open spec fn passes(window: Rectangle, corner: Point, p: Point) -> bool {
    &&& window.contains(p)
    &&& landing(window, corner, p).0 <= i32::MAX
    &&& landing(window, corner, p).1 <= i32::MAX
}

/// The write that the sink is asked for in place of `write`.
pub open spec fn remapped(window: Rectangle, corner: Point, write: PixelWrite) -> PixelWrite
    recommends
        passes(window, corner, write.at),
{
    PixelWrite {
        at: Point {
            x: landing(window, corner, write.at).0 as i32,
            y: landing(window, corner, write.at).1 as i32,
        },
        color: write.color,
    }
}

/// The test that a write passes the window.
pub open spec fn passing(window: Rectangle, corner: Point) -> spec_fn(PixelWrite) -> bool {
    |w: PixelWrite| passes(window, corner, w.at)
}

/// The map from a write to the one that the sink is asked for in its place.
pub open spec fn remapping(window: Rectangle, corner: Point) -> spec_fn(PixelWrite) -> PixelWrite {
    |w: PixelWrite| remapped(window, corner, w)
}

/// What is left of `writes` behind the window: those that pass, in their
/// order, each at the place where it lands.
pub open spec fn through(writes: Seq<PixelWrite>, window: Rectangle, corner: Point) -> Seq<
    PixelWrite,
> {
    writes.filter(passing(window, corner)).map_values(remapping(window, corner))
}

/// Nothing is left of no writes.
pub proof fn lemma_through_empty(window: Rectangle, corner: Point)
    ensures
        through(Seq::empty(), window, corner) == Seq::<PixelWrite>::empty(),
{
    reveal(Seq::filter);
    assert(through(Seq::empty(), window, corner) =~= Seq::<PixelWrite>::empty());
}

/// One more write adds what it is remapped to where it passes the window,
/// and nothing where it does not.
pub proof fn lemma_through_push(
    writes: Seq<PixelWrite>,
    write: PixelWrite,
    window: Rectangle,
    corner: Point,
)
    ensures
        through(writes.push(write), window, corner) == if passes(window, corner, write.at) {
            through(writes, window, corner).push(remapped(window, corner, write))
        } else {
            through(writes, window, corner)
        },
{
    writes.lemma_filter_push(write, passing(window, corner));
    if passes(window, corner, write.at) {
        assert(through(writes.push(write), window, corner) =~= through(
            writes,
            window,
            corner,
        ).push(remapped(window, corner, write)));
    }
}

/// What is left of the first `n` writes is the start of what is left of
/// them all.
pub proof fn lemma_through_prefix(
    writes: Seq<PixelWrite>,
    n: int,
    window: Rectangle,
    corner: Point,
)
    requires
        0 <= n <= writes.len(),
    ensures
        through(writes.take(n), window, corner).len() <= through(writes, window, corner).len(),
        through(writes.take(n), window, corner) == through(writes, window, corner).take(
            through(writes.take(n), window, corner).len() as int,
        ),
    decreases writes.len() - n,
{
    let all = through(writes, window, corner);
    let part = through(writes.take(n), window, corner);
    if n == writes.len() {
        assert(writes.take(n) =~= writes);
        assert(part =~= all.take(part.len() as int));
    } else {
        let more = through(writes.take(n + 1), window, corner);
        lemma_through_prefix(writes, n + 1, window, corner);
        assert(writes.take(n + 1) =~= writes.take(n).push(writes[n]));
        lemma_through_push(writes.take(n), writes[n], window, corner);
        assert(part =~= more.take(part.len() as int));
        assert(part =~= all.take(part.len() as int));
    }
}

/// Where the write after the first `n` passes the window, what is left of
/// the first `n` is the start of what is left of all, and what the write is
/// remapped to is the next after that start.
pub proof fn lemma_through_next(
    writes: Seq<PixelWrite>,
    n: int,
    window: Rectangle,
    corner: Point,
)
    requires
        0 <= n < writes.len(),
        passes(window, corner, writes[n].at),
    ensures
        through(writes.take(n), window, corner).len() < through(writes, window, corner).len(),
        through(writes.take(n), window, corner) == through(writes, window, corner).take(
            through(writes.take(n), window, corner).len() as int,
        ),
        through(writes, window, corner)[through(writes.take(n), window, corner).len() as int]
            == remapped(window, corner, writes[n]),
{
    let all = through(writes, window, corner);
    let done = through(writes.take(n), window, corner);
    let moved = remapped(window, corner, writes[n]);
    let m: int = done.len() as int;
    lemma_through_prefix(writes, n + 1, window, corner);
    assert(writes.take(n + 1) =~= writes.take(n).push(writes[n]));
    lemma_through_push(writes.take(n), writes[n], window, corner);
    assert(done.push(moved) == all.take(m + 1));
    assert(all.take(m + 1)[m] == moved);
    assert(done =~= done.push(moved).take(m));
    assert(done =~= all.take(m));
}

/// Through a window whose corner is put at the origin and lies neither left
/// of it nor above it, a write passes exactly where it lies in the window,
/// and then lands at its own position less the window's corner.
pub proof fn lemma_window_to_origin(window: Rectangle, write: PixelWrite)
    requires
        0 <= window.top_left.x,
        0 <= window.top_left.y,
    ensures
        passes(window, Point::origin(), write.at) == window.contains(write.at),
        window.contains(write.at) ==> {
            &&& remapped(window, Point::origin(), write).at.x == write.at.x - window.top_left.x
            &&& remapped(window, Point::origin(), write).at.y == write.at.y - window.top_left.y
            &&& remapped(window, Point::origin(), write).color == write.color
        },
{
}

/// A sink that shows a window of what it is given on another sink, `target`:
/// a write inside `window` goes on to the target, moved so that the window's
/// top-left corner comes to lie at `corner`; any other write is dropped and
/// answered with `Ok`.
pub struct Clipped<'a, S: PixelSink> {
    pub target: &'a mut Traced<S>,
    pub window: Rectangle,
    pub corner: Point,
}

impl<'a, S: PixelSink> Clipped<'a, S> {
    /// A view of `target` through `window`, whose top-left corner is put at
    /// `corner`.
    pub fn new(target: &'a mut Traced<S>, window: Rectangle, corner: Point) -> (view: Self)
        ensures
            view.window == window,
            view.corner == corner,
            *view.target == *old(target),
            *final(view.target) == *final(target),
    {
        Clipped { target, window, corner }
    }
}

impl<'a, S: PixelSink> PixelSink for Clipped<'a, S> {
    type Error = S::Error;

    fn write(&mut self, write: PixelWrite) -> (outcome: Result<(), S::Error>)
        ensures
            final(self).window == old(self).window,
            final(self).corner == old(self).corner,
            *final(final(self).target) == *final(old(self).target),
            passes(old(self).window, old(self).corner, write.at) ==> final(self).target.history()
                == old(self).target.history().push(
                attempt(remapped(old(self).window, old(self).corner, write), outcome),
            ),
            !passes(old(self).window, old(self).corner, write.at) ==> outcome is Ok
                && final(self).target.history() == old(self).target.history(),
    {
        let x: i64 = self.corner.x as i64 + (write.at.x as i64 - self.window.top_left.x as i64);
        let y: i64 = self.corner.y as i64 + (write.at.y as i64 - self.window.top_left.y as i64);
        if self.window.contains(write.at) && x < COORDINATE_END && y < COORDINATE_END {
            let moved = PixelWrite { at: Point { x: x as i32, y: y as i32 }, color: write.color };
            self.target.write(moved)
        } else {
            Ok(())
        }
    }
}

} // verus!
