//! The image as something that can be drawn: whole, or one rectangle of it.

use vstd::prelude::*;
use tinyqoi::Qoi;
use crate::color::convert;
use crate::decoder::{decoded_pixels, decoded_size, image_size, next_pixel, pending, pixel_stream};
use crate::geometry::{Point, Rectangle, Size, COORDINATE_END};
use crate::picture::{lemma_grid, lemma_whole, Picture};
use crate::sink::{
    all_accepted, issued, lemma_next_refused, lemma_one_more_accepted, PixelSink, PixelWrite,
    Traced,
};
use crate::view::{
    lemma_through_empty, lemma_through_next, lemma_through_push, passes, remapped, through,
    Clipped,
};

verus! {

/// What went wrong when a rectangle of an image was to be drawn.
#[derive(Debug, PartialEq, Eq)]
pub enum DrawError<E> {
    /// The rectangle does not lie inside the image; nothing was written.
    RegionOutOfBounds,
    /// The sink refused a write with this error.
    Sink(E),
}

/// A decoded image that draws itself on sinks of 16-bit colour.
pub struct Wrapper<'a> {
    pub image: &'a Qoi<'a>,
}

impl<'a> View for Wrapper<'a> {
    type V = Picture;

    open spec fn view(&self) -> Picture {
        Picture {
            size: Size { width: decoded_size(*self.image).0, height: decoded_size(*self.image).1 },
            pixels: decoded_pixels(*self.image),
        }
    }
}

impl<'a> Wrapper<'a> {
    /// The size of the image.
    pub fn size(&self) -> (size: Size)
        ensures
            size == self@.size,
    {
        image_size(self.image)
    }

    /// Tells whether the image can be drawn with its top-left corner at
    /// `top_left`.
    pub fn can_place(&self, top_left: Point) -> (b: bool)
        ensures
            b == self@.placeable(top_left),
    {
        let size = self.size();
        size.is_empty() || (size.width as i64 <= COORDINATE_END && size.height as i64
            <= COORDINATE_END && top_left.x as i64 + size.width as i64 <= COORDINATE_END
            && top_left.y as i64 + size.height as i64 <= COORDINATE_END)
    }

    /// Draws the whole image with its top-left corner at `top_left`: asks
    /// the target for one write per pixel, row by row from the top and
    /// within a row from the left, each in the pixel's converted colour, and
    /// stops at the first that the target refuses, whose error it returns.
    /// An image whose bytes decode to fewer pixels than its size has
    /// positions is drawn as far as its pixels go; pixels beyond the last
    /// position are left out.
    pub fn draw<S: PixelSink>(&self, target: &mut Traced<S>, top_left: Point) -> (result:
        Result<(), S::Error>)
        requires
            self@.placeable(top_left),
        ensures
            issued(
                old(target).history(),
                final(target).history(),
                self@.placed(top_left),
                result,
            ),
    {
        let window = Rectangle::at_origin(self.size());
        let mut view = Clipped::new(target, window, top_left);
        let result = self.stream(&mut view);
        proof {
            lemma_whole(self@, top_left);
        }
        result
    }

    /// Draws the rectangle `area` of the image with the rectangle's top-left
    /// corner at the origin of the target. An `area` that does not lie
    /// inside the image is turned down before anything is written. Else the
    /// target is asked for one write per pixel of the image inside `area`,
    /// row by row, up to the first that it refuses, whose error is returned.
    pub fn draw_sub_image<S: PixelSink>(
        &self,
        target: &mut Traced<S>,
        area: &Rectangle,
    ) -> (result: Result<(), DrawError<S::Error>>)
        requires
            self@.placeable(Point::origin()),
        ensures
            match result {
                Ok(_) => area.is_within(self@.size) && issued(
                    old(target).history(),
                    final(target).history(),
                    self@.sub_image(*area),
                    Ok(()),
                ),
                Err(DrawError::Sink(error)) => area.is_within(self@.size) && issued(
                    old(target).history(),
                    final(target).history(),
                    self@.sub_image(*area),
                    Err(error),
                ),
                Err(DrawError::RegionOutOfBounds) => !area.is_within(self@.size)
                    && final(target).history() == old(target).history(),
            },
    {
        if !area.is_within(self.size()) {
            return Err(DrawError::RegionOutOfBounds);
        }
        let mut view = Clipped::new(target, *area, Point { x: 0, y: 0 });
        match self.stream(&mut view) {
            Ok(()) => Ok(()),
            Err(error) => Err(DrawError::Sink(error)),
        }
    }

    /// Sends the image's pixels, row by row and converted to 16 bits, to
    /// the view, each at its position in the image, until the view refuses
    /// one.
    fn stream<S: PixelSink>(&self, view: &mut Clipped<'_, S>) -> (result: Result<(), S::Error>)
        requires
            self@.placeable(Point::origin()),
        ensures
            final(view).window == old(view).window,
            final(view).corner == old(view).corner,
            *final(final(view).target) == *final(old(view).target),
            issued(
                old(view).target.history(),
                final(view).target.history(),
                through(self@.placed(Point::origin()), old(view).window, old(view).corner),
                result,
            ),
    {
        let size = self.size();
        let ghost picture = self@;
        let ghost plan = picture.placed(Point::origin());
        let ghost window = view.window;
        let ghost corner = view.corner;
        let ghost before = view.target.history();
        if size.is_empty() {
            proof {
                assert(size.width * size.height == 0) by (nonlinear_arith)
                    requires
                        size.width == 0 || size.height == 0,
                ;
                assert(plan =~= Seq::empty());
                lemma_through_empty(window, corner);
                assert(before =~= before + all_accepted::<S::Error>(
                    through(plan, window, corner),
                ));
            }
            return Ok(());
        }
        let mut stream = pixel_stream(self.image);
        let mut column: u32 = 0;
        let mut row: u32 = 0;
        let ghost mut k: int = 0;
        proof {
            assert(plan.take(0) =~= Seq::empty());
            lemma_through_empty(window, corner);
            assert(before =~= before + all_accepted::<S::Error>(
                through(plan.take(0), window, corner),
            ));
            assert(picture.pixels.skip(0) =~= picture.pixels);
        }
        while row < size.height
            invariant
                picture == self@,
                plan == picture.placed(Point::origin()),
                size == picture.size,
                0 < size.width <= COORDINATE_END,
                0 < size.height <= COORDINATE_END,
                column < size.width,
                row <= size.height,
                row == size.height ==> column == 0,
                k == row * size.width + column,
                0 <= k <= picture.pixels.len(),
                pending(stream) == picture.pixels.skip(k),
                window == old(view).window,
                corner == old(view).corner,
                before == old(view).target.history(),
                view.window == window,
                view.corner == corner,
                *final(view.target) == *final(old(view).target),
                view.target.history() == before + all_accepted::<S::Error>(
                    through(plan.take(k), window, corner),
                ),
            decreases size.width * size.height - k,
        {
            proof {
                lemma_grid(k, row as int, column as int, size.width as int, size.height as int);
            }
            match next_pixel(&mut stream) {
                None => {
                    proof {
                        assert(k == picture.pixels.len());
                        assert(plan.take(k) =~= plan);
                    }
                    return Ok(());
                },
                Some((r, g, b)) => {
                    let write = PixelWrite {
                        at: Point { x: column as i32, y: row as i32 },
                        color: convert(r, g, b),
                    };
                    proof {
                        assert(picture.pixels.skip(k)[0] == picture.pixels[k]);
                        assert(picture.pixels.skip(k).drop_first() =~= picture.pixels.skip(k + 1));
                        assert(write == plan[k]);
                        assert(plan.take(k + 1) =~= plan.take(k).push(write));
                        lemma_through_push(plan.take(k), write, window, corner);
                    }
                    let ghost done = through(plan.take(k), window, corner);
                    match view.write(write) {
                        Ok(()) => {
                            proof {
                                if passes(window, corner, write.at) {
                                    lemma_one_more_accepted::<S::Error>(
                                        before,
                                        done,
                                        remapped(window, corner, write),
                                    );
                                }
                            }
                        },
                        Err(error) => {
                            proof {
                                lemma_through_next(plan, k, window, corner);
                                lemma_next_refused(
                                    before,
                                    through(plan, window, corner),
                                    done.len() as int,
                                    error,
                                );
                            }
                            return Err(error);
                        },
                    }
                    let ghost old_column: u32 = column;
                    let ghost old_row: u32 = row;
                    column = column + 1;
                    if column == size.width {
                        column = 0;
                        row = row + 1;
                    }
                    proof {
                        assert((row as int) * size.width + column == k + 1) by (nonlinear_arith)
                            requires
                                k == old_row * size.width + old_column,
                                (column == old_column + 1 && row == old_row) || (column == 0
                                    && old_column + 1 == size.width && row == old_row + 1),
                        ;
                        k = k + 1;
                    }
                },
            }
        }
        proof {
            lemma_grid(k, row as int, column as int, size.width as int, size.height as int);
            assert(size.width * size.height == row * size.width) by (nonlinear_arith)
                requires
                    row == size.height,
            ;
            assert(plan.take(k) =~= plan);
        }
        Ok(())
    }
}

} // verus!
