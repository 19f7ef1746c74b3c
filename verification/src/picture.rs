//! The picture that an image stands for, the writes that draw it, and what
//! holds of them.

use vstd::prelude::*;
use crate::color::packed;
use crate::geometry::{Point, Rectangle, Size, COORDINATE_END};
use crate::sink::PixelWrite;
use crate::view::{
    lemma_through_empty, lemma_through_push, lemma_window_to_origin, passes, remapped, through,
};

verus! {

/// What a decoded image is to this library: its size, and its pixels as
/// red, green and blue, row by row.
pub ghost struct Picture {
    pub size: Size,
    pub pixels: Seq<(u8, u8, u8)>,
}

impl Picture {
    /// The number of pixels that are drawn: all that the grid has room for,
    /// or all that there are where they are fewer.
    pub open spec fn count(self) -> nat {
        if self.pixels.len() <= self.size.area() {
            self.pixels.len()
        } else {
            self.size.area()
        }
    }

    /// The column of pixel `k` in the grid, counted row by row.
    pub open spec fn column(self, k: int) -> int {
        k % (self.size.width as int)
    }

    /// The row of pixel `k` in the grid, counted row by row.
    pub open spec fn row(self, k: int) -> int {
        k / (self.size.width as int)
    }

    /// The writes that draw the picture with its top-left corner at
    /// `top_left`: pixel `k` converted to 16 bits, at its column and row
    /// from there.
    pub open spec fn placed(self, top_left: Point) -> Seq<PixelWrite> {
        Seq::new(
            self.count(),
            |k: int|
                PixelWrite {
                    at: Point {
                        x: (top_left.x + self.column(k)) as i32,
                        y: (top_left.y + self.row(k)) as i32,
                    },
                    color: packed(self.pixels[k].0, self.pixels[k].1, self.pixels[k].2),
                },
        )
    }

    /// The writes that draw the rectangle `area` of the picture with the
    /// rectangle's top-left corner at the origin: of the writes that draw
    /// the whole picture at the origin, those inside `area`, in their order,
    /// each moved by as much as brings the corner of `area` to the origin.
    pub open spec fn sub_image(self, area: Rectangle) -> Seq<PixelWrite> {
        through(self.placed(Point::origin()), area, Point::origin())
    }

    /// The rectangle `area` of the picture, cell by cell: one write for each
    /// position of `area`, row by row, at the position counted from the
    /// corner of `area`, with the converted colour of the picture's pixel
    /// there.
    pub open spec fn cut(self, area: Rectangle) -> Seq<PixelWrite> {
        Seq::new(
            (area.size.width * area.size.height) as nat,
            |j: int|
                {
                    let column = j % (area.size.width as int);
                    let row = j / (area.size.width as int);
                    let k = self.index(area.top_left.x + column, area.top_left.y + row);
                    PixelWrite {
                        at: Point { x: column as i32, y: row as i32 },
                        color: packed(self.pixels[k].0, self.pixels[k].1, self.pixels[k].2),
                    }
                },
        )
    }

    /// The place of the pixel in the given column and row in the order of
    /// the pixels.
    pub open spec fn index(self, column: int, row: int) -> int {
        row * self.size.width + column
    }

    /// Whether the picture can be drawn with its top-left corner at
    /// `top_left`: each of its pixels has a position that is a point, and so
    /// has the place where it comes to lie.
    pub open spec fn placeable(self, top_left: Point) -> bool {
        self.size.is_empty() || {
            &&& self.size.width <= COORDINATE_END
            &&& self.size.height <= COORDINATE_END
            &&& top_left.x + self.size.width <= COORDINATE_END
            &&& top_left.y + self.size.height <= COORDINATE_END
        }
    }
}

/// Position `k` of a grid of `width` columns and `height` rows, counted row
/// by row, lies in a column and a row of the grid.
pub proof fn lemma_cell(k: int, width: int, height: int)
    requires
        0 <= k < width * height,
        0 < width,
    ensures
        0 <= k % width < width,
        0 <= k / width < height,
        k == (k / width) * width + k % width,
{
    vstd::arithmetic::div_mod::lemma_fundamental_div_mod(k, width);
    vstd::arithmetic::div_mod::lemma_mod_pos_bound(k, width);
    let q: int = k / width;
    let r: int = k % width;
    assert(k == width * q + r);
    assert(0 <= q < height) by (nonlinear_arith)
        requires
            0 <= k < width * height,
            0 < width,
            k == width * q + r,
            0 <= r < width,
    ;
    assert(width * q == q * width) by (nonlinear_arith);
}

/// The first `n` writes of a picture drawn at the origin, seen through the
/// window of the picture's size whose corner is put at `top_left`, are the
/// first `n` writes of the picture drawn at `top_left`.
proof fn lemma_whole_prefix(picture: Picture, top_left: Point, n: int)
    requires
        picture.placeable(top_left),
        0 <= n <= picture.count(),
    ensures
        through(
            picture.placed(Point::origin()).take(n),
            Rectangle::at_origin(picture.size),
            top_left,
        ) == picture.placed(top_left).take(n),
    decreases n,
{
    let window = Rectangle::at_origin(picture.size);
    let here = picture.placed(Point::origin());
    let there = picture.placed(top_left);
    if n == 0 {
        lemma_through_empty(window, top_left);
        assert(here.take(0) =~= Seq::empty());
        assert(there.take(0) =~= Seq::empty());
    } else {
        let k: int = n - 1;
        lemma_whole_prefix(picture, top_left, k);
        lemma_cell(k, picture.size.width as int, picture.size.height as int);
        assert(here.take(n) =~= here.take(k).push(here[k]));
        lemma_through_push(here.take(k), here[k], window, top_left);
        assert(passes(window, top_left, here[k].at));
        assert(remapped(window, top_left, here[k]) == there[k]);
        assert(there.take(n) =~= there.take(k).push(there[k]));
    }
}

/// A picture drawn at the origin and seen through the window of its own
/// size, with the window's corner put at `top_left`, is the picture drawn at
/// `top_left`.
pub proof fn lemma_whole(picture: Picture, top_left: Point)
    requires
        picture.placeable(top_left),
    ensures
        through(picture.placed(Point::origin()), Rectangle::at_origin(picture.size), top_left)
            == picture.placed(top_left),
{
    let n: int = picture.count() as int;
    lemma_whole_prefix(picture, top_left, n);
    assert(picture.placed(Point::origin()).take(n) =~= picture.placed(Point::origin()));
    assert(picture.placed(top_left).take(n) =~= picture.placed(top_left));
}

/// A picture that has a pixel for every position of its grid is drawn with
/// one write for each position, row by row from the top and within a row
/// from the left: the write for a column and a row comes at their index,
/// lies that far right of and below `top_left`, and has the converted colour
/// of the pixel at that index. No two writes share a position.
pub proof fn lemma_draw_covers(picture: Picture, top_left: Point)
    requires
        picture.placeable(top_left),
        picture.pixels.len() >= picture.size.area(),
    ensures
        picture.placed(top_left).len() == picture.size.width * picture.size.height,
        forall|k: int|
            0 <= k < picture.placed(top_left).len() ==> {
                &&& 0 <= #[trigger] picture.column(k) < picture.size.width
                &&& 0 <= picture.row(k) < picture.size.height
                &&& k == picture.index(picture.column(k), picture.row(k))
            },
        forall|k: int|
            0 <= k < picture.placed(top_left).len() ==> {
                &&& (#[trigger] picture.placed(top_left)[k]).at.x == top_left.x + picture.column(k)
                &&& picture.placed(top_left)[k].at.y == top_left.y + picture.row(k)
                &&& picture.placed(top_left)[k].color == packed(
                    picture.pixels[k].0,
                    picture.pixels[k].1,
                    picture.pixels[k].2,
                )
            },
        forall|column: int, row: int|
            0 <= column < picture.size.width && 0 <= row < picture.size.height ==> {
                &&& 0 <= #[trigger] picture.index(column, row) < picture.placed(top_left).len()
                &&& picture.column(picture.index(column, row)) == column
                &&& picture.row(picture.index(column, row)) == row
            },
        forall|j: int, k: int|
            0 <= j < k < picture.placed(top_left).len() ==> (#[trigger] picture.placed(
                top_left,
            )[j]).at != (#[trigger] picture.placed(top_left)[k]).at,
{
    let width: int = picture.size.width as int;
    let height: int = picture.size.height as int;
    let writes = picture.placed(top_left);
    assert(writes.len() == width * height);
    assert forall|k: int| 0 <= k < writes.len() implies {
        &&& 0 <= #[trigger] picture.column(k) < width
        &&& 0 <= picture.row(k) < height
        &&& k == picture.index(picture.column(k), picture.row(k))
    } by {
        assert(width > 0) by (nonlinear_arith)
            requires
                0 <= k < width * height,
                width >= 0,
        ;
        lemma_cell(k, width, height);
    }
    assert forall|column: int, row: int|
        0 <= column < width && 0 <= row < height implies {
        &&& 0 <= #[trigger] picture.index(column, row) < writes.len()
        &&& picture.column(picture.index(column, row)) == column
        &&& picture.row(picture.index(column, row)) == row
    } by {
        lemma_grid(picture.index(column, row), row, column, width, height);
    }
    assert forall|j: int, k: int| 0 <= j < k < writes.len() implies (#[trigger] writes[j]).at != (
    #[trigger] writes[k]).at by {
        assert(writes[j].at.x == top_left.x + picture.column(j));
        assert(writes[k].at.x == top_left.x + picture.column(k));
        assert(writes[j].at.y == top_left.y + picture.row(j));
        assert(writes[k].at.y == top_left.y + picture.row(k));
    }
}

/// In a grid of `width` columns and `height` rows, the position `k` counted
/// row by row lies in row `k / width` and column `k % width`.
pub proof fn lemma_grid(k: int, row: int, column: int, width: int, height: int)
    requires
        0 <= column < width,
        0 <= row,
        k == row * width + column,
    ensures
        k % width == column,
        k / width == row,
        row < height ==> k < width * height,
        row >= height ==> k >= width * height,
{
    vstd::arithmetic::div_mod::lemma_fundamental_div_mod_converse(k, width, row, column);
    assert(row < height ==> row * width + column < width * height) by (nonlinear_arith)
        requires
            0 <= column < width,
            0 <= row,
    ;
    assert(row >= height ==> row * width + column >= width * height) by (nonlinear_arith)
        requires
            0 <= column < width,
            0 <= row,
    ;
}

/// `v`, or the nearer of `low` and `high` where it lies outside them.
pub open spec fn clamp(v: int, low: int, high: int) -> int {
    if v < low {
        low
    } else if v > high {
        high
    } else {
        v
    }
}

/// The number of positions of `area` that come before the given column and
/// row when a grid is walked row by row.
pub open spec fn cells_before(area: Rectangle, column: int, row: int) -> int {
    let left = area.top_left.x as int;
    let top = area.top_left.y as int;
    let width = area.size.width as int;
    let height = area.size.height as int;
    clamp(row - top, 0, height) * width + if top <= row < top + height {
        clamp(column - left, 0, width)
    } else {
        0
    }
}

/// Of the writes that draw a full picture at the origin, those before the
/// given column and row leave behind the window `area` the first writes of
/// the cut: as many as `area` has positions before that column and row.
proof fn lemma_sub_image_prefix(picture: Picture, area: Rectangle, column: int, row: int)
    requires
        picture.placeable(Point::origin()),
        picture.pixels.len() >= picture.size.area(),
        area.is_within(picture.size),
        0 <= column < picture.size.width,
        0 <= row <= picture.size.height,
        row == picture.size.height ==> column == 0,
    ensures
        0 <= cells_before(area, column, row) <= picture.cut(area).len(),
        through(
            picture.placed(Point::origin()).take(picture.index(column, row)),
            area,
            Point::origin(),
        ) == picture.cut(area).take(cells_before(area, column, row)),
    decreases row, column,
{
    let origin = Point::origin();
    let plan = picture.placed(origin);
    let cut = picture.cut(area);
    let grid_width: int = picture.size.width as int;
    let grid_height: int = picture.size.height as int;
    let left: int = area.top_left.x as int;
    let top: int = area.top_left.y as int;
    let width: int = area.size.width as int;
    let height: int = area.size.height as int;
    let n: int = picture.index(column, row);
    if row == 0 && column == 0 {
        assert(n == 0) by (nonlinear_arith)
            requires
                n == 0 * grid_width + 0,
        ;
        assert(cells_before(area, column, row) == 0) by (nonlinear_arith)
            requires
                cells_before(area, column, row) == 0 * width + 0,
        ;
        lemma_through_empty(area, origin);
        assert(plan.take(0) =~= Seq::empty());
        assert(cut.take(0) =~= Seq::empty());
    } else {
        let before_column: int = if column > 0 {
            column - 1
        } else {
            grid_width - 1
        };
        let before_row: int = if column > 0 {
            row
        } else {
            row - 1
        };
        let m: int = picture.index(before_column, before_row);
        let done: int = cells_before(area, before_column, before_row);
        lemma_sub_image_prefix(picture, area, before_column, before_row);
        assert(n == m + 1) by (nonlinear_arith)
            requires
                n == row * grid_width + column,
                m == before_row * grid_width + before_column,
                (before_row == row && before_column + 1 == column) || (before_row + 1 == row
                    && before_column + 1 == grid_width && column == 0),
        ;
        lemma_grid(m, before_row, before_column, grid_width, grid_height);
        assert(0 <= m < plan.len());
        assert(plan[m].at == Point { x: before_column as i32, y: before_row as i32 });
        assert(plan.take(n) =~= plan.take(m).push(plan[m]));
        lemma_through_push(plan.take(m), plan[m], area, origin);
        let inside = area.contains(plan[m].at);
        lemma_window_to_origin(area, plan[m]);
        let rows: int = clamp(before_row - top, 0, height);
        let now: int = cells_before(area, column, row);
        assert(now == done + if inside {
            1int
        } else {
            0int
        } && (inside ==> done == (before_row - top) * width + (before_column - left)) && 0 <= now
            <= width * height) by (nonlinear_arith)
            requires
                0 <= left,
                0 <= top,
                0 <= width,
                0 <= height,
                left + width <= grid_width,
                top + height <= grid_height,
                0 <= before_column < grid_width,
                0 <= before_row < grid_height,
                (before_row == row && before_column + 1 == column) || (before_row + 1 == row
                    && before_column + 1 == grid_width && column == 0),
                inside == (left <= before_column < left + width && top <= before_row < top
                    + height),
                done == clamp(before_row - top, 0, height) * width + if top <= before_row < top
                    + height {
                    clamp(before_column - left, 0, width)
                } else {
                    0
                },
                now == clamp(row - top, 0, height) * width + if top <= row < top + height {
                    clamp(column - left, 0, width)
                } else {
                    0
                },
        ;
        if inside {
            lemma_grid(done, before_row - top, before_column - left, width, height);
            assert(picture.index(left + (before_column - left), top + (before_row - top)) == m);
            assert(cut[done] == remapped(area, origin, plan[m]));
            assert(cut.take(now) =~= cut.take(done).push(cut[done]));
        }
    }
}

/// The rectangle `area` of a picture that has a pixel for every position of
/// its grid is drawn with one write for each position of `area`, row by row,
/// at the position counted from the corner of `area`, in the converted colour
/// of the picture's pixel there: what is left of the whole picture behind
/// the window is the cut, cell by cell.
pub proof fn lemma_sub_image_is_cut(picture: Picture, area: Rectangle)
    requires
        picture.placeable(Point::origin()),
        picture.pixels.len() >= picture.size.area(),
        area.is_within(picture.size),
    ensures
        picture.sub_image(area) == picture.cut(area),
{
    let plan = picture.placed(Point::origin());
    let cut = picture.cut(area);
    let grid_width: int = picture.size.width as int;
    let grid_height: int = picture.size.height as int;
    let width: int = area.size.width as int;
    let height: int = area.size.height as int;
    if picture.size.is_empty() {
        assert(grid_width * grid_height == 0 && width * height == 0) by (nonlinear_arith)
            requires
                grid_width == 0 || grid_height == 0,
                0 <= width <= grid_width,
                0 <= height <= grid_height,
        ;
        assert(plan =~= Seq::empty());
        assert(cut =~= Seq::empty());
        lemma_through_empty(area, Point::origin());
    } else {
        lemma_sub_image_prefix(picture, area, 0, grid_height);
        let n: int = picture.index(0, grid_height);
        assert(n == grid_width * grid_height) by (nonlinear_arith)
            requires
                n == grid_height * grid_width + 0,
        ;
        assert(plan.take(n) =~= plan);
        assert(cells_before(area, 0, grid_height) == width * height) by (nonlinear_arith)
            requires
                cells_before(area, 0, grid_height) == height * width + 0,
        ;
        assert(cut.take(width * height) =~= cut);
    }
}

} // verus!
