//! Motion between two frames, block by block. A frame is cut into square blocks; for
//! each of them the nearby places in the other frame are tried, and the one where the
//! block differs least is taken.

use crate::binary64::{less, nan, rank, same_number};
use crate::model::Real;
use vstd::prelude::*;

verus! {

/// The side of a block: the shorter side of the frame, from 1 to 32 pixels.
pub open spec fn block_side(width: int, height: int) -> int {
    let shortest = if width < height {
        width
    } else {
        height
    };
    if shortest < 1 {
        1
    } else if shortest > 32 {
        32
    } else {
        shortest
    }
}

/// How many blocks it takes to cover a side.
pub open spec fn blocks_along(side: int, block: int) -> int {
    (side + block - 1) / block
}

/// How far a block is moved at most: half its side, from 1 to 12 pixels.
pub open spec fn reach(block: int) -> int {
    if block / 2 < 1 {
        1
    } else if block / 2 > 12 {
        12
    } else {
        block / 2
    }
}

/// The distance between the pixels of a block that are looked at.
pub open spec fn stride(block: int) -> int {
    if block / 8 < 1 {
        1
    } else {
        block / 8
    }
}

/// How a frame is cut into blocks.
#[derive(Clone, Copy, Debug, PartialEq, Eq, Structural)]
pub struct BlockGrid {
    pub block_size: u32,
    pub columns: u32,
    pub rows: u32,
    pub search_radius: i32,
    pub sample_step: u32,
}

/// Whether a grid covers a frame of some size.
pub open spec fn covers(g: BlockGrid, width: int, height: int) -> bool {
    &&& g.block_size == block_side(width, height)
    &&& g.columns == blocks_along(width, g.block_size as int)
    &&& g.rows == blocks_along(height, g.block_size as int)
    &&& g.search_radius == reach(g.block_size as int)
    &&& g.sample_step == stride(g.block_size as int)
}

/// The place, in a row of `count` blocks, of the block that holds a pixel; the last
/// one where the row ends before it.
pub open spec fn block_place(pixel: int, block: int, count: int) -> int {
    if pixel / block < count {
        pixel / block
    } else {
        count - 1
    }
}

fn count_blocks(side: u32, block: u32) -> (r: u32)
    requires
        1 <= block <= 32,
    ensures
        r == blocks_along(side as int, block as int),
{
    assert(blocks_along(side as int, block as int) <= side) by (nonlinear_arith)
        requires
            1 <= block,
            side >= 0,
            blocks_along(side as int, block as int) == (side + block - 1) / (block as int),
    ;
    ((side as u64 + block as u64 - 1) / block as u64) as u32
}

impl BlockGrid {
    /// The grid that covers a frame of `width` by `height` pixels.
    pub fn new(width: u32, height: u32) -> (r: BlockGrid)
        ensures
            covers(r, width as int, height as int),
    {
        let shortest = if width < height {
            width
        } else {
            height
        };
        let block_size: u32 = if shortest < 1 {
            1
        } else if shortest > 32 {
            32
        } else {
            shortest
        };
        let half: u32 = block_size / 2;
        let search_radius: i32 = if half < 1 {
            1
        } else if half > 12 {
            12
        } else {
            half as i32
        };
        let sample_step: u32 = if block_size / 8 < 1 {
            1
        } else {
            block_size / 8
        };
        BlockGrid {
            block_size,
            columns: count_blocks(width, block_size),
            rows: count_blocks(height, block_size),
            search_radius,
            sample_step,
        }
    }

    /// The place of the block that holds a pixel, counted row by row.
    pub fn at(&self, x: u32, y: u32) -> (r: usize)
        requires
            self.block_size > 0,
            self.columns > 0,
            self.rows > 0,
            self.rows * self.columns <= u32::MAX,
        ensures
            r == block_place(y as int, self.block_size as int, self.rows as int) * self.columns
                + block_place(x as int, self.block_size as int, self.columns as int),
            r < self.rows * self.columns,
    {
        let column: u32 = if x / self.block_size < self.columns {
            x / self.block_size
        } else {
            self.columns - 1
        };
        let row: u32 = if y / self.block_size < self.rows {
            y / self.block_size
        } else {
            self.rows - 1
        };
        assert(row * self.columns + column < self.rows * self.columns && 0 <= row * self.columns)
            by (nonlinear_arith)
            requires
                0 <= row < self.rows,
                0 <= column < self.columns,
        ;
        (row * self.columns + column) as usize
    }

    /// The first pixel of the `place`-th block of a row, and the pixel after its last,
    /// in a side of `side` pixels.
    pub fn span(&self, place: u32, side: u32) -> (r: (u32, u32))
        requires
            place * self.block_size <= u32::MAX,
        ensures
            r.0 == place * self.block_size,
            r.1 == if (place + 1) * self.block_size < side {
                (place + 1) * self.block_size
            } else {
                side as int
            },
    {
        assert((place + 1) * self.block_size == place * self.block_size + self.block_size
            && place * self.block_size >= 0) by (nonlinear_arith);
        let start: u32 = place * self.block_size;
        let end: u64 = start as u64 + self.block_size as u64;
        if end < side as u64 {
            (start, end as u32)
        } else {
            (start, side)
        }
    }
}

/// Where a pixel lands when it is moved, if it stays within a side of `side` pixels.
pub fn moved_within(pixel: u32, by: i32, side: u32) -> (r: Option<u32>)
    ensures
        r == (if 0 <= pixel + by < side {
            Some((pixel + by) as u32)
        } else {
            None
        }),
{
    let place: i64 = pixel as i64 + by as i64;
    if 0 <= place && place < side as i64 {
        Some(place as u32)
    } else {
        None
    }
}

/// The `k`-th move that is tried, right and down: from the topmost row to the lowest,
/// and from left to right in each.
pub open spec fn tried(k: int, radius: int) -> (int, int) {
    (k % (2 * radius + 1) - radius, k / (2 * radius + 1) - radius)
}

/// The square of the distance of a move.
pub open spec fn spread(motion: (int, int)) -> int {
    motion.0 * motion.0 + motion.1 * motion.1
}

/// Whether the `i`-th move is better than the `j`-th: it errs less, or as much and is
/// shorter, or is as short and goes further up, or as far up and further left.
pub open spec fn better(errors: Seq<Real>, radius: int, i: int, j: int) -> bool {
    let a = tried(i, radius);
    let b = tried(j, radius);
    ||| less(errors[i], errors[j])
    ||| same_number(errors[i], errors[j]) && {
        ||| spread(a) < spread(b)
        ||| spread(a) == spread(b) && (a.1 < b.1 || a.1 == b.1 && a.0 < b.0)
    }
}

/// Whether no move is better than the `k`-th.
pub open spec fn best(errors: Seq<Real>, radius: int, k: int) -> bool {
    &&& 0 <= k < errors.len()
    &&& forall|j: int| 0 <= j < errors.len() ==> !#[trigger] better(errors, radius, j, k)
}

/// Whether there is an error for each move that is tried, and each is a number.
pub open spec fn measured(errors: Seq<Real>, radius: int) -> bool {
    &&& 1 <= radius <= 12
    &&& errors.len() == (2 * radius + 1) * (2 * radius + 1)
    &&& forall|k: int| 0 <= k < errors.len() ==> !nan(#[trigger] errors[k])
}

fn move_tried(k: usize, radius: i32) -> (r: (i32, i32))
    requires
        1 <= radius <= 12,
        k < 625,
    ensures
        (r.0 as int, r.1 as int) == tried(k as int, radius as int),
        -12 <= r.0 <= 625,
        -12 <= r.1 <= 625,
{
    let width: i32 = 2 * radius + 1;
    let place: i32 = k as i32;
    assert(0 <= place % width <= place && 0 <= place / width <= place) by (nonlinear_arith)
        requires
            0 <= place,
            1 <= width,
    ;
    (place % width - radius, place / width - radius)
}

fn distance(motion: (i32, i32)) -> (r: i32)
    requires
        -12 <= motion.0 <= 625,
        -12 <= motion.1 <= 625,
    ensures
        r == spread((motion.0 as int, motion.1 as int)),
{
    assert(0 <= motion.0 * motion.0 <= 390_625 && 0 <= motion.1 * motion.1 <= 390_625)
        by (nonlinear_arith)
        requires
            -12 <= motion.0 <= 625,
            -12 <= motion.1 <= 625,
    ;
    motion.0 * motion.0 + motion.1 * motion.1
}

fn is_better(errors: &Vec<Real>, radius: i32, i: usize, j: usize) -> (r: bool)
    requires
        1 <= radius <= 12,
        errors@.len() <= 625,
        i < errors@.len(),
        j < errors@.len(),
    ensures
        r == better(errors@, radius as int, i as int, j as int),
{
    if errors[i].is_less_than(errors[j]) {
        return true;
    }
    if !errors[i].equals(errors[j]) {
        return false;
    }
    let a = move_tried(i, radius);
    let b = move_tried(j, radius);
    let far: i32 = distance(a);
    let near: i32 = distance(b);
    far < near || (far == near && (a.1 < b.1 || (a.1 == b.1 && a.0 < b.0)))
}

proof fn lemma_same_rank(a: Real, b: Real)
    requires
        !nan(a),
        !nan(b),
    ensures
        same_number(a, b) == (rank(a) == rank(b)),
{
}

/// The best of the moves that were tried, given how much the block differs after each.
pub fn best_motion(errors: &Vec<Real>, radius: i32) -> (r: (i32, i32))
    requires
        measured(errors@, radius as int),
    ensures
        exists|k: int|
            #[trigger] best(errors@, radius as int, k) && (r.0 as int, r.1 as int) == tried(
                k,
                radius as int,
            ),
{
    assert((2 * radius + 1) * (2 * radius + 1) <= 625 && (2 * radius + 1) * (2 * radius + 1) >= 9)
        by (nonlinear_arith)
        requires
            1 <= radius <= 12,
    ;
    let mut k: usize = 0;
    let mut i: usize = 1;
    proof {
        lemma_same_rank(errors@[0], errors@[0]);
    }
    while i < errors.len()
        invariant
            measured(errors@, radius as int),
            errors@.len() <= 625,
            k < i <= errors@.len(),
            forall|j: int|
                0 <= j < i ==> !#[trigger] better(errors@, radius as int, j, k as int),
        decreases errors@.len() - i,
    {
        if is_better(errors, radius, i, k) {
            proof {
                assert forall|j: int| 0 <= j <= i implies !#[trigger] better(
                    errors@,
                    radius as int,
                    j,
                    i as int,
                ) by {
                    lemma_same_rank(errors@[j], errors@[i as int]);
                    lemma_same_rank(errors@[i as int], errors@[k as int]);
                    lemma_same_rank(errors@[j], errors@[k as int]);
                    assert(j < i ==> !better(errors@, radius as int, j, k as int));
                }
            }
            k = i;
        }
        i += 1;
    }
    assert(best(errors@, radius as int, k as int));
    move_tried(k, radius)
}

/// The errors leave no choice of the best move.
pub proof fn law_best_motion_is_the_only_one(errors: Seq<Real>, radius: int, i: int, j: int)
    requires
        measured(errors, radius),
        best(errors, radius, i),
        best(errors, radius, j),
    ensures
        tried(i, radius) == tried(j, radius),
{
    lemma_same_rank(errors[i], errors[j]);
    lemma_same_rank(errors[j], errors[i]);
    assert(!better(errors, radius, i, j) && !better(errors, radius, j, i));
}

/// A block that differs nowhere less than where it is does not move.
pub proof fn law_still_blocks_stay(errors: Seq<Real>, radius: int, still: int, k: int)
    requires
        measured(errors, radius),
        0 <= still < errors.len(),
        tried(still, radius) == (0int, 0int),
        forall|j: int|
            0 <= j < errors.len() ==> !less(#[trigger] errors[j], errors[still]),
        best(errors, radius, k),
    ensures
        tried(k, radius) == (0int, 0int),
{
    lemma_same_rank(errors[still], errors[k]);
    assert(!better(errors, radius, still, k));
    assert(!less(errors[k], errors[still]));
    let m = tried(k, radius);
    assert(m.0 == 0 && m.1 == 0) by (nonlinear_arith)
        requires
            m.0 * m.0 + m.1 * m.1 <= 0,
    ;
}

/// Every pixel of a frame lies in a block of the grid that covers it.
pub proof fn law_blocks_cover_the_frame(g: BlockGrid, width: int, height: int, x: int, y: int)
    requires
        covers(g, width, height),
        0 <= x < width,
        0 <= y < height,
    ensures
        ({
            let column = block_place(x, g.block_size as int, g.columns as int);
            let row = block_place(y, g.block_size as int, g.rows as int);
            &&& 0 <= column < g.columns
            &&& 0 <= row < g.rows
            &&& column * g.block_size <= x < (column + 1) * g.block_size
            &&& row * g.block_size <= y < (row + 1) * g.block_size
        }),
{
    lemma_block_holds(x, width, g.block_size as int);
    lemma_block_holds(y, height, g.block_size as int);
}

proof fn lemma_block_holds(pixel: int, side: int, block: int)
    requires
        0 <= pixel < side,
        1 <= block,
    ensures
        0 <= pixel / block < blocks_along(side, block),
        (pixel / block) * block <= pixel < (pixel / block + 1) * block,
{
    let place = pixel / block;
    let count = (side + block - 1) / block;
    assert(place * block <= pixel < (place + 1) * block && place >= 0) by (nonlinear_arith)
        requires
            0 <= pixel,
            1 <= block,
            place == pixel / block,
    ;
    assert(count * block >= side) by (nonlinear_arith)
        requires
            1 <= block,
            count == (side + block - 1) / block,
    ;
    assert(place < count) by (nonlinear_arith)
        requires
            place * block <= pixel,
            pixel < side,
            side <= count * block,
            1 <= block,
    ;
}

} // verus!
