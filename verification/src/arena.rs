//! The solid ground of a level, and how low it reaches.
use vstd::prelude::*;
use crate::fixed::div_toward_zero;
use crate::fixed::Vec2;

verus! {

/// Where a block of solid ground lies: the images of the two unit vectors of
/// the block's own frame, and of its centre. The block is the unit square of
/// that frame.
#[derive(Clone, Copy, Debug, PartialEq, Eq, Structural)]
pub struct BlockTransform {
    pub x_axis: Vec2,
    pub y_axis: Vec2,
    pub translation: Vec2,
}

/// The sign of the corner `corner` along the block's own x axis; the corners
/// are counted from the one at the positive end of both axes, counterclockwise.
pub open spec fn corner_x(corner: int) -> int {
    if corner == 0 || corner == 3 {
        1
    } else {
        -1
    }
}

/// The sign of the corner `corner` along the block's own y axis.
pub open spec fn corner_y(corner: int) -> int {
    if corner == 0 || corner == 1 {
        1
    } else {
        -1
    }
}

/// The height of one corner of a block.
pub open spec fn corner_height(block: BlockTransform, corner: int) -> int {
    block.translation.y + div_toward_zero(
        corner_x(corner) * block.x_axis.y + corner_y(corner) * block.y_axis.y,
        2,
    )
}

/// Whether `height` is the height of some corner of some block.
pub open spec fn is_corner_height(blocks: Seq<BlockTransform>, height: int) -> bool {
    exists|b: int, corner: int|
        0 <= b < blocks.len() && 0 <= corner < 4 && #[trigger] corner_height(blocks[b], corner) == height
}

/// Whether no corner of any block lies below `height`.
pub open spec fn is_below_all(blocks: Seq<BlockTransform>, height: int) -> bool {
    forall|b: int, corner: int|
        0 <= b < blocks.len() && 0 <= corner < 4 ==> height <= #[trigger] corner_height(blocks[b], corner)
}

fn height_of_corner(block: &BlockTransform, sign_x: i64, sign_y: i64, Ghost(corner): Ghost<int>) -> (height: i64)
    requires
        0 <= corner < 4,
        sign_x == corner_x(corner),
        sign_y == corner_y(corner),
    ensures
        height == corner_height(*block, corner),
{
    let spread: i64 = sign_x * (block.x_axis.y as i64) + sign_y * (block.y_axis.y as i64);
    (block.translation.y as i64) + spread / 2
}

/// The lowest corner of one block.
fn lowest_corner(block: &BlockTransform) -> (height: i64)
    ensures
        exists|corner: int| 0 <= corner < 4 && #[trigger] corner_height(*block, corner) == height,
        forall|corner: int| 0 <= corner < 4 ==> height <= #[trigger] corner_height(*block, corner),
{
    let first: i64 = height_of_corner(block, 1, 1, Ghost(0));
    let second: i64 = height_of_corner(block, -1, 1, Ghost(1));
    let third: i64 = height_of_corner(block, -1, -1, Ghost(2));
    let fourth: i64 = height_of_corner(block, 1, -1, Ghost(3));
    let mut height: i64 = first;
    if second < height {
        height = second;
    }
    if third < height {
        height = third;
    }
    if fourth < height {
        height = fourth;
    }
    assert(corner_height(*block, 0) == first && corner_height(*block, 1) == second && corner_height(*block, 2)
        == third && corner_height(*block, 3) == fourth);
    height
}

/// The height of the lowest corner of all blocks; none without blocks.
pub fn calculate_lowest_y(blocks: &Vec<BlockTransform>) -> (lowest: Option<i64>)
    ensures
        lowest is None <==> blocks@.len() == 0,
        lowest matches Some(height) ==> is_corner_height(blocks@, height as int) && is_below_all(
            blocks@,
            height as int,
        ),
{
    let mut lowest: Option<i64> = None;
    let mut k: usize = 0;
    while k < blocks.len()
        invariant
            0 <= k <= blocks.len(),
            lowest is None <==> k == 0,
            lowest matches Some(height) ==> is_corner_height(blocks@.take(k as int), height as int) && is_below_all(
                blocks@.take(k as int),
                height as int,
            ),
        decreases blocks.len() - k,
    {
        let here: i64 = lowest_corner(&blocks[k]);
        let ghost seen = blocks@.take(k as int);
        let ghost next = blocks@.take(k + 1);
        let ghost corner = choose|corner: int| 0 <= corner < 4 && #[trigger] corner_height(blocks@[k as int], corner) == here;
        let better: bool = match lowest {
            Some(height) => here < height,
            None => true,
        };
        proof {
            assert(next[k as int] == blocks@[k as int]);
            assert(corner_height(next[k as int], corner) == here);
            assert forall|b: int| 0 <= b < k implies seen[b] == next[b] by {}
            if let Some(height) = lowest {
                let (b, c) = choose|b: int, c: int|
                    0 <= b < seen.len() && 0 <= c < 4 && #[trigger] corner_height(seen[b], c) == height;
                assert(corner_height(next[b], c) == height);
                assert forall|b: int, c: int| 0 <= b < next.len() && 0 <= c < 4 implies (if better {
                    here
                } else {
                    height
                }) <= #[trigger] corner_height(next[b], c) by {
                    if b < k {
                        assert(height <= corner_height(seen[b], c));
                    }
                }
            }
        }
        if better {
            lowest = Some(here);
        }
        k += 1;
    }
    assert(blocks@.take(k as int) =~= blocks@);
    lowest
}

} // verus!
