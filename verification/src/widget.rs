//! Geometry of the 3D overlay: the ground grid drawn under the splats.
use vstd::prelude::*;

verus! {

/// Half the side of the ground grid, in world units.
pub const GRID_HALF_EXTENT: i32 = 10;

/// The grid's line endpoints: for each offset `i` from `-10` to `10`, a line
/// parallel to the X axis at `z = i` and one parallel to the Z axis at
/// `x = i`, all in the `y = 0` plane (two endpoints each).
pub open spec fn grid_point(k: int) -> (int, int, int) {
    let s = GRID_HALF_EXTENT as int;
    let i = k / 4 - s;
    let which = k % 4;
    if which == 0 {
        (-s, 0, i)
    } else if which == 1 {
        (s, 0, i)
    } else if which == 2 {
        (i, 0, -s)
    } else {
        (i, 0, s)
    }
}

/// The endpoints of the ground grid's lines, in drawing order.
pub fn grid_points() -> (points: Vec<(i32, i32, i32)>)
    ensures
        points@.len() == 4 * (2 * GRID_HALF_EXTENT + 1),
        forall|k: int|
            0 <= k < points@.len() ==> {
                let p = #[trigger] points@[k];
                (p.0 as int, p.1 as int, p.2 as int) == grid_point(k)
            },
{
    let size: i32 = GRID_HALF_EXTENT;
    let mut points: Vec<(i32, i32, i32)> = Vec::new();
    let mut i: i32 = -size;
    while i <= size
        invariant
            size == GRID_HALF_EXTENT,
            -size <= i <= size + 1,
            points@.len() == 4 * (i + size),
            forall|k: int|
                0 <= k < points@.len() ==> {
                    let p = #[trigger] points@[k];
                    (p.0 as int, p.1 as int, p.2 as int) == grid_point(k)
                },
        decreases size + 1 - i,
    {
        let ghost n = points@.len() as int;
        points.push((-size, 0, i));
        points.push((size, 0, i));
        points.push((i, 0, -size));
        points.push((i, 0, size));
        proof {
            assert forall|k: int| n <= k < n + 4 implies {
                let p = #[trigger] points@[k];
                (p.0 as int, p.1 as int, p.2 as int) == grid_point(k)
            } by {
                assert(k / 4 == i + size);
            }
        }
        i = i + 1;
    }
    points
}

/// The grid lies in the `y = 0` plane within `[-10, 10]` on both axes; for
/// each offset `i` from `-10` to `10`, in increasing order, it draws the line
/// from `(-10, 0, i)` to `(10, 0, i)` and then the line from `(i, 0, -10)` to
/// `(i, 0, 10)`.
pub proof fn law_grid_lines(i: int, k: int)
    ensures
        -10 <= i <= 10 ==> grid_point(4 * (i + 10)) == (-10int, 0int, i) && grid_point(4 * (i + 10)
            + 1) == (10int, 0int, i) && grid_point(4 * (i + 10) + 2) == (i, 0int, -10int)
            && grid_point(4 * (i + 10) + 3) == (i, 0int, 10int),
        0 <= k < 84 ==> grid_point(k).1 == 0 && -10 <= grid_point(k).0 <= 10 && -10 <= grid_point(
            k,
        ).2 <= 10,
{
    if -10 <= i <= 10 {
        let b = 4 * (i + 10);
        assert(b / 4 == i + 10 && b % 4 == 0);
        assert((b + 1) / 4 == i + 10 && (b + 1) % 4 == 1);
        assert((b + 2) / 4 == i + 10 && (b + 2) % 4 == 2);
        assert((b + 3) / 4 == i + 10 && (b + 3) % 4 == 3);
    }
}

} // verus!
