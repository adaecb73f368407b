//! Circles on the pixel grid.
//!
//! One eighth of a circle is walked column by column with integer arithmetic alone;
//! the outline and the filled disc follow from it by symmetry.

use crate::shape::Point;
use vstd::prelude::*;

verus! {

/// The largest radius that is rasterised. Up to it, the running decision value of
/// the walk, which stays between `-4 * radius` and `4 * radius + 7`, fits in an
/// `i32`.
pub const MAX_RADIUS: u32 = 0x1fff_fffe;

/// The value that decides, at `(dx, dy)`, whether the next column stays in the row:
/// it does where the value is negative, and is one row nearer the axis otherwise.
pub open spec fn decision(radius: int, dx: int, dy: int) -> int {
    2 * (dx + 1) * (dx + 1) + dy * dy + (dy - 1) * (dy - 1) - 2 * radius * radius + 4 * (radius
        - dy)
}

/// The row of the column that follows `(dx, dy)`.
pub open spec fn next_row(radius: int, dx: int, dy: int) -> int {
    if decision(radius, dx, dy) < 0 {
        dy
    } else {
        dy - 1
    }
}

/// The walk from `(dx, dy)` on: one offset in each column, until the column is no
/// longer left of the row.
pub open spec fn octant_from(radius: int, dx: int, dy: int) -> Seq<Point<i32>>
    decreases dy - dx + 1,
{
    let here = seq![Point { x: dx as i32, y: dy as i32 }];
    if dx >= dy {
        here
    } else if decision(radius, dx, dy) < 0 {
        here + octant_from(radius, dx + 1, dy)
    } else {
        here + octant_from(radius, dx + 1, dy - 1)
    }
}

/// The offsets from the centre of the pixels of one eighth of a circle: from the
/// point straight along the `y` axis to the diagonal.
pub open spec fn octant(radius: int) -> Seq<Point<i32>> {
    octant_from(radius, 0, radius)
}

/// `(dx, dy)` is a point that the walk can be at: in the first quadrant, at most one
/// column beyond the diagonal, and with `dx * dx + dy * dy` near `radius * radius`.
pub open spec fn on_walk(radius: int, dx: int, dy: int) -> bool {
    let excess = dx * dx + dy * dy - radius * radius;
    &&& 0 <= dx <= dy + 1
    &&& 0 <= dy <= radius
    &&& excess >= 0 || excess >= dy - 2 * radius + 2
    &&& excess <= 0 || excess <= dy - 1 || (dx > dy && excess <= dy)
}

/// The decision value in terms of how far the point is off the circle.
proof fn lemma_decision_by_excess(radius: int, dx: int, dy: int)
    ensures
        decision(radius, dx, dy) == 2 * (dx * dx + dy * dy - radius * radius) + 4 * dx - 6 * dy + 4
            * radius + 3,
{
    assert(2 * (dx + 1) * (dx + 1) == 2 * (dx * dx) + 4 * dx + 2) by (nonlinear_arith);
    assert((dy - 1) * (dy - 1) == dy * dy - 2 * dy + 1) by (nonlinear_arith);
    assert(2 * radius * radius == 2 * (radius * radius)) by (nonlinear_arith);
}

/// A step of the walk leads from a point of the walk to a point of the walk.
proof fn lemma_walk_goes_on(radius: int, dx: int, dy: int)
    requires
        on_walk(radius, dx, dy),
        dx < dy,
    ensures
        on_walk(radius, dx + 1, next_row(radius, dx, dy)),
{
    lemma_decision_by_excess(radius, dx, dy);
    assert((dx + 1) * (dx + 1) == dx * dx + 2 * dx + 1) by (nonlinear_arith);
    assert((dy - 1) * (dy - 1) == dy * dy - 2 * dy + 1) by (nonlinear_arith);
}

/// The decision value and the two amounts that it can change by are small.
proof fn lemma_decision_is_small(radius: int, dx: int, dy: int)
    requires
        on_walk(radius, dx, dy),
    ensures
        -4 * radius <= decision(radius, dx, dy) <= 4 * radius + 7,
        decision(radius, dx + 1, dy) == decision(radius, dx, dy) + 4 * (dx + 1) + 2,
        decision(radius, dx + 1, dy - 1) == decision(radius, dx, dy) + 4 * ((dx + 1) - (dy - 1))
            + 6,
{
    lemma_decision_by_excess(radius, dx, dy);
    lemma_decision_by_excess(radius, dx + 1, dy);
    lemma_decision_by_excess(radius, dx + 1, dy - 1);
    assert((dx + 1) * (dx + 1) == dx * dx + 2 * dx + 1) by (nonlinear_arith);
    assert((dy - 1) * (dy - 1) == dy * dy - 2 * dy + 1) by (nonlinear_arith);
}

/// What the walk from a point of the walk passes: every column once, in rows that
/// never rise, and only points of the walk; only its last offset is on or beyond
/// the diagonal.
proof fn lemma_walk(radius: int, dx: int, dy: int)
    requires
        on_walk(radius, dx, dy),
        radius <= i32::MAX - 1,
    ensures
        octant_from(radius, dx, dy).len() >= 1,
        dx + octant_from(radius, dx, dy).len() <= dy + 2,
        forall|i: int|
            0 <= i < octant_from(radius, dx, dy).len() ==> {
                let p = #[trigger] octant_from(radius, dx, dy)[i];
                &&& p.x == dx + i
                &&& p.y <= dy
                &&& on_walk(radius, p.x as int, p.y as int)
                &&& p.x < p.y <==> i + 1 < octant_from(radius, dx, dy).len()
            },
        forall|i: int|
            0 < i < octant_from(radius, dx, dy).len() ==> {
                let p = #[trigger] octant_from(radius, dx, dy)[i];
                let q = octant_from(radius, dx, dy)[i - 1];
                p.y == next_row(radius, q.x as int, q.y as int)
            },
    decreases dy - dx + 1,
{
    let walk = octant_from(radius, dx, dy);
    if dx < dy {
        let row = next_row(radius, dx, dy);
        let rest = octant_from(radius, dx + 1, row);
        lemma_walk_goes_on(radius, dx, dy);
        lemma_walk(radius, dx + 1, row);
        assert forall|i: int| 0 <= i < walk.len() implies {
            let p = #[trigger] walk[i];
            &&& p.x == dx + i
            &&& p.y <= dy
            &&& on_walk(radius, p.x as int, p.y as int)
            &&& p.x < p.y <==> i + 1 < walk.len()
        } by {
            if i > 0 {
                assert(walk[i] == rest[i - 1]);
            }
        }
        assert forall|i: int| 0 < i < walk.len() implies {
            let p = #[trigger] walk[i];
            let q = walk[i - 1];
            p.y == next_row(radius, q.x as int, q.y as int)
        } by {
            assert(walk[i] == rest[i - 1]);
            if i > 1 {
                assert(walk[i - 1] == rest[i - 2]);
            }
        }
    }
}

/// The octant hugs the circle. It starts straight along the axis, takes every column
/// once and never rises, stops at the first offset that is not left of the
/// diagonal, and each of its offsets lies less than one pixel from the circle.
pub proof fn lemma_octant_hugs_circle(radius: int)
    requires
        0 <= radius <= i32::MAX - 1,
    ensures
        octant(radius).len() >= 1,
        octant(radius).len() <= radius + 2,
        octant(radius)[0] == (Point { x: 0i32, y: radius as i32 }),
        forall|i: int|
            0 <= i < octant(radius).len() ==> {
                let p = #[trigger] octant(radius)[i];
                &&& p.x == i
                &&& 0 <= p.y <= radius
                &&& p.x < p.y <==> i + 1 < octant(radius).len()
                &&& p.x * p.x + p.y * p.y < (radius + 1) * (radius + 1)
                &&& radius >= 1 ==> (radius - 1) * (radius - 1) < p.x * p.x + p.y * p.y
            },
        forall|i: int|
            0 < i < octant(radius).len() ==> {
                let p = #[trigger] octant(radius)[i];
                let q = octant(radius)[i - 1];
                q.y - 1 <= p.y <= q.y
            },
{
    assert(on_walk(radius, 0, radius)) by (nonlinear_arith)
        requires
            0 <= radius,
    ;
    lemma_walk(radius, 0, radius);
    assert((radius + 1) * (radius + 1) == radius * radius + 2 * radius + 1) by (nonlinear_arith);
    assert((radius - 1) * (radius - 1) == radius * radius - 2 * radius + 1) by (nonlinear_arith);
}

/// The offsets of one eighth of a circle of the given radius, from the point
/// straight along the `y` axis to the diagonal.
pub fn get_octant_offsets(radius: u32) -> (offsets: Vec<Point<i32>>)
    requires
        radius <= MAX_RADIUS,
    ensures
        offsets@ == octant(radius as int),
{
    let mut offsets = Vec::with_capacity((radius as usize + 1) * 2);
    let mut dx: i32 = 0;
    let mut dy: i32 = radius as i32;

    offsets.push(Point::new(dx, dy));
    let mut d: i32 = 3 - (2 * radius as i32);
    proof {
        assert(on_walk(radius as int, 0, radius as int)) by (nonlinear_arith)
            requires
                0 <= radius,
        ;
        assert(d == decision(radius as int, 0, radius as int)) by (nonlinear_arith)
            requires
                d == 3 - 2 * radius,
        ;
        assert(offsets@.drop_last() + octant_from(radius as int, 0, radius as int) == octant(
            radius as int,
        ));
    }

    while dx < dy
        invariant
            radius <= MAX_RADIUS,
            on_walk(radius as int, dx as int, dy as int),
            d == decision(radius as int, dx as int, dy as int),
            offsets.len() >= 1,
            offsets@.last() == (Point { x: dx, y: dy }),
            offsets@.drop_last() + octant_from(radius as int, dx as int, dy as int) == octant(
                radius as int,
            ),
        decreases dy - dx + 1,
    {
        proof {
            lemma_walk_goes_on(radius as int, dx as int, dy as int);
            lemma_decision_is_small(radius as int, dx as int, dy as int);
            lemma_decision_is_small(
                radius as int,
                dx + 1,
                next_row(radius as int, dx as int, dy as int),
            );
        }
        let ghost walked = offsets@;
        let ghost rest = octant_from(
            radius as int,
            dx + 1,
            next_row(radius as int, dx as int, dy as int),
        );
        dx += 1;
        if d < 0 {
            d += 4 * dx + 2;
        } else {
            dy -= 1;
            d += 4 * (dx - dy) + 6;
        }
        offsets.push(Point::new(dx, dy));
        proof {
            assert(offsets@.drop_last() == walked);
            assert(walked == walked.drop_last() + seq![walked.last()]);
            assert(octant_from(radius as int, dx - 1, walked.last().y as int) == seq![
                walked.last(),
            ] + rest);
            assert(walked + rest == walked.drop_last() + (seq![walked.last()] + rest));
        }
    }
    proof {
        assert(offsets@ == offsets@.drop_last() + seq![offsets@.last()]);
    }
    offsets
}

/// The eight images of an offset under the symmetries of the circle, in the order
/// in which the outline takes them.
pub open spec fn mirrored(offset: Point<i32>) -> Seq<Point<i32>> {
    let dx = offset.x;
    let dy = offset.y;
    seq![
        Point { x: dx, y: dy },
        Point { x: dx, y: (-dy) as i32 },
        Point { x: (-dx) as i32, y: dy },
        Point { x: (-dx) as i32, y: (-dy) as i32 },
        Point { x: dy, y: dx },
        Point { x: dy, y: (-dx) as i32 },
        Point { x: (-dy) as i32, y: dx },
        Point { x: (-dy) as i32, y: (-dx) as i32 },
    ]
}

/// The right-hand ends of the four horizontal chords that an offset stands for, in
/// the order in which the disc takes them. The left-hand end of each is its image
/// across the vertical axis.
pub open spec fn chord_ends(offset: Point<i32>) -> Seq<Point<i32>> {
    let dx = offset.x;
    let dy = offset.y;
    seq![
        Point { x: dx, y: dy },
        Point { x: dy, y: dx },
        Point { x: dy, y: (-dx) as i32 },
        Point { x: dx, y: (-dy) as i32 },
    ]
}

/// The image of an offset across the vertical axis.
pub open spec fn across(offset: Point<i32>) -> Point<i32> {
    Point { x: (-offset.x) as i32, y: offset.y }
}

/// The pixels of the outline of a circle round `(x, y)`: for each offset of the
/// octant in turn, its eight images, each moved to the centre.
pub fn circle_outline(x: u32, y: u32, radius: u32) -> (pixels: Vec<Point<u32>>)
    requires
        radius <= MAX_RADIUS,
    ensures
        pixels.len() == 8 * octant(radius as int).len(),
        forall|i: int, k: int|
            0 <= i < octant(radius as int).len() && 0 <= k < 8 ==> #[trigger] pixels[8 * i + k]
                == (Point { x, y }).spec_add_signed(mirrored(octant(radius as int)[i])[k]),
{
    let center = Point::new(x, y);
    let offsets = get_octant_offsets(radius);
    let mut pixels: Vec<Point<u32>> = Vec::new();
    proof {
        lemma_octant_hugs_circle(radius as int);
    }
    let mut i: usize = 0;
    while i < offsets.len()
        invariant
            radius <= MAX_RADIUS,
            center == (Point { x, y }),
            offsets@ == octant(radius as int),
            i <= offsets.len(),
            pixels.len() == 8 * i,
            forall|j: int|
                0 <= j < offsets.len() ==> 0 <= (#[trigger] offsets[j]).x <= radius + 1 && 0
                    <= offsets[j].y <= radius,
            forall|j: int, k: int|
                0 <= j < i && 0 <= k < 8 ==> #[trigger] pixels[8 * j + k]
                    == center.spec_add_signed(mirrored(offsets[j])[k]),
        decreases offsets.len() - i,
    {
        let dx = offsets[i].x;
        let dy = offsets[i].y;
        let ghost before = pixels@;
        pixels.push(center.add_signed(Point::new(dx, dy)));
        pixels.push(center.add_signed(Point::new(dx, -dy)));
        pixels.push(center.add_signed(Point::new(-dx, dy)));
        pixels.push(center.add_signed(Point::new(-dx, -dy)));
        pixels.push(center.add_signed(Point::new(dy, dx)));
        pixels.push(center.add_signed(Point::new(dy, -dx)));
        pixels.push(center.add_signed(Point::new(-dy, dx)));
        pixels.push(center.add_signed(Point::new(-dy, -dx)));
        proof {
            assert forall|j: int, k: int| 0 <= j < i + 1 && 0 <= k < 8 implies #[trigger] pixels[8
                * j + k] == center.spec_add_signed(mirrored(offsets[j])[k]) by {
                if j < i {
                    assert(pixels[8 * j + k] == before[8 * j + k]);
                }
            }
        }
        i += 1;
    }
    pixels
}

/// The horizontal chords that fill a circle round `(x, y)`, each as its left and its
/// right end: for each offset of the octant in turn, four chords.
pub fn circle_spans(x: u32, y: u32, radius: u32) -> (spans: Vec<(Point<u32>, Point<u32>)>)
    requires
        radius <= MAX_RADIUS,
    ensures
        spans.len() == 4 * octant(radius as int).len(),
        forall|i: int, k: int|
            0 <= i < octant(radius as int).len() && 0 <= k < 4 ==> {
                let end = chord_ends(octant(radius as int)[i])[k];
                #[trigger] spans[4 * i + k] == (
                    (Point { x, y }).spec_add_signed(across(end)),
                    (Point { x, y }).spec_add_signed(end),
                )
            },
{
    let center = Point::new(x, y);
    let offsets = get_octant_offsets(radius);
    let mut spans: Vec<(Point<u32>, Point<u32>)> = Vec::new();
    proof {
        lemma_octant_hugs_circle(radius as int);
    }
    let mut i: usize = 0;
    while i < offsets.len()
        invariant
            radius <= MAX_RADIUS,
            center == (Point { x, y }),
            offsets@ == octant(radius as int),
            i <= offsets.len(),
            spans.len() == 4 * i,
            forall|j: int|
                0 <= j < offsets.len() ==> 0 <= (#[trigger] offsets[j]).x <= radius + 1 && 0
                    <= offsets[j].y <= radius,
            forall|j: int, k: int|
                0 <= j < i && 0 <= k < 4 ==> {
                    let end = chord_ends(offsets[j])[k];
                    #[trigger] spans[4 * j + k] == (
                        center.spec_add_signed(across(end)),
                        center.spec_add_signed(end),
                    )
                },
        decreases offsets.len() - i,
    {
        let dx = offsets[i].x;
        let dy = offsets[i].y;
        let ghost before = spans@;
        spans.push((center.add_signed(Point::new(-dx, dy)), center.add_signed(Point::new(dx, dy))));
        spans.push((center.add_signed(Point::new(-dy, dx)), center.add_signed(Point::new(dy, dx))));
        spans.push(
            (center.add_signed(Point::new(-dy, -dx)), center.add_signed(Point::new(dy, -dx))),
        );
        spans.push(
            (center.add_signed(Point::new(-dx, -dy)), center.add_signed(Point::new(dx, -dy))),
        );
        proof {
            assert forall|j: int, k: int| 0 <= j < i + 1 && 0 <= k < 4 implies {
                let end = chord_ends(offsets[j])[k];
                #[trigger] spans[4 * j + k] == (
                    center.spec_add_signed(across(end)),
                    center.spec_add_signed(end),
                )
            } by {
                if j < i {
                    assert(spans[4 * j + k] == before[4 * j + k]);
                }
            }
        }
        i += 1;
    }
    spans
}

} // verus!
