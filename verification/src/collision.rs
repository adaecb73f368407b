//! Where a moving ball first touches a peg, and how it leaves it.
//!
//! The ball's path in one tick is a straight line, and the ball touches the peg where
//! its centre comes within the sum of the two radii of the peg's centre: where the
//! line crosses a circle of that radius. The crossing is found by solving a
//! quadratic. Square roots are taken by a function that the caller hands in; the
//! preconditions that reach through its answers take a predicate `then`, as those of
//! [`crate::shape`] do.

use crate::poggle::{Ball, Bounce, Peg};
use crate::shape::{
    answers, can_ask, can_magnitude, can_solve_quadratic, exact_scalar, is_function, magnitude,
    solve_quadratic, spec_magnitude, spec_solve_quadratic, Body, Number, Point, Shape,
};
use vstd::prelude::*;
use vstd::std_specs::cmp::{PartialEqSpec, PartialOrdIs, PartialOrdSpec};
use vstd::std_specs::convert::FromSpec;
use vstd::std_specs::ops::{AddSpec, DivSpec, MulSpec, SubSpec};

verus! {

/// Of two solutions, the one nearer to `at`; the second where both are as near.
pub open spec fn spec_nearer<T: Number + From<i8>>(roots: (T, T), at: T) -> T {
    if spec_magnitude(roots.0.sub_spec(at)).is_lt(&spec_magnitude(roots.1.sub_spec(at))) {
        roots.0
    } else {
        roots.1
    }
}

/// Both distances from `at` can be computed.
pub open spec fn can_nearer<T: Number + From<i8>>(roots: (T, T), at: T) -> bool {
    &&& roots.0.sub_req(at)
    &&& roots.1.sub_req(at)
    &&& can_magnitude(roots.0.sub_spec(at))
    &&& can_magnitude(roots.1.sub_spec(at))
}

/// Of two solutions, the one nearer to `at`: the crossing that a ball at `at` reaches
/// first.
pub fn nearer<T: Number + From<i8>>(roots: (T, T), at: T) -> (chosen: T)
    requires
        exact_scalar::<T>(),
        can_nearer(roots, at),
    ensures
        chosen == spec_nearer(roots, at),
{
    if magnitude(roots.0 - at) < magnitude(roots.1 - at) {
        roots.0
    } else {
        roots.1
    }
}

/// A ball that moves by `heading` moves away from a point at `offset` from it: one of
/// the two is negative and the other is not.
pub open spec fn spec_heads_away<T: Number + From<i8>>(heading: T, offset: T) -> bool {
    heading.is_lt(&T::from_spec(0i8)) != offset.is_lt(&T::from_spec(0i8))
}

/// Whether a ball that moves by `heading` moves away from a point at `offset` from it.
pub fn heads_away<T: Number + From<i8>>(heading: T, offset: T) -> (away: bool)
    requires
        exact_scalar::<T>(),
    ensures
        away == spec_heads_away(heading, offset),
{
    (heading < T::from(0i8)) != (offset < T::from(0i8))
}

/// `e` can be the part of its speed that a ball keeps in a bounce: more than nothing,
/// and no more than all of it.
pub open spec fn is_elasticity<T: Number + From<i8>>(e: T) -> bool {
    T::from_spec(0i8).is_lt(&e) && e.is_le(&T::from_spec(1i8))
}

/// The travel of a ball in one tick, and the peg that it may touch.
#[derive(Clone, Copy, Debug)]
pub struct Sweep<T: Number> {
    /// Where the ball's centre is.
    pub from: Point<T>,
    /// How far the ball moves in this tick.
    pub movement: Point<T>,
    /// The peg's centre.
    pub center: Point<T>,
    /// The distance between the centres at which ball and peg touch: the sum of
    /// their radii.
    pub reach: T,
}

impl<T: Number + From<i8>> Sweep<T> {
    /// The peg is too far away to be touched in this tick, where the ball travels
    /// `travel`: the centres are further apart than reach and travel together.
    pub open spec fn is_out_of_reach_given(self, travel: T) -> bool {
        let limit = self.reach.add_spec(travel);
        self.from.spec_distance_to_squared(self.center).is_gt(&limit.mul_spec(limit))
    }

    /// The peg is too far away to be touched in this tick.
    pub open spec fn spec_is_out_of_reach<R: Fn(T) -> T>(self, root: R) -> bool {
        self.is_out_of_reach_given(self.movement.spec_length(root))
    }

    /// The first test can be made, and `then` holds of its result.
    pub open spec fn can_is_out_of_reach<R: Fn(T) -> T>(
        self,
        root: R,
        then: spec_fn(bool) -> bool,
    ) -> bool {
        &&& self.from.can_measure_to(self.center)
        &&& self.movement.can_dot(self.movement)
        &&& can_ask(
            root,
            self.movement.spec_length_squared(),
            |travel: T|
                {
                    &&& self.reach.add_req(travel)
                    &&& self.reach.add_spec(travel).mul_req(self.reach.add_spec(travel))
                    &&& then(self.is_out_of_reach_given(travel))
                },
        )
    }

    /// Whether the peg is too far away to be touched in this tick.
    pub fn is_out_of_reach<R: Fn(T) -> T>(&self, root: &R) -> (out: bool)
        requires
            exact_scalar::<T>(),
            is_function(*root),
            self.can_is_out_of_reach(*root, |out: bool| true),
        ensures
            out == self.spec_is_out_of_reach(*root),
            forall|then: spec_fn(bool) -> bool| #[trigger]
                self.can_is_out_of_reach(*root, then) ==> then(out),
    {
        let limit = self.reach + self.movement.length(root);
        self.from.distance_to_squared(self.center) > limit * limit
    }

    /// The ball moves so nearly straight up or down that its path is taken to be
    /// vertical: it moves less than one unit sideways.
    pub open spec fn spec_is_steep(self) -> bool {
        spec_magnitude(self.movement.x).is_lt(&T::from_spec(1i8))
    }

    /// Whether the path is taken to be vertical.
    pub fn is_steep(&self) -> (steep: bool)
        requires
            exact_scalar::<T>(),
            can_magnitude(self.movement.x),
        ensures
            steep == self.spec_is_steep(),
    {
        magnitude(self.movement.x) < T::from(1i8)
    }

    /// The quadratic in `y` whose solutions are the heights at which a vertical path
    /// through `from` crosses the circle of the given reach round the peg: with
    /// `(p, q)` the peg's centre, `r` the reach and `d` the path's `x`,
    /// `y * y - 2 * q * y + (p * p - r * r + q * q - 2 * d * p + d * d)`.
    pub open spec fn spec_steep_quadratic(self) -> (T, T, T) {
        let p = self.center.x;
        let q = self.center.y;
        let r = self.reach;
        let d = self.from.x;
        (
            T::from_spec(1i8),
            T::from_spec(-2i8).mul_spec(q),
            p.mul_spec(p).sub_spec(r.mul_spec(r)).add_spec(q.mul_spec(q)).sub_spec(
                T::from_spec(2i8).mul_spec(d).mul_spec(p),
            ).add_spec(d.mul_spec(d)),
        )
    }

    /// The coefficients of the vertical case can be computed.
    pub open spec fn can_steep_quadratic(self) -> bool {
        let p = self.center.x;
        let q = self.center.y;
        let r = self.reach;
        let d = self.from.x;
        &&& T::from_spec(-2i8).mul_req(q)
        &&& p.mul_req(p)
        &&& r.mul_req(r)
        &&& p.mul_spec(p).sub_req(r.mul_spec(r))
        &&& q.mul_req(q)
        &&& p.mul_spec(p).sub_spec(r.mul_spec(r)).add_req(q.mul_spec(q))
        &&& T::from_spec(2i8).mul_req(d)
        &&& T::from_spec(2i8).mul_spec(d).mul_req(p)
        &&& p.mul_spec(p).sub_spec(r.mul_spec(r)).add_spec(q.mul_spec(q)).sub_req(
            T::from_spec(2i8).mul_spec(d).mul_spec(p),
        )
        &&& d.mul_req(d)
        &&& p.mul_spec(p).sub_spec(r.mul_spec(r)).add_spec(q.mul_spec(q)).sub_spec(
            T::from_spec(2i8).mul_spec(d).mul_spec(p),
        ).add_req(d.mul_spec(d))
    }

    /// The coefficients of the quadratic of the vertical case.
    pub fn steep_quadratic(&self) -> (abc: (T, T, T))
        requires
            exact_scalar::<T>(),
            self.can_steep_quadratic(),
        ensures
            abc == self.spec_steep_quadratic(),
    {
        let p = self.center.x;
        let q = self.center.y;
        let r = self.reach;
        let d = self.from.x;
        let a = T::from(1i8);
        let b = T::from(-2i8) * q;
        let c = p * p - r * r + q * q - T::from(2i8) * d * p + d * d;
        (a, b, c)
    }

    /// The slope `m` of the path `y = m * x + k`.
    pub open spec fn spec_slope(self) -> T {
        self.movement.y.div_spec(self.movement.x)
    }

    /// The height `k` at which the path `y = m * x + k` meets the `y` axis.
    pub open spec fn spec_intercept(self) -> T {
        self.from.y.sub_spec(self.from.x.mul_spec(self.spec_slope()))
    }

    /// Slope and intercept can be computed.
    pub open spec fn can_line(self) -> bool {
        &&& self.movement.y.div_req(self.movement.x)
        &&& self.from.x.mul_req(self.spec_slope())
        &&& self.from.y.sub_req(self.from.x.mul_spec(self.spec_slope()))
    }

    /// The slope and the intercept of the path.
    pub fn line(&self) -> (mk: (T, T))
        requires
            exact_scalar::<T>(),
            self.can_line(),
        ensures
            mk == (self.spec_slope(), self.spec_intercept()),
    {
        let m = self.movement.y / self.movement.x;
        let k = self.from.y - self.from.x * m;
        (m, k)
    }

    /// The quadratic in `x` whose solutions are where the path `y = m * x + k` crosses
    /// the circle of the given reach round the peg: with `(p, q)` the peg's centre
    /// and `r` the reach, `A = m * m + 1`, `B = 2 * (m * k - m * q - p)` and
    /// `C = q * q - r * r + p * p - 2 * k * q + k * k`.
    pub open spec fn spec_slanted_quadratic(self) -> (T, T, T) {
        let m = self.spec_slope();
        let k = self.spec_intercept();
        let p = self.center.x;
        let q = self.center.y;
        let r = self.reach;
        (
            m.mul_spec(m).add_spec(T::from_spec(1i8)),
            T::from_spec(2i8).mul_spec(m.mul_spec(k).sub_spec(m.mul_spec(q)).sub_spec(p)),
            q.mul_spec(q).sub_spec(r.mul_spec(r)).add_spec(p.mul_spec(p)).sub_spec(
                T::from_spec(2i8).mul_spec(k).mul_spec(q),
            ).add_spec(k.mul_spec(k)),
        )
    }

    /// The coefficients of the slanted case can be computed.
    pub open spec fn can_slanted_quadratic(self) -> bool {
        let m = self.spec_slope();
        let k = self.spec_intercept();
        let p = self.center.x;
        let q = self.center.y;
        let r = self.reach;
        &&& self.can_line()
        &&& m.mul_req(m)
        &&& m.mul_spec(m).add_req(T::from_spec(1i8))
        &&& m.mul_req(k)
        &&& m.mul_req(q)
        &&& m.mul_spec(k).sub_req(m.mul_spec(q))
        &&& m.mul_spec(k).sub_spec(m.mul_spec(q)).sub_req(p)
        &&& T::from_spec(2i8).mul_req(m.mul_spec(k).sub_spec(m.mul_spec(q)).sub_spec(p))
        &&& q.mul_req(q)
        &&& r.mul_req(r)
        &&& q.mul_spec(q).sub_req(r.mul_spec(r))
        &&& p.mul_req(p)
        &&& q.mul_spec(q).sub_spec(r.mul_spec(r)).add_req(p.mul_spec(p))
        &&& T::from_spec(2i8).mul_req(k)
        &&& T::from_spec(2i8).mul_spec(k).mul_req(q)
        &&& q.mul_spec(q).sub_spec(r.mul_spec(r)).add_spec(p.mul_spec(p)).sub_req(
            T::from_spec(2i8).mul_spec(k).mul_spec(q),
        )
        &&& k.mul_req(k)
        &&& q.mul_spec(q).sub_spec(r.mul_spec(r)).add_spec(p.mul_spec(p)).sub_spec(
            T::from_spec(2i8).mul_spec(k).mul_spec(q),
        ).add_req(k.mul_spec(k))
    }

    /// The coefficients of the quadratic of the slanted case.
    pub fn slanted_quadratic(&self) -> (abc: (T, T, T))
        requires
            exact_scalar::<T>(),
            self.can_slanted_quadratic(),
        ensures
            abc == self.spec_slanted_quadratic(),
    {
        let (m, k) = self.line();
        let p = self.center.x;
        let q = self.center.y;
        let r = self.reach;
        let a = m * m + T::from(1i8);
        let b = T::from(2i8) * (m * k - m * q - p);
        let c = q * q - r * r + p * p - T::from(2i8) * k * q + k * k;
        (a, b, c)
    }

    /// The crossing that the ball comes to first on a vertical path, given the two
    /// heights at which the path crosses the circle: the nearer one, unless the ball
    /// moves away from it.
    pub open spec fn steep_crossing(self, roots: (T, T)) -> Option<Point<T>> {
        let y = spec_nearer(roots, self.from.y);
        if spec_heads_away(self.movement.y, y.sub_spec(self.from.y)) {
            None
        } else {
            Some(Point { x: self.from.x, y })
        }
    }

    /// The crossing that the ball comes to first on a slanted path, given the two
    /// `x` at which the path crosses the circle: the nearer one, unless the ball
    /// moves away from it.
    pub open spec fn slanted_crossing(self, roots: (T, T)) -> Option<Point<T>> {
        let x = spec_nearer(roots, self.from.x);
        if spec_heads_away(self.movement.x, x.sub_spec(self.from.x)) {
            None
        } else {
            Some(Point { x, y: self.spec_slope().mul_spec(x).add_spec(self.spec_intercept()) })
        }
    }

    /// The slanted crossing can be computed from the two solutions.
    pub open spec fn can_slanted_crossing(self, roots: (T, T)) -> bool {
        let x = spec_nearer(roots, self.from.x);
        &&& can_nearer(roots, self.from.x)
        &&& !spec_heads_away(self.movement.x, x.sub_spec(self.from.x)) ==> {
            &&& self.spec_slope().mul_req(x)
            &&& self.spec_slope().mul_spec(x).add_req(self.spec_intercept())
        }
    }

    /// Where the ball's path first crosses the circle round the peg on the side that
    /// the ball is coming from, whether or not the ball gets that far in this tick.
    pub open spec fn spec_crossing<R: Fn(T) -> T>(self, root: R) -> Option<Point<T>> {
        if self.spec_is_steep() {
            let (a, b, c) = self.spec_steep_quadratic();
            match spec_solve_quadratic(a, b, c, root) {
                Some(roots) => self.steep_crossing(roots),
                None => None,
            }
        } else {
            let (a, b, c) = self.spec_slanted_quadratic();
            match spec_solve_quadratic(a, b, c, root) {
                Some(roots) => self.slanted_crossing(roots),
                None => None,
            }
        }
    }

    /// The crossing can be computed, and `then` holds of it.
    pub open spec fn can_crossing<R: Fn(T) -> T>(
        self,
        root: R,
        then: spec_fn(Option<Point<T>>) -> bool,
    ) -> bool {
        &&& can_magnitude(self.movement.x)
        &&& if self.spec_is_steep() {
            let (a, b, c) = self.spec_steep_quadratic();
            &&& self.can_steep_quadratic()
            &&& can_solve_quadratic(
                a,
                b,
                c,
                root,
                |solved: Option<(T, T)>|
                    match solved {
                        Some(roots) => can_nearer(roots, self.from.y) && then(
                            self.steep_crossing(roots),
                        ),
                        None => then(None),
                    },
            )
        } else {
            let (a, b, c) = self.spec_slanted_quadratic();
            &&& self.can_slanted_quadratic()
            &&& can_solve_quadratic(
                a,
                b,
                c,
                root,
                |solved: Option<(T, T)>|
                    match solved {
                        Some(roots) => self.can_slanted_crossing(roots) && then(
                            self.slanted_crossing(roots),
                        ),
                        None => then(None),
                    },
            )
        }
    }

    /// Finds where the ball's path first crosses the circle round the peg.
    pub fn crossing<R: Fn(T) -> T>(&self, root: &R) -> (found: Option<Point<T>>)
        requires
            exact_scalar::<T>(),
            is_function(*root),
            self.can_crossing(*root, |found: Option<Point<T>>| true),
        ensures
            found == self.spec_crossing(*root),
            forall|then: spec_fn(Option<Point<T>>) -> bool| #[trigger]
                self.can_crossing(*root, then) ==> then(found),
    {
        if self.is_steep() {
            let (a, b, c) = self.steep_quadratic();
            match solve_quadratic(a, b, c, root) {
                Some(roots) => {
                    let y = nearer(roots, self.from.y);
                    if heads_away(self.movement.y, y - self.from.y) {
                        None
                    } else {
                        Some(Point::new(self.from.x, y))
                    }
                },
                None => None,
            }
        } else {
            let (m, k) = self.line();
            let (a, b, c) = self.slanted_quadratic();
            match solve_quadratic(a, b, c, root) {
                Some(roots) => {
                    let x = nearer(roots, self.from.x);
                    if heads_away(self.movement.x, x - self.from.x) {
                        None
                    } else {
                        Some(Point::new(x, m * x + k))
                    }
                },
                None => None,
            }
        }
    }

    /// The ball does not get as far as `crossing` in this tick: the crossing is
    /// further away than the ball travels.
    pub open spec fn spec_is_beyond_travel(self, crossing: Point<T>) -> bool {
        self.from.spec_distance_to_squared(crossing).is_gt(&self.movement.spec_length_squared())
    }

    /// Whether the ball does not get as far as `crossing` in this tick.
    pub fn is_beyond_travel(&self, crossing: Point<T>) -> (beyond: bool)
        requires
            exact_scalar::<T>(),
            self.from.can_measure_to(crossing),
            self.movement.can_dot(self.movement),
        ensures
            beyond == self.spec_is_beyond_travel(crossing),
    {
        self.from.distance_to_squared(crossing) > self.movement.length_squared()
    }

    /// The crossing, if there is one and the ball gets that far in this tick.
    pub open spec fn reached(self, crossing: Option<Point<T>>) -> Option<Point<T>> {
        match crossing {
            Some(at) => if self.spec_is_beyond_travel(at) {
                None
            } else {
                Some(at)
            },
            None => None,
        }
    }

    /// The point at which the ball first touches the peg in this tick: none where the
    /// peg is out of reach, where the path does not cross the circle round it, where
    /// the ball moves away from the crossing, or where it does not get that far.
    pub open spec fn spec_first_contact<R: Fn(T) -> T>(self, root: R) -> Option<Point<T>> {
        if self.spec_is_out_of_reach(root) {
            None
        } else {
            self.reached(self.spec_crossing(root))
        }
    }

    /// The first contact can be computed, and `then` holds of it.
    pub open spec fn can_first_contact<R: Fn(T) -> T>(
        self,
        root: R,
        then: spec_fn(Option<Point<T>>) -> bool,
    ) -> bool {
        self.can_is_out_of_reach(
            root,
            |out: bool|
                if out {
                    then(None)
                } else {
                    self.can_crossing(
                        root,
                        |crossing: Option<Point<T>>|
                            match crossing {
                                Some(at) => self.from.can_measure_to(at) && then(
                                    self.reached(crossing),
                                ),
                                None => then(None),
                            },
                    )
                },
        )
    }

    /// Finds the point at which the ball first touches the peg in this tick.
    pub fn first_contact<R: Fn(T) -> T>(&self, root: &R) -> (contact: Option<Point<T>>)
        requires
            exact_scalar::<T>(),
            is_function(*root),
            self.can_first_contact(*root, |contact: Option<Point<T>>| true),
        ensures
            contact == self.spec_first_contact(*root),
            forall|then: spec_fn(Option<Point<T>>) -> bool| #[trigger]
                self.can_first_contact(*root, then) ==> then(contact),
    {
        if self.is_out_of_reach(root) {
            return None;
        }
        match self.crossing(root) {
            Some(at) => {
                if self.is_beyond_travel(at) {
                    None
                } else {
                    Some(at)
                }
            },
            None => None,
        }
    }
}

impl<T: Number> Body<T> {
    /// The radius of a circular body. Of any other body nothing is said.
    pub open spec fn spec_radius(self) -> T {
        match self.shape {
            Shape::Circle { radius } => radius,
            Shape::Polygon { .. } => arbitrary(),
        }
    }

    /// The body is a circle.
    pub open spec fn is_circle(self) -> bool {
        self.shape is Circle
    }
}

impl<T: Number + From<i8>> Ball<T> {
    /// The way that the ball goes in a tick of length `d`.
    pub open spec fn spec_movement(self, d: T) -> Point<T> {
        self.velocity.mul_spec(d)
    }

    /// The ball does not move at all in a tick of length `d`.
    pub open spec fn is_still(self, d: T) -> bool {
        &&& self.spec_movement(d).x.eq_spec(&T::from_spec(0i8))
        &&& self.spec_movement(d).y.eq_spec(&T::from_spec(0i8))
    }

    /// The ball's travel in a tick of length `d`, seen from a circular body.
    pub open spec fn sweep(self, other: Body<T>, d: T, ball_radius: T) -> Sweep<T> {
        Sweep {
            from: self.pos,
            movement: self.spec_movement(d),
            center: other.pos,
            reach: other.spec_radius().add_spec(ball_radius),
        }
    }

    /// The point at which the ball first touches `other` within a tick of length `d`,
    /// if it does. A ball that does not move touches nothing.
    pub open spec fn spec_will_collide<R: Fn(T) -> T>(
        self,
        other: Body<T>,
        d: T,
        ball_radius: T,
        root: R,
    ) -> Option<Point<T>> {
        if self.is_still(d) {
            None
        } else {
            self.sweep(other, d, ball_radius).spec_first_contact(root)
        }
    }

    /// The prediction can be made, and `then` holds of it: the body is a circle, the
    /// tick has a positive length, and no step of the computation overflows or
    /// divides by zero.
    pub open spec fn can_will_collide<R: Fn(T) -> T>(
        self,
        other: Body<T>,
        d: T,
        ball_radius: T,
        root: R,
        then: spec_fn(Option<Point<T>>) -> bool,
    ) -> bool {
        &&& other.is_circle()
        &&& T::from_spec(0i8).is_lt(&d)
        &&& self.velocity.mul_req(d)
        &&& if self.is_still(d) {
            then(None)
        } else {
            &&& other.spec_radius().add_req(ball_radius)
            &&& self.sweep(other, d, ball_radius).can_first_contact(root, then)
        }
    }

    /// Predicts whether the ball touches `other` within a tick of length `d`, and
    /// where its centre is when it first does. Nothing is changed.
    pub fn will_collide<R: Fn(T) -> T>(
        &self,
        other: &Body<T>,
        d: T,
        ball_radius: T,
        root: &R,
    ) -> (contact: Option<Point<T>>)
        requires
            exact_scalar::<T>(),
            is_function(*root),
            self.can_will_collide(*other, d, ball_radius, *root, |contact: Option<Point<T>>| true),
        ensures
            contact == self.spec_will_collide(*other, d, ball_radius, *root),
            forall|then: spec_fn(Option<Point<T>>) -> bool| #[trigger]
                self.can_will_collide(*other, d, ball_radius, *root, then) ==> then(contact),
    {
        match &other.shape {
            Shape::Circle { radius } => {
                let movement = self.velocity * d;
                if movement.x == T::from(0i8) && movement.y == T::from(0i8) {
                    return None;
                }
                let sweep = Sweep {
                    from: self.pos,
                    movement,
                    center: other.pos,
                    reach: *radius + ball_radius,
                };
                sweep.first_contact(root)
            },
            Shape::Polygon { .. } => vstd::pervasive::unreached(),
        }
    }

    /// The velocity after the turn at the peg, before it is scaled: the velocity
    /// before, and twice along `normal` what the velocity before had along or against
    /// it.
    pub open spec fn turned(self, normal: Point<T>) -> Point<T> {
        self.velocity.add_spec(
            normal.mul_spec(spec_magnitude(normal.spec_dot(self.velocity))).mul_spec(
                T::from_spec(2i8),
            ),
        )
    }

    /// The turn can be computed.
    pub open spec fn can_turn(self, normal: Point<T>) -> bool {
        let push = spec_magnitude(normal.spec_dot(self.velocity));
        &&& normal.can_dot(self.velocity)
        &&& can_magnitude(normal.spec_dot(self.velocity))
        &&& normal.mul_req(push)
        &&& normal.mul_spec(push).mul_req(T::from_spec(2i8))
        &&& self.velocity.add_req(normal.mul_spec(push).mul_spec(T::from_spec(2i8)))
    }

    /// Where the ball ends the tick after a bounce at `impact`: from there on along
    /// `unit`, as far as is left of the way `budget` after the way `gone` to the
    /// impact.
    pub open spec fn landing(impact: Point<T>, unit: Point<T>, budget: T, gone: T) -> Point<T> {
        impact.add_spec(unit.mul_spec(budget.sub_spec(gone)))
    }

    /// The landing can be computed.
    pub open spec fn can_land(impact: Point<T>, unit: Point<T>, budget: T, gone: T) -> bool {
        &&& budget.sub_req(gone)
        &&& unit.mul_req(budget.sub_spec(gone))
        &&& impact.add_req(unit.mul_spec(budget.sub_spec(gone)))
    }

    /// What the bounce at `impact` off a peg at `peg` leaves of the ball.
    ///
    /// The ball turns about the line from the peg's centre through the impact. Its
    /// speed is then set to the speed before times `elasticity`, whatever the turn
    /// made of it. It ends the tick as far beyond the impact, in its new direction,
    /// as it had left to go at its old speed.
    pub open spec fn spec_bounce_off<R: Fn(T) -> T>(
        self,
        peg: Point<T>,
        impact: Point<T>,
        d: T,
        elasticity: T,
        root: R,
    ) -> Bounce<T> {
        let speed = self.velocity.spec_length(root);
        let normal = peg.spec_to(impact).spec_normalized(root);
        let velocity = self.turned(normal).spec_with_length(speed.mul_spec(elasticity), root);
        Bounce {
            pos: Self::landing(
                impact,
                velocity.spec_normalized(root),
                speed.mul_spec(d),
                self.pos.spec_distance_to(impact, root),
            ),
            velocity,
        }
    }

    /// The bounce can be computed, and `then` holds of it: the elasticity is a part
    /// of the whole, and no step of the computation overflows or divides by zero.
    pub open spec fn can_bounce_off<R: Fn(T) -> T>(
        self,
        peg: Point<T>,
        impact: Point<T>,
        d: T,
        elasticity: T,
        root: R,
        then: spec_fn(Bounce<T>) -> bool,
    ) -> bool {
        let out = peg.spec_to(impact);
        &&& is_elasticity(elasticity)
        &&& self.velocity.can_dot(self.velocity)
        &&& can_ask(
            root,
            self.velocity.spec_length_squared(),
            |speed: T|
                {
                    &&& speed.mul_req(d)
                    &&& speed.mul_req(elasticity)
                    &&& impact.sub_req(peg)
                    &&& out.can_dot(out)
                    &&& can_ask(
                        root,
                        out.spec_length_squared(),
                        |length: T|
                            {
                                &&& out.div_req(length)
                                &&& self.can_turn(out.div_spec(length))
                                &&& self.can_finish(
                                    impact,
                                    self.turned(out.div_spec(length)),
                                    speed.mul_spec(elasticity),
                                    speed.mul_spec(d),
                                    root,
                                    then,
                                )
                            },
                    )
                },
        )
    }

    /// The rest of the bounce can be computed once the ball has turned, and `then`
    /// holds of the bounce.
    pub open spec fn can_finish<R: Fn(T) -> T>(
        self,
        impact: Point<T>,
        turned: Point<T>,
        wanted: T,
        budget: T,
        root: R,
        then: spec_fn(Bounce<T>) -> bool,
    ) -> bool {
        &&& turned.can_dot(turned)
        &&& can_ask(
            root,
            turned.spec_length_squared(),
            |length: T|
                {
                    let velocity = turned.div_spec(length).mul_spec(wanted);
                    &&& turned.div_req(length)
                    &&& turned.div_spec(length).mul_req(wanted)
                    &&& velocity.can_dot(velocity)
                    &&& can_ask(
                        root,
                        velocity.spec_length_squared(),
                        |speed: T|
                            {
                                &&& velocity.div_req(speed)
                                &&& self.pos.can_measure_to(impact)
                                &&& can_ask(
                                    root,
                                    self.pos.spec_distance_to_squared(impact),
                                    |gone: T|
                                        {
                                            &&& Self::can_land(
                                                impact,
                                                velocity.div_spec(speed),
                                                budget,
                                                gone,
                                            )
                                            &&& then(
                                                Bounce {
                                                    pos: Self::landing(
                                                        impact,
                                                        velocity.div_spec(speed),
                                                        budget,
                                                        gone,
                                                    ),
                                                    velocity,
                                                },
                                            )
                                        },
                                )
                            },
                    )
                },
        )
    }

    /// Computes what the bounce at `impact` off `peg` leaves of the ball. The ball
    /// itself is not changed.
    pub fn bounce_off<R: Fn(T) -> T>(
        &self,
        peg: &Body<T>,
        impact: Point<T>,
        d: T,
        elasticity: T,
        root: &R,
    ) -> (bounce: Bounce<T>)
        requires
            exact_scalar::<T>(),
            is_function(*root),
            self.can_bounce_off(peg.pos, impact, d, elasticity, *root, |bounce: Bounce<T>| true),
        ensures
            bounce == self.spec_bounce_off(peg.pos, impact, d, elasticity, *root),
            forall|then: spec_fn(Bounce<T>) -> bool| #[trigger]
                self.can_bounce_off(peg.pos, impact, d, elasticity, *root, then) ==> then(bounce),
    {
        let speed = self.velocity.length(root);
        let budget = speed * d;
        let wanted = speed * elasticity;
        let normal = peg.pos.to(impact).normalized(root);
        let push = magnitude(normal.dot(self.velocity));
        let turned = self.velocity + normal * push * T::from(2i8);
        let velocity = turned.with_length(wanted, root);
        let unit = velocity.normalized(root);
        let gone = self.pos.distance_to(impact, root);
        Bounce { pos: impact + unit * (budget - gone), velocity }
    }

    /// Lets the ball bounce off `peg` at `impact`: the ball takes the position and
    /// the velocity that the bounce leaves it, and the peg is marked as hit. Called a
    /// second time for the same collision, it makes the ball bounce a second time.
    pub fn resolve<R: Fn(T) -> T>(
        &mut self,
        peg: &mut Peg<T>,
        impact: Point<T>,
        d: T,
        elasticity: T,
        root: &R,
    )
        requires
            exact_scalar::<T>(),
            is_function(*root),
            old(self).can_bounce_off(
                old(peg).body.pos,
                impact,
                d,
                elasticity,
                *root,
                |bounce: Bounce<T>| true,
            ),
        ensures
            *final(self) == old(self).bounced(
                old(self).spec_bounce_off(old(peg).body.pos, impact, d, elasticity, *root),
            ),
            final(peg).is_hit,
            final(peg).body == old(peg).body,
            final(peg).peg_type == old(peg).peg_type,
            forall|then: spec_fn(Bounce<T>) -> bool| #[trigger]
                old(self).can_bounce_off(old(peg).body.pos, impact, d, elasticity, *root, then)
                    ==> then(Bounce { pos: final(self).pos, velocity: final(self).velocity }),
    {
        let bounce = self.bounce_off(&peg.body, impact, d, elasticity, root);
        self.pos = bounce.pos;
        self.velocity = bounce.velocity;
        peg.is_hit = true;
    }

    /// What a collision with `other` within a tick of length `d` leaves of the ball,
    /// if there is one.
    pub open spec fn spec_collide<R: Fn(T) -> T>(
        self,
        other: Body<T>,
        d: T,
        ball_radius: T,
        elasticity: T,
        root: R,
    ) -> Option<Bounce<T>> {
        match self.spec_will_collide(other, d, ball_radius, root) {
            Some(impact) => Some(self.spec_bounce_off(other.pos, impact, d, elasticity, root)),
            None => None,
        }
    }

    /// Prediction and bounce can be computed, and `then` holds of the result.
    pub open spec fn can_collide<R: Fn(T) -> T>(
        self,
        other: Body<T>,
        d: T,
        ball_radius: T,
        elasticity: T,
        root: R,
        then: spec_fn(Option<Bounce<T>>) -> bool,
    ) -> bool {
        self.can_will_collide(
            other,
            d,
            ball_radius,
            root,
            |contact: Option<Point<T>>|
                match contact {
                    Some(impact) => self.can_bounce_off(
                        other.pos,
                        impact,
                        d,
                        elasticity,
                        root,
                        |bounce: Bounce<T>| then(Some(bounce)),
                    ),
                    None => then(None),
                },
        )
    }

    /// Predicts whether the ball touches `other` within a tick of length `d`, and
    /// where that is the case, computes what the bounce leaves of the ball.
    pub fn collide<R: Fn(T) -> T>(
        &self,
        other: &Body<T>,
        d: T,
        ball_radius: T,
        elasticity: T,
        root: &R,
    ) -> (bounce: Option<Bounce<T>>)
        requires
            exact_scalar::<T>(),
            is_function(*root),
            self.can_collide(
                *other,
                d,
                ball_radius,
                elasticity,
                *root,
                |bounce: Option<Bounce<T>>| true,
            ),
        ensures
            bounce == self.spec_collide(*other, d, ball_radius, elasticity, *root),
            forall|then: spec_fn(Option<Bounce<T>>) -> bool| #[trigger]
                self.can_collide(*other, d, ball_radius, elasticity, *root, then) ==> then(bounce),
    {
        match self.will_collide(other, d, ball_radius, root) {
            Some(impact) => Some(self.bounce_off(other, impact, d, elasticity, root)),
            None => None,
        }
    }
}

impl<T: Number + From<i8>> Sweep<T> {
    /// A contact lies within the tick: where one is found, the peg was within reach,
    /// the contact is where the path first crosses the circle round the peg, and it
    /// is no further from the ball than the ball travels.
    pub proof fn lemma_contact_is_within_travel<R: Fn(T) -> T>(self, root: R, at: Point<T>)
        requires
            self.spec_first_contact(root) == Some(at),
        ensures
            !self.spec_is_out_of_reach(root),
            self.spec_crossing(root) == Some(at),
            !self.spec_is_beyond_travel(at),
    {
    }
}

impl<T: Number + From<i8>> Ball<T> {
    /// A ball that does not move touches nothing, wherever it is.
    pub proof fn lemma_still_ball_touches_nothing<R: Fn(T) -> T>(
        self,
        other: Body<T>,
        d: T,
        ball_radius: T,
        root: R,
    )
        requires
            self.is_still(d),
        ensures
            self.spec_will_collide(other, d, ball_radius, root).is_none(),
            forall|elasticity: T|
                (#[trigger] self.spec_collide(other, d, ball_radius, elasticity, root)).is_none(),
    {
    }
}

/// A whole number whose square is a multiple of four is even.
proof fn lemma_root_of_fourfold_is_even(s: int, quarter: int)
    requires
        s * s == 4 * quarter,
    ensures
        s % 2 == 0,
        (s / 2) * (s / 2) == quarter,
{
    let h = s / 2;
    if s % 2 != 0 {
        assert(s == 2 * h + 1);
        assert(s * s == 4 * (h * h + h) + 1) by (nonlinear_arith)
            requires
                s == 2 * h + 1,
        ;
    }
    assert(s == 2 * h);
    assert(s * s == 4 * (h * h)) by (nonlinear_arith)
        requires
            s == 2 * h,
    ;
}

/// On a vertical path over the whole numbers a crossing is a point of the path and of
/// the circle round the peg: its distance from the peg's centre is the reach. This
/// holds where `root` has given an exact root of the discriminant.
pub proof fn lemma_vertical_crossing_is_on_circle<R: Fn(i64) -> i64>(
    sweep: Sweep<i64>,
    root: R,
    at: Point<i64>,
)
    requires
        sweep.spec_is_steep(),
        sweep.can_crossing(root, |found: Option<Point<i64>>| true),
        sweep.spec_crossing(root) == Some(at),
        ({
            let (a, b, c) = sweep.spec_steep_quadratic();
            let s = crate::shape::root_of(root, crate::shape::spec_discriminant(a, b, c));
            &&& answers(root, crate::shape::spec_discriminant(a, b, c))
            &&& s * s == crate::shape::spec_discriminant(a, b, c)
        }),
    ensures
        at.x == sweep.from.x,
        (at.x - sweep.center.x) * (at.x - sweep.center.x) + (at.y - sweep.center.y) * (at.y
            - sweep.center.y) == sweep.reach * sweep.reach,
{
    let p = sweep.center.x as int;
    let q = sweep.center.y as int;
    let r = sweep.reach as int;
    let d = sweep.from.x as int;
    let (a, b, c) = sweep.spec_steep_quadratic();
    let disc = crate::shape::spec_discriminant(a, b, c);
    let s = crate::shape::root_of(root, disc) as int;
    assert(b == -2 * q);
    assert(c == p * p - r * r + q * q - 2 * d * p + d * d);
    assert(b * b == 4 * (q * q)) by (nonlinear_arith)
        requires
            b == -2 * q,
    ;
    assert(a == 1);
    assert(b.mul_req(b));
    assert(4 * a == 4);
    assert(4i64.mul_spec(a) == 4);
    assert(4i64.mul_req(c));
    assert(b.mul_spec(b).sub_req(4i64.mul_spec(c)));
    assert(disc == b * b - 4 * c);
    let quarter = r * r - (d - p) * (d - p);
    assert(disc == 4 * quarter) by (nonlinear_arith)
        requires
            disc == 4 * (q * q) - 4 * c,
            c == p * p - r * r + q * q - 2 * d * p + d * d,
            quarter == r * r - (d - p) * (d - p),
    ;
    lemma_root_of_fourfold_is_even(s, quarter);
    let half = s / 2;
    assert(b.mul_req(-1i64));
    assert(b * (-1) == 2 * q);
    assert(b.mul_spec(-1i64) == 2 * q);
    assert(2i64.mul_spec(a) == 2);
    assert((2 * q) / 2 == q);
    assert((-(2 * q)) / 2 == -q);
    assert(crate::shape::spec_midpoint(a, b) == q);
    let roots = crate::shape::roots_given(a, b, s as i64);
    assert(crate::shape::has_solutions(a, b, c));
    assert(crate::shape::can_roots_given(a, b, s as i64));
    assert((s as i64).div_spec(2i64) == half) by {
        if s < 0 {
            assert((-s) / 2 == -half);
        }
    }
    assert(roots.0 == q + half);
    assert(roots.1 == q - half);
    assert(at.y == roots.0 || at.y == roots.1);
    assert((at.y - q) * (at.y - q) == half * half) by (nonlinear_arith)
        requires
            at.y == q + half || at.y == q - half,
    ;
    assert((at.x - p) * (at.x - p) == (d - p) * (d - p));
}

/// The quadratic of a level path over the whole numbers, in plain arithmetic.
proof fn lemma_level_quadratic(sweep: Sweep<i64>)
    requires
        !sweep.spec_is_steep(),
        sweep.movement.y == 0,
        sweep.can_slanted_quadratic(),
    ensures
        sweep.spec_slope() == 0,
        sweep.spec_intercept() == sweep.from.y,
        sweep.spec_slanted_quadratic().0 == 1,
        sweep.spec_slanted_quadratic().1 as int == -(2 * (sweep.center.x as int)),
        sweep.spec_slanted_quadratic().2 as int == sweep.center.y * sweep.center.y - sweep.reach
            * sweep.reach + sweep.center.x * sweep.center.x - 2 * (sweep.from.y as int)
            * sweep.center.y + sweep.from.y * sweep.from.y,
{
    let p = sweep.center.x as int;
    let q = sweep.center.y as int;
    let k = sweep.from.y as int;
    assert(sweep.movement.x != 0);
    assert(0int / (sweep.movement.x as int) == 0) by (nonlinear_arith)
        requires
            sweep.movement.x != 0,
    ;
    let m = sweep.spec_slope();
    assert(m == 0);
    assert(sweep.from.x * 0 == 0);
    assert(sweep.spec_intercept() == k);
    assert(m * m == 0 && m * k == 0 && m * q == 0) by (nonlinear_arith)
        requires
            m == 0,
    ;
    assert(m.mul_spec(m) == 0);
    assert(m.mul_spec(sweep.from.y) == 0);
    assert(m.mul_spec(sweep.center.y) == 0);
    assert(2i64.mul_spec(sweep.from.y) == 2 * k);
    let inner = m.mul_spec(sweep.from.y).sub_spec(m.mul_spec(sweep.center.y)).sub_spec(
        sweep.center.x,
    );
    assert(inner == -p);
    assert(2i64.mul_req(inner));
    assert(sweep.spec_slanted_quadratic().1 == 2i64.mul_spec(inner));
    assert(2i64.mul_spec(inner) == 2 * (inner as int));
    assert(inner as int == -p);
    assert(2 * (inner as int) == -(2 * p)) by (nonlinear_arith)
        requires
            inner as int == -p,
    ;
}

/// On a level path over the whole numbers a crossing is a point of the path and of
/// the circle round the peg: its distance from the peg's centre is the reach. This
/// holds where `root` has given an exact root of the discriminant.
pub proof fn lemma_level_crossing_is_on_circle<R: Fn(i64) -> i64>(
    sweep: Sweep<i64>,
    root: R,
    at: Point<i64>,
)
    requires
        !sweep.spec_is_steep(),
        sweep.movement.y == 0,
        sweep.can_crossing(root, |found: Option<Point<i64>>| true),
        sweep.spec_crossing(root) == Some(at),
        ({
            let (a, b, c) = sweep.spec_slanted_quadratic();
            let s = crate::shape::root_of(root, crate::shape::spec_discriminant(a, b, c));
            &&& answers(root, crate::shape::spec_discriminant(a, b, c))
            &&& s * s == crate::shape::spec_discriminant(a, b, c)
        }),
    ensures
        at.y == sweep.from.y,
        (at.x - sweep.center.x) * (at.x - sweep.center.x) + (at.y - sweep.center.y) * (at.y
            - sweep.center.y) == sweep.reach * sweep.reach,
{
    let p = sweep.center.x as int;
    let q = sweep.center.y as int;
    let r = sweep.reach as int;
    let k = sweep.from.y as int;
    let (a, b, c) = sweep.spec_slanted_quadratic();
    let disc = crate::shape::spec_discriminant(a, b, c);
    let s = crate::shape::root_of(root, disc) as int;
    lemma_level_quadratic(sweep);
    let quarter = r * r - (k - q) * (k - q);
    assert(disc == 4 * quarter) by {
        assert(b * b == 4 * (p * p)) by (nonlinear_arith)
            requires
                b == -(2 * p),
        ;
        assert(b.mul_req(b));
        assert(4 * a == 4);
        assert(4i64.mul_spec(a) == 4);
        assert(4i64.mul_req(c));
        assert(b.mul_spec(b).sub_req(4i64.mul_spec(c)));
        assert(disc == b * b - 4 * c);
        assert(disc == 4 * quarter) by (nonlinear_arith)
            requires
                disc == 4 * (p * p) - 4 * c,
                c == q * q - r * r + p * p - 2 * k * q + k * k,
                quarter == r * r - (k - q) * (k - q),
        ;
    }
    lemma_root_of_fourfold_is_even(s, quarter);
    let half = s / 2;
    assert(crate::shape::spec_midpoint(a, b) == p) by {
        assert(b.mul_req(-1i64));
        assert(b * (-1) == 2 * p);
        assert(b.mul_spec(-1i64) == 2 * p);
        assert(2i64.mul_spec(a) == 2);
        assert((2 * p) / 2 == p);
        assert((-(2 * p)) / 2 == -p);
    }
    let roots = crate::shape::roots_given(a, b, s as i64);
    assert(roots.0 == p + half && roots.1 == p - half) by {
        assert(crate::shape::has_solutions(a, b, c));
        assert(crate::shape::can_roots_given(a, b, s as i64));
        assert(2i64.mul_spec(a) == 2);
        assert((s as i64).div_spec(2i64) == half) by {
            if s < 0 {
                assert((-s) / 2 == -half);
            }
        }
    }
    assert(at.x == roots.0 || at.x == roots.1);
    assert(at.y == k) by {
        assert(0int * (at.x as int) == 0);
    }
    assert((at.x - p) * (at.x - p) == half * half) by (nonlinear_arith)
        requires
            at.x == p + half || at.x == p - half,
    ;
    assert((at.y - q) * (at.y - q) == (k - q) * (k - q));
}

} // verus!
