//! Two-dimensional vectors over any numeric type, and the shapes built on them.
//!
//! Everything here is generic over the scalar. What an operation returns is stated
//! through the arithmetic specifications that `vstd` attaches to the operator traits:
//! for the primitive integers these unfold to ordinary integer arithmetic, and a
//! function may be called exactly where that arithmetic does not overflow.
//!
//! No square root is taken here. A function that needs one takes it from a function
//! `root` of the caller's, and says what it returns in terms of what `root` answers.
//! What has to hold of an answer of `root` for the computation to go on is part of
//! the function's precondition, which says it of every answer that `root` may give:
//! such a precondition takes a last argument `then`, a predicate that is to hold of
//! the result, and the function promises `then` of its result for every `then` that
//! its precondition holds with.

use std::ops::{Add, AddAssign, Div, Mul, MulAssign, Neg, Sub};
use vstd::prelude::*;
use vstd::std_specs::cmp::{PartialEqSpec, PartialOrdIs, PartialOrdSpec};
use vstd::std_specs::convert::FromSpec;
use vstd::std_specs::ops::{AddSpec, DivSpec, MulSpec, NegSpec, SubSpec};

verus! {

/// A scalar that vectors can be built from: copyable, ordered, and closed under the
/// four arithmetic operators.
pub trait Number: Copy + Add<Output = Self> + Sub<Output = Self> + Mul<Output = Self> + Div<
    Output = Self,
> + PartialOrd {

}

impl<T> Number for T where
    T: Copy + Add<Output = Self> + Sub<Output = Self> + Mul<Output = Self> + Div<Output = Self>
        + PartialOrd,
 {

}

/// The operators of `T` compute exactly what their specifications say.
///
/// This holds of every primitive integer type.
pub open spec fn exact_arithmetic<T: Number>() -> bool {
    &&& T::obeys_add_spec()
    &&& T::obeys_sub_spec()
    &&& T::obeys_mul_spec()
    &&& T::obeys_div_spec()
    &&& T::obeys_eq_spec()
    &&& T::obeys_partial_cmp_spec()
}

/// The arithmetic of `T` is exact, and so is its conversion from small integers.
///
/// This holds of the signed primitive integer types wider than `i8`.
pub open spec fn exact_scalar<T: Number + From<i8>>() -> bool {
    &&& exact_arithmetic::<T>()
    &&& T::obeys_from_spec()
}

/// What `root` answers when it is asked for the root of `x`.
pub open spec fn root_of<T, R: Fn(T) -> T>(root: R, x: T) -> T {
    choose|r: T| call_ensures(root, (x,), r)
}

/// `root` answers the same whenever it is asked the same.
pub open spec fn is_function<T, R: Fn(T) -> T>(root: R) -> bool {
    forall|x: T, r: T| #[trigger] call_ensures(root, (x,), r) ==> r == root_of(root, x)
}

/// `root` has been asked for the root of `x`, and `root_of` is what it answered.
pub open spec fn answers<T, R: Fn(T) -> T>(root: R, x: T) -> bool {
    call_ensures(root, (x,), root_of(root, x))
}

/// `root` accepts `x`, and `then` holds of whatever it answers.
pub open spec fn can_ask<T, R: Fn(T) -> T>(root: R, x: T, then: spec_fn(T) -> bool) -> bool {
    &&& call_requires(root, (x,))
    &&& forall|r: T| #[trigger] call_ensures(root, (x,), r) ==> then(r)
}

/// The absolute value of `x`.
pub open spec fn spec_magnitude<T: Number + From<i8>>(x: T) -> T {
    if x.is_lt(&T::from_spec(0i8)) {
        x.mul_spec(T::from_spec(-1i8))
    } else {
        x
    }
}

/// The absolute value of `x` can be computed.
pub open spec fn can_magnitude<T: Number + From<i8>>(x: T) -> bool {
    x.is_lt(&T::from_spec(0i8)) ==> x.mul_req(T::from_spec(-1i8))
}

/// The absolute value of `x`.
pub fn magnitude<T: Number + From<i8>>(x: T) -> (m: T)
    requires
        exact_scalar::<T>(),
        can_magnitude(x),
    ensures
        m == spec_magnitude(x),
{
    if x < T::from(0i8) {
        x * T::from(-1i8)
    } else {
        x
    }
}

/// A point of the plane, or the vector that leads to it from the origin.
#[derive(Clone, Copy, Debug)]
pub struct Point<T: Number> {
    pub x: T,
    pub y: T,
}

impl<T: Number> Point<T> {
    pub fn new(x: T, y: T) -> (p: Self)
        ensures
            p == (Point { x, y }),
    {
        Self { x, y }
    }

    /// The vector that leads from `self` to `rhs`.
    pub open spec fn spec_to(self, rhs: Self) -> Self {
        rhs.sub_spec(self)
    }

    /// The vector that leads from `self` to `rhs`.
    pub fn to(self, rhs: Self) -> (v: Self)
        requires
            rhs.sub_req(self),
        ensures
            T::obeys_sub_spec() ==> v == self.spec_to(rhs),
    {
        rhs - self
    }

    /// Both products and their sum can be computed.
    pub open spec fn can_dot(self, rhs: Self) -> bool {
        &&& self.x.mul_req(rhs.x)
        &&& self.y.mul_req(rhs.y)
        &&& self.x.mul_spec(rhs.x).add_req(self.y.mul_spec(rhs.y))
    }

    /// The dot product `x1 * x2 + y1 * y2`.
    pub open spec fn spec_dot(self, rhs: Self) -> T {
        self.x.mul_spec(rhs.x).add_spec(self.y.mul_spec(rhs.y))
    }

    /// The dot product `x1 * x2 + y1 * y2`.
    pub fn dot(self, rhs: Self) -> (d: T)
        requires
            T::obeys_mul_spec(),
            self.can_dot(rhs),
        ensures
            T::obeys_add_spec() ==> d == self.spec_dot(rhs),
    {
        self.x * rhs.x + self.y * rhs.y
    }

    /// The square of the vector's length.
    pub open spec fn spec_length_squared(self) -> T {
        self.spec_dot(self)
    }

    /// The square of the vector's length.
    pub fn length_squared(self) -> (l: T)
        requires
            T::obeys_mul_spec(),
            self.can_dot(self),
        ensures
            T::obeys_add_spec() ==> l == self.spec_length_squared(),
    {
        self.dot(self)
    }

    /// The difference to `rhs` and its squared length can be computed.
    pub open spec fn can_measure_to(self, rhs: Self) -> bool {
        &&& rhs.sub_req(self)
        &&& self.spec_to(rhs).can_dot(self.spec_to(rhs))
    }

    /// The square of the distance between two points.
    pub open spec fn spec_distance_to_squared(self, rhs: Self) -> T {
        self.spec_to(rhs).spec_length_squared()
    }

    /// The square of the distance between two points.
    pub fn distance_to_squared(self, rhs: Self) -> (l: T)
        requires
            T::obeys_sub_spec(),
            T::obeys_mul_spec(),
            self.can_measure_to(rhs),
        ensures
            T::obeys_add_spec() ==> l == self.spec_distance_to_squared(rhs),
    {
        self.to(rhs).length_squared()
    }

    /// The vector is strictly longer than `rhs`, compared by the squares.
    pub open spec fn spec_is_longer_than(self, rhs: T) -> bool {
        self.spec_length_squared().is_gt(&rhs.mul_spec(rhs))
    }

    /// Whether the vector is strictly longer than `rhs`. The squares are compared,
    /// so that no root is taken.
    pub fn is_longer_than(self, rhs: T) -> (longer: bool)
        requires
            T::obeys_mul_spec(),
            self.can_dot(self),
            rhs.mul_req(rhs),
        ensures
            T::obeys_add_spec() && T::obeys_partial_cmp_spec() ==> longer
                == self.spec_is_longer_than(rhs),
    {
        self.length_squared() > rhs * rhs
    }
}

impl<T: Number> Point<T> {
    /// The length can be computed: the squared length can, and `root` accepts it.
    pub open spec fn can_length<R: Fn(T) -> T>(self, root: R) -> bool {
        &&& self.can_dot(self)
        &&& call_requires(root, (self.spec_length_squared(),))
    }

    /// The length of the vector: what `root` makes of its squared length.
    pub open spec fn spec_length<R: Fn(T) -> T>(self, root: R) -> T {
        root_of(root, self.spec_length_squared())
    }

    /// The length of the vector. The square root is taken by `root`.
    pub fn length<R: Fn(T) -> T>(self, root: &R) -> (l: T)
        requires
            exact_arithmetic::<T>(),
            is_function(*root),
            self.can_length(*root),
        ensures
            l == self.spec_length(*root),
            answers(*root, self.spec_length_squared()),
    {
        root(self.length_squared())
    }

    /// The distance to `rhs` can be computed.
    pub open spec fn can_distance_to<R: Fn(T) -> T>(self, rhs: Self, root: R) -> bool {
        &&& rhs.sub_req(self)
        &&& self.spec_to(rhs).can_length(root)
    }

    /// The distance between two points.
    pub open spec fn spec_distance_to<R: Fn(T) -> T>(self, rhs: Self, root: R) -> T {
        self.spec_to(rhs).spec_length(root)
    }

    /// The distance between two points. The square root is taken by `root`.
    pub fn distance_to<R: Fn(T) -> T>(self, rhs: Self, root: &R) -> (l: T)
        requires
            exact_arithmetic::<T>(),
            is_function(*root),
            self.can_distance_to(rhs, *root),
        ensures
            l == self.spec_distance_to(rhs, *root),
            answers(*root, self.spec_distance_to_squared(rhs)),
    {
        root(self.distance_to_squared(rhs))
    }

    /// The vector can be brought to unit length: its length can be computed and
    /// divided by.
    pub open spec fn can_normalize<R: Fn(T) -> T>(self, root: R) -> bool {
        &&& self.can_dot(self)
        &&& can_ask(root, self.spec_length_squared(), |l: T| self.div_req(l))
    }

    /// The vector divided by its length.
    pub open spec fn spec_normalized<R: Fn(T) -> T>(self, root: R) -> Self {
        self.div_spec(self.spec_length(root))
    }

    /// The vector of the same direction and of unit length.
    pub fn normalized<R: Fn(T) -> T>(self, root: &R) -> (unit: Self)
        requires
            exact_arithmetic::<T>(),
            is_function(*root),
            self.can_normalize(*root),
        ensures
            unit == self.spec_normalized(*root),
            answers(*root, self.spec_length_squared()),
    {
        self / self.length(root)
    }

    /// The vector can be brought to the length `wanted`.
    pub open spec fn can_take_length<R: Fn(T) -> T>(self, wanted: T, root: R) -> bool {
        &&& self.can_dot(self)
        &&& can_ask(
            root,
            self.spec_length_squared(),
            |l: T| self.div_req(l) && self.div_spec(l).mul_req(wanted),
        )
    }

    /// The unit vector of the same direction, times `wanted`.
    pub open spec fn spec_with_length<R: Fn(T) -> T>(self, wanted: T, root: R) -> Self {
        self.spec_normalized(root).mul_spec(wanted)
    }

    /// The vector of the same direction and of the length `wanted`.
    pub fn with_length<R: Fn(T) -> T>(self, wanted: T, root: &R) -> (scaled: Self)
        requires
            exact_arithmetic::<T>(),
            is_function(*root),
            self.can_take_length(wanted, *root),
        ensures
            scaled == self.spec_with_length(wanted, *root),
            answers(*root, self.spec_length_squared()),
    {
        self.normalized(root) * wanted
    }
}

impl<T: Number + From<u8>> Point<T> {
    /// The origin.
    pub open spec fn spec_zero() -> Self {
        Point { x: T::from_spec(0u8), y: T::from_spec(0u8) }
    }

    /// The origin.
    pub fn zero() -> (p: Self)
        ensures
            T::obeys_from_spec() ==> p == Self::spec_zero(),
    {
        Self { x: T::from(0u8), y: T::from(0u8) }
    }
}

impl<T: Number> vstd::std_specs::ops::AddSpecImpl for Point<T> {
    open spec fn obeys_add_spec() -> bool {
        T::obeys_add_spec()
    }

    open spec fn add_req(self, rhs: Self) -> bool {
        self.x.add_req(rhs.x) && self.y.add_req(rhs.y)
    }

    open spec fn add_spec(self, rhs: Self) -> Self {
        Point { x: self.x.add_spec(rhs.x), y: self.y.add_spec(rhs.y) }
    }
}

impl<T: Number> Add for Point<T> {
    type Output = Self;

    fn add(self, rhs: Self) -> Self {
        Self::new(self.x + rhs.x, self.y + rhs.y)
    }
}

impl<T: Number> AddAssign for Point<T> {
    fn add_assign(&mut self, rhs: Self)
        requires
            old(self).add_req(rhs),
        ensures
            T::obeys_add_spec() ==> *final(self) == old(self).add_spec(rhs),
    {
        self.x = self.x + rhs.x;
        self.y = self.y + rhs.y;
    }
}

impl<T: Number> vstd::std_specs::ops::SubSpecImpl for Point<T> {
    open spec fn obeys_sub_spec() -> bool {
        T::obeys_sub_spec()
    }

    open spec fn sub_req(self, rhs: Self) -> bool {
        self.x.sub_req(rhs.x) && self.y.sub_req(rhs.y)
    }

    open spec fn sub_spec(self, rhs: Self) -> Self {
        Point { x: self.x.sub_spec(rhs.x), y: self.y.sub_spec(rhs.y) }
    }
}

impl<T: Number> Sub for Point<T> {
    type Output = Self;

    fn sub(self, rhs: Self) -> Self {
        Self::new(self.x - rhs.x, self.y - rhs.y)
    }
}

impl<T: Number> vstd::std_specs::ops::MulSpecImpl<T> for Point<T> {
    open spec fn obeys_mul_spec() -> bool {
        T::obeys_mul_spec()
    }

    open spec fn mul_req(self, rhs: T) -> bool {
        self.x.mul_req(rhs) && self.y.mul_req(rhs)
    }

    open spec fn mul_spec(self, rhs: T) -> Self {
        Point { x: self.x.mul_spec(rhs), y: self.y.mul_spec(rhs) }
    }
}

impl<T: Number> Mul<T> for Point<T> {
    type Output = Self;

    fn mul(self, rhs: T) -> Self {
        Self::new(self.x * rhs, self.y * rhs)
    }
}

impl<T: Number> MulAssign<T> for Point<T> {
    fn mul_assign(&mut self, rhs: T)
        requires
            old(self).mul_req(rhs),
        ensures
            T::obeys_mul_spec() ==> *final(self) == old(self).mul_spec(rhs),
    {
        self.x = self.x * rhs;
        self.y = self.y * rhs;
    }
}

impl<T: Number> vstd::std_specs::ops::DivSpecImpl<T> for Point<T> {
    open spec fn obeys_div_spec() -> bool {
        T::obeys_div_spec()
    }

    open spec fn div_req(self, rhs: T) -> bool {
        self.x.div_req(rhs) && self.y.div_req(rhs)
    }

    open spec fn div_spec(self, rhs: T) -> Self {
        Point { x: self.x.div_spec(rhs), y: self.y.div_spec(rhs) }
    }
}

impl<T: Number> Div<T> for Point<T> {
    type Output = Self;

    fn div(self, rhs: T) -> Self {
        Self::new(self.x / rhs, self.y / rhs)
    }
}

impl<T: Number + Neg<Output = T>> vstd::std_specs::ops::NegSpecImpl for Point<T> {
    open spec fn obeys_neg_spec() -> bool {
        T::obeys_neg_spec()
    }

    open spec fn neg_req(self) -> bool {
        self.x.neg_req() && self.y.neg_req()
    }

    open spec fn neg_spec(self) -> Self {
        Point { x: self.x.neg_spec(), y: self.y.neg_spec() }
    }
}

impl<T: Number + Neg<Output = T>> Neg for Point<T> {
    type Output = Self;

    fn neg(self) -> Self {
        Point::new(self.x.neg(), self.y.neg())
    }
}

impl<T: Number> vstd::std_specs::cmp::PartialEqSpecImpl for Point<T> {
    open spec fn obeys_eq_spec() -> bool {
        T::obeys_eq_spec()
    }

    open spec fn eq_spec(&self, other: &Self) -> bool {
        self.x.eq_spec(&other.x) && self.y.eq_spec(&other.y)
    }
}

impl<T: Number> PartialEq for Point<T> {
    fn eq(&self, other: &Self) -> (same: bool) {
        self.x == other.x && self.y == other.y
    }
}

impl<T: Number + Eq> Eq for Point<T> {

}

/// A point of the plane by its direction and its distance from the origin.
#[derive(Clone, Copy, Debug)]
pub struct PolarPoint<T: Number> {
    /// The angle from the `x` axis, in radians.
    pub angle: T,
    /// The distance from the origin.
    pub magnitude: T,
}

impl<T: Number> PolarPoint<T> {
    pub fn new(angle: T, magnitude: T) -> (p: Self)
        ensures
            p == (PolarPoint { angle, magnitude }),
    {
        Self { angle, magnitude }
    }

    /// The point with the given sine and cosine of the angle: cosine and sine, each
    /// times the magnitude.
    pub open spec fn point_given(self, sin: T, cos: T) -> Point<T> {
        Point { x: cos.mul_spec(self.magnitude), y: sin.mul_spec(self.magnitude) }
    }

    /// The same point by its coordinates. Sine and cosine of the angle are taken by
    /// `sin_cos`, in this order.
    pub fn to_point<F: Fn(T) -> (T, T)>(self, sin_cos: &F) -> (p: Point<T>)
        requires
            T::obeys_mul_spec(),
            call_requires(*sin_cos, (self.angle,)),
            forall|sin: T, cos: T| #[trigger]
                call_ensures(*sin_cos, (self.angle,), (sin, cos)) ==> cos.mul_req(self.magnitude)
                    && sin.mul_req(self.magnitude),
        ensures
            exists|sin: T, cos: T| #[trigger]
                call_ensures(*sin_cos, (self.angle,), (sin, cos)) && p == self.point_given(
                    sin,
                    cos,
                ),
    {
        let (sin, cos) = sin_cos(self.angle);
        Point::new(cos, sin) * self.magnitude
    }

    /// The same point by direction and distance. The angle is taken by `atan2` from
    /// `y` and `x`, in this order, and the distance by `hypot` from `x` and `y`.
    pub fn from_point<A: Fn(T, T) -> T, H: Fn(T, T) -> T>(p: Point<T>, atan2: &A, hypot: &H) -> (polar:
        Self)
        requires
            call_requires(*atan2, (p.y, p.x)),
            call_requires(*hypot, (p.x, p.y)),
        ensures
            call_ensures(*atan2, (p.y, p.x), polar.angle),
            call_ensures(*hypot, (p.x, p.y), polar.magnitude),
    {
        Self::new(atan2(p.y, p.x), hypot(p.x, p.y))
    }
}

impl Point<u32> {
    /// The pixel at a signed offset from this one. Each coordinate wraps around at
    /// the ends of `u32`.
    pub open spec fn spec_add_signed(self, rhs: Point<i32>) -> Self {
        Point {
            x: ((self.x + rhs.x) % 0x1_0000_0000) as u32,
            y: ((self.y + rhs.y) % 0x1_0000_0000) as u32,
        }
    }

    /// Moves a pixel position by a signed offset. Each coordinate wraps around at the
    /// ends of `u32`.
    pub fn add_signed(self, rhs: Point<i32>) -> (p: Self)
        ensures
            p == self.spec_add_signed(rhs),
    {
        Self { x: self.x.wrapping_add_signed(rhs.x), y: self.y.wrapping_add_signed(rhs.y) }
    }
}

/// A geometric primitive, without a position. Only circles can be queried.
pub enum Shape<T: Number> {
    Circle { radius: T },
    Polygon { points: Vec<Point<T>>, rotation: T },
}

/// A shape anchored at a point of the plane.
pub struct Body<T: Number> {
    pub pos: Point<T>,
    pub shape: Shape<T>,
}

/// A part of the plane that can say which points it holds.
pub trait Region<T: Number> {
    /// The question can be answered for `p`: the shape is one that is understood,
    /// and the arithmetic it takes does not overflow.
    spec fn can_contain(&self, p: Point<T>) -> bool;

    /// `p` lies in the region or on its border.
    spec fn covers(&self, p: Point<T>) -> bool;

    fn contains(&self, p: Point<T>) -> (inside: bool)
        requires
            exact_arithmetic::<T>(),
            self.can_contain(p),
        ensures
            inside == self.covers(p),
    ;
}

impl<T: Number> Region<T> for Body<T> {
    open spec fn can_contain(&self, p: Point<T>) -> bool {
        match self.shape {
            Shape::Circle { radius } => {
                &&& p.can_measure_to(self.pos)
                &&& radius.mul_req(radius)
            },
            Shape::Polygon { .. } => false,
        }
    }

    /// A circle holds the points whose squared distance from its centre is at most
    /// the square of its radius.
    open spec fn covers(&self, p: Point<T>) -> bool {
        match self.shape {
            Shape::Circle { radius } => p.spec_distance_to_squared(self.pos).is_le(
                &radius.mul_spec(radius),
            ),
            Shape::Polygon { .. } => false,
        }
    }

    fn contains(&self, p: Point<T>) -> (inside: bool) {
        match &self.shape {
            Shape::Circle { radius } => (self.pos - p).length_squared() <= *radius * *radius,
            Shape::Polygon { .. } => vstd::pervasive::unreached(),
        }
    }
}

/// On the integer grid a circle holds exactly the points whose squared distance from
/// its centre is at most the squared radius; for a radius that is not negative, those
/// at a distance of at most the radius.
pub proof fn lemma_circle_covers(center: Point<i32>, radius: i32, p: Point<i32>)
    requires
        (Body { pos: center, shape: Shape::Circle { radius } }).can_contain(p),
    ensures
        (Body { pos: center, shape: Shape::Circle { radius } }).covers(p) <==> (center.x - p.x) * (
        center.x - p.x) + (center.y - p.y) * (center.y - p.y) <= radius * radius,
{
}

/// The discriminant `b * b - 4 * a * c` of the quadratic `a * x * x + b * x + c`.
pub open spec fn spec_discriminant<T: Number + From<i8>>(a: T, b: T, c: T) -> T {
    b.mul_spec(b).sub_spec(T::from_spec(4i8).mul_spec(a).mul_spec(c))
}

/// The point half way between the two solutions: `-b / (2 * a)`.
pub open spec fn spec_midpoint<T: Number + From<i8>>(a: T, b: T) -> T {
    b.mul_spec(T::from_spec(-1i8)).div_spec(T::from_spec(2i8).mul_spec(a))
}

/// The two solutions, given the root of the discriminant: the midpoint plus and minus
/// that root over `2 * a`.
pub open spec fn roots_given<T: Number + From<i8>>(a: T, b: T, root_of_discriminant: T) -> (T, T) {
    let spread = root_of_discriminant.div_spec(T::from_spec(2i8).mul_spec(a));
    (spec_midpoint(a, b).add_spec(spread), spec_midpoint(a, b).sub_spec(spread))
}

/// The two solutions can be computed from the root of the discriminant.
pub open spec fn can_roots_given<T: Number + From<i8>>(a: T, b: T, root_of_discriminant: T) -> bool {
    let doubled = T::from_spec(2i8).mul_spec(a);
    &&& root_of_discriminant.div_req(doubled)
    &&& spec_midpoint(a, b).add_req(root_of_discriminant.div_spec(doubled))
    &&& spec_midpoint(a, b).sub_req(root_of_discriminant.div_spec(doubled))
}

/// The quadratic has real solutions: its discriminant is not negative.
pub open spec fn has_solutions<T: Number + From<i8>>(a: T, b: T, c: T) -> bool {
    !spec_discriminant(a, b, c).is_lt(&T::from_spec(0i8))
}

/// The real solutions of `a * x * x + b * x + c = 0`, the greater first for a
/// positive `a`: none where the discriminant is negative.
pub open spec fn spec_solve_quadratic<T: Number + From<i8>, R: Fn(T) -> T>(
    a: T,
    b: T,
    c: T,
    root: R,
) -> Option<(T, T)> {
    if has_solutions(a, b, c) {
        Some(roots_given(a, b, root_of(root, spec_discriminant(a, b, c))))
    } else {
        None
    }
}

/// The solutions can be computed, and `then` holds of them: no step overflows or
/// divides by zero, and `root` accepts the discriminant where that is not negative.
pub open spec fn can_solve_quadratic<T: Number + From<i8>, R: Fn(T) -> T>(
    a: T,
    b: T,
    c: T,
    root: R,
    then: spec_fn(Option<(T, T)>) -> bool,
) -> bool {
    &&& b.mul_req(T::from_spec(-1i8))
    &&& T::from_spec(2i8).mul_req(a)
    &&& b.mul_spec(T::from_spec(-1i8)).div_req(T::from_spec(2i8).mul_spec(a))
    &&& b.mul_req(b)
    &&& T::from_spec(4i8).mul_req(a)
    &&& T::from_spec(4i8).mul_spec(a).mul_req(c)
    &&& b.mul_spec(b).sub_req(T::from_spec(4i8).mul_spec(a).mul_spec(c))
    &&& if has_solutions(a, b, c) {
        can_ask(
            root,
            spec_discriminant(a, b, c),
            |r: T| can_roots_given(a, b, r) && then(Some(roots_given(a, b, r))),
        )
    } else {
        then(None)
    }
}

/// Solves `a * x * x + b * x + c = 0` over the reals. The square root of the
/// discriminant is taken by `root`.
pub fn solve_quadratic<T: Number + From<i8>, R: Fn(T) -> T>(a: T, b: T, c: T, root: &R) -> (roots:
    Option<(T, T)>)
    requires
        exact_scalar::<T>(),
        is_function(*root),
        can_solve_quadratic(a, b, c, *root, |roots: Option<(T, T)>| true),
    ensures
        roots == spec_solve_quadratic(a, b, c, *root),
        forall|then: spec_fn(Option<(T, T)>) -> bool| #[trigger]
            can_solve_quadratic(a, b, c, *root, then) ==> then(roots),
{
    let midpoint = b * T::from(-1i8) / (T::from(2i8) * a);

    // If B^2 - 4AC < 0 then no real solution exists
    let v = b * b - T::from(4i8) * a * c;
    if v < T::from(0i8) {
        return None;
    }
    let delta = root(v) / (T::from(2i8) * a);

    Some((midpoint + delta, midpoint - delta))
}

} // verus!
