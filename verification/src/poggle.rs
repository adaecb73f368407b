//! The board: balls that fall under gravity, pegs that they bounce off, and the
//! step that advances both by one tick.
//!
//! The board is generic over the scalar, like the vectors it is made of. `update`
//! is the step of the game. `update_with` is the same step round any other rule of
//! collision: it takes the rule as a function from a ball and a peg's body to what
//! the bounce leaves of the ball, and decides everything round it.

use crate::collision::is_elasticity;
use crate::shape::{exact_arithmetic, exact_scalar, is_function, Body, Number, Point};
use vstd::prelude::*;
use vstd::std_specs::cmp::{PartialOrdIs, PartialOrdSpec};
use vstd::std_specs::convert::FromSpec;
use vstd::std_specs::ops::{AddSpec, DivSpec, MulSpec, SubSpec};

verus! {

/// What a power-up peg grants when it is struck.
#[derive(Clone, Copy, Debug, PartialEq, Eq, Structural)]
pub enum PowerUp {
    SuperGuide,
    MultiBall,
    Pyramid,
    Explosion,
    SpookyBall,
    MagicWheel,
    Flippers,
    Fireball,
    FlowerPower,
    Zen,
}

/// The role of a peg in the round.
#[derive(Clone, Copy, Debug, PartialEq, Eq, Structural)]
pub enum PegType {
    Standard,
    Target,
    PointBoost,
    PowerUp(PowerUp),
}

/// A point to aim at, with the direction to approach it from.
#[derive(Clone, Copy, Debug)]
pub struct Target<T: Number> {
    pub pos: Point<T>,
    pub dir: Point<T>,
}

/// The dimensions and forces of the board that a ball moves in.
#[derive(Clone, Copy, Debug)]
pub struct Playfield<T: Number> {
    pub width: T,
    pub height: T,
    /// The radius of every ball.
    pub ball_radius: T,
    /// The part of its speed that a ball keeps in a bounce.
    pub elasticity: T,
    /// The change of velocity in a unit of time.
    pub gravity: Point<T>,
}

/// A moving ball. `start` is where it was launched and never changes.
#[derive(Clone, Copy, Debug)]
pub struct Ball<T: Number> {
    pub pos: Point<T>,
    pub velocity: Point<T>,
    pub start: Point<T>,
}

/// What a collision leaves of a ball: where it is and how it moves.
#[derive(Clone, Copy, Debug)]
pub struct Bounce<T: Number> {
    pub pos: Point<T>,
    pub velocity: Point<T>,
}

/// A fixed obstacle. `is_hit` tells whether a ball has struck it since the board was
/// last empty.
pub struct Peg<T: Number> {
    pub body: Body<T>,
    pub is_hit: bool,
    pub peg_type: PegType,
}

impl<T: Number> Ball<T> {
    /// A ball launched at `pos` with `velocity`.
    pub fn new(pos: Point<T>, velocity: Point<T>) -> (ball: Self)
        ensures
            ball == (Ball { pos, velocity, start: pos }),
    {
        Self { pos, velocity, start: pos }
    }

    /// One tick of gravity and travel can be computed.
    pub open spec fn can_integrate(self, gravity: Point<T>, d: T) -> bool {
        &&& gravity.mul_req(d)
        &&& self.velocity.add_req(gravity.mul_spec(d))
        &&& self.velocity.add_spec(gravity.mul_spec(d)).mul_req(d)
        &&& self.pos.add_req(self.velocity.add_spec(gravity.mul_spec(d)).mul_spec(d))
    }

    /// The ball after a tick of length `d` in free fall: gravity changes the
    /// velocity first, and the ball then travels at the new velocity.
    pub open spec fn integrated(self, gravity: Point<T>, d: T) -> Self {
        let velocity = self.velocity.add_spec(gravity.mul_spec(d));
        Ball { pos: self.pos.add_spec(velocity.mul_spec(d)), velocity, start: self.start }
    }

    /// Advances the ball by a tick of length `d` in free fall.
    pub fn integrate(&mut self, gravity: Point<T>, d: T)
        requires
            exact_arithmetic::<T>(),
            old(self).can_integrate(gravity, d),
        ensures
            *final(self) == old(self).integrated(gravity, d),
    {
        self.velocity = self.velocity + gravity * d;
        self.pos = self.pos + self.velocity * d;
    }

    /// The ball as a collision leaves it.
    pub open spec fn bounced(self, bounce: Bounce<T>) -> Self {
        Ball { pos: bounce.pos, velocity: bounce.velocity, start: self.start }
    }
}

impl<T: Number + From<i8>> Playfield<T> {
    /// The height below which a ball is lost: the field's height and one radius more.
    pub open spec fn spec_floor(self) -> T {
        self.height.add_spec(self.ball_radius)
    }

    /// The least `x` at which a ball is still clear of the left wall: half a radius.
    pub open spec fn spec_left_wall(self) -> T {
        self.ball_radius.div_spec(T::from_spec(2i8))
    }

    /// The greatest `x` at which a ball is still clear of the right wall.
    pub open spec fn spec_right_wall(self) -> T {
        self.width.sub_spec(self.spec_left_wall())
    }

    /// The elasticity is a part of the whole, and the floor and both walls can be
    /// computed.
    pub open spec fn well_formed(self) -> bool {
        &&& is_elasticity(self.elasticity)
        &&& self.height.add_req(self.ball_radius)
        &&& self.ball_radius.div_req(T::from_spec(2i8))
        &&& self.width.sub_req(self.spec_left_wall())
    }

    /// The ball has fallen below the floor.
    pub open spec fn spec_is_lost(self, ball: Ball<T>) -> bool {
        ball.pos.y.is_gt(&self.spec_floor())
    }

    /// Whether the ball has fallen below the floor.
    pub fn is_lost(&self, ball: &Ball<T>) -> (lost: bool)
        requires
            exact_scalar::<T>(),
            self.well_formed(),
        ensures
            lost == self.spec_is_lost(*ball),
    {
        ball.pos.y > self.height + self.ball_radius
    }

    /// The position lies left of the left wall or right of the right wall.
    pub open spec fn spec_is_beyond_walls(self, pos: Point<T>) -> bool {
        pos.x.is_lt(&self.spec_left_wall()) || pos.x.is_gt(&self.spec_right_wall())
    }

    /// Whether the position lies left of the left wall or right of the right wall.
    pub fn is_beyond_walls(&self, pos: Point<T>) -> (beyond: bool)
        requires
            exact_scalar::<T>(),
            self.well_formed(),
        ensures
            beyond == self.spec_is_beyond_walls(pos),
    {
        let margin = self.ball_radius / T::from(2i8);
        pos.x < margin || pos.x > self.width - margin
    }

    /// Where the wall rule applies to the ball, its horizontal velocity can be turned
    /// round.
    pub open spec fn can_rebound(self, ball: Ball<T>) -> bool {
        self.spec_is_beyond_walls(ball.pos) ==> ball.velocity.x.mul_req(T::from_spec(-1i8))
    }

    /// The ball after the wall rule: beyond a wall its horizontal velocity changes
    /// sign. Its position is left as it is.
    pub open spec fn rebounded(self, ball: Ball<T>) -> Ball<T> {
        if self.spec_is_beyond_walls(ball.pos) {
            Ball {
                pos: ball.pos,
                velocity: Point {
                    x: ball.velocity.x.mul_spec(T::from_spec(-1i8)),
                    y: ball.velocity.y,
                },
                start: ball.start,
            }
        } else {
            ball
        }
    }

    /// Applies the wall rule to the ball.
    pub fn rebound(&self, ball: &mut Ball<T>)
        requires
            exact_scalar::<T>(),
            self.well_formed(),
            self.can_rebound(*old(ball)),
        ensures
            *final(ball) == self.rebounded(*old(ball)),
    {
        if self.is_beyond_walls(ball.pos) {
            ball.velocity.x = ball.velocity.x * T::from(-1i8);
        }
    }
}

impl<T: Number + From<i8>> Ball<T> {
    /// The kinetic energy of a unit mass: half the squared speed.
    pub open spec fn spec_kinetic_energy(self) -> T {
        self.velocity.spec_length_squared().div_spec(T::from_spec(2i8))
    }

    /// The potential energy of a unit mass: the height above the bottom of the
    /// field, times the downward pull.
    pub open spec fn spec_potential_energy(self, field: Playfield<T>) -> T {
        field.height.sub_spec(self.pos.y).mul_spec(field.gravity.y)
    }

    /// Kinetic and potential energy together.
    pub open spec fn spec_total_energy(self, field: Playfield<T>) -> T {
        self.spec_kinetic_energy().add_spec(self.spec_potential_energy(field))
    }

    /// The kinetic energy can be computed.
    pub open spec fn can_measure_kinetic(self) -> bool {
        &&& self.velocity.can_dot(self.velocity)
        &&& self.velocity.spec_length_squared().div_req(T::from_spec(2i8))
    }

    /// The potential energy can be computed.
    pub open spec fn can_measure_potential(self, field: Playfield<T>) -> bool {
        &&& field.height.sub_req(self.pos.y)
        &&& field.height.sub_spec(self.pos.y).mul_req(field.gravity.y)
    }

    /// Both energies and their sum can be computed.
    pub open spec fn can_measure_energy(self, field: Playfield<T>) -> bool {
        &&& self.can_measure_kinetic()
        &&& self.can_measure_potential(field)
        &&& self.spec_kinetic_energy().add_req(self.spec_potential_energy(field))
    }

    /// The kinetic energy of the ball, for a unit mass.
    pub fn kinetic_energy(&self) -> (energy: T)
        requires
            exact_scalar::<T>(),
            self.can_measure_kinetic(),
        ensures
            energy == self.spec_kinetic_energy(),
    {
        self.velocity.length_squared() / T::from(2i8)
    }

    /// The potential energy of the ball in `field`, for a unit mass.
    pub fn potential_energy(&self, field: &Playfield<T>) -> (energy: T)
        requires
            exact_scalar::<T>(),
            self.can_measure_potential(*field),
        ensures
            energy == self.spec_potential_energy(*field),
    {
        (field.height - self.pos.y) * field.gravity.y
    }

    /// The energy of the ball in `field`. It depends on the ball's position and
    /// velocity alone: asked twice of the same ball, it answers the same.
    pub fn total_energy(&self, field: &Playfield<T>) -> (energy: T)
        requires
            exact_scalar::<T>(),
            self.can_measure_energy(*field),
        ensures
            energy == self.spec_total_energy(*field),
    {
        self.kinetic_energy() + self.potential_energy(field)
    }

    /// The ball as it was launched, taken to have been at rest.
    pub open spec fn at_launch(self) -> Self {
        Ball {
            pos: self.start,
            velocity: Point { x: T::from_spec(0i8), y: T::from_spec(0i8) },
            start: self.start,
        }
    }

    /// The ball has more energy than it could have got from its fall.
    pub open spec fn spec_has_gained_energy(self, field: Playfield<T>) -> bool {
        self.spec_total_energy(field).is_gt(&self.at_launch().spec_total_energy(field))
    }

    /// Whether the ball has more energy now than a ball at rest where this one was
    /// launched. No bounce and no fall can give it that: where the answer is yes, the
    /// simulation has added energy.
    pub fn has_gained_energy(&self, field: &Playfield<T>) -> (gained: bool)
        requires
            exact_scalar::<T>(),
            self.can_measure_energy(*field),
            self.at_launch().can_measure_energy(*field),
        ensures
            gained == self.spec_has_gained_energy(*field),
    {
        let launched = Ball::new(self.start, Point::new(T::from(0i8), T::from(0i8)));
        self.total_energy(field) > launched.total_energy(field)
    }
}

/// The colours that balls and pegs are drawn in.
#[derive(Clone, Copy, Debug, PartialEq, Eq, Structural)]
pub enum Paint {
    Red,
    Green,
    Blue,
    Yellow,
    Magenta,
}

impl<T: Number> Peg<T> {
    /// The colour of the peg: by its role, and for a standard peg by whether it has
    /// been hit.
    pub open spec fn spec_paint(&self) -> Paint {
        match self.peg_type {
            PegType::Standard => if self.is_hit {
                Paint::Yellow
            } else {
                Paint::Blue
            },
            PegType::Target => Paint::Red,
            PegType::PointBoost => Paint::Magenta,
            PegType::PowerUp(_) => Paint::Green,
        }
    }

    /// The colour to draw the peg in.
    pub fn paint(&self) -> (paint: Paint)
        ensures
            paint == self.spec_paint(),
    {
        match self.peg_type {
            PegType::Standard => {
                if self.is_hit {
                    Paint::Yellow
                } else {
                    Paint::Blue
                }
            },
            PegType::Target => Paint::Red,
            PegType::PointBoost => Paint::Magenta,
            PegType::PowerUp(_) => Paint::Green,
        }
    }
}

impl<T: Number + From<i8>> Ball<T> {
    /// The colour to draw the ball in: green where it has gained energy, red where
    /// it has not.
    pub fn paint(&self, field: &Playfield<T>) -> (paint: Paint)
        requires
            exact_scalar::<T>(),
            self.can_measure_energy(*field),
            self.at_launch().can_measure_energy(*field),
        ensures
            paint == if self.spec_has_gained_energy(*field) {
                Paint::Green
            } else {
                Paint::Red
            },
    {
        if self.has_gained_energy(field) {
            Paint::Green
        } else {
            Paint::Red
        }
    }
}

/// `hit` is what a scan of `pegs` in their order can answer for `ball`: the first peg
/// for which `collide` reports a collision, with what it leaves of the ball, or
/// nothing where it reports none for any peg.
pub open spec fn is_first_collision<T: Number, F: Fn(&Ball<T>, &Body<T>, T) -> Option<Bounce<T>>>(
    collide: F,
    pegs: Seq<Peg<T>>,
    ball: Ball<T>,
    d: T,
    hit: Option<(int, Bounce<T>)>,
) -> bool {
    match hit {
        Some((j, bounce)) => {
            &&& 0 <= j < pegs.len()
            &&& call_ensures(collide, (&ball, &pegs[j].body, d), Some(bounce))
            &&& forall|k: int|
                0 <= k < j ==> call_ensures(
                    collide,
                    (&ball, &#[trigger] pegs[k].body, d),
                    None::<Bounce<T>>,
                )
        },
        None => forall|k: int|
            0 <= k < pegs.len() ==> call_ensures(
                collide,
                (&ball, &#[trigger] pegs[k].body, d),
                None::<Bounce<T>>,
            ),
    }
}

/// The index that a scan reports, as a mathematical integer.
pub open spec fn hit_view<T: Number>(hit: Option<(usize, Bounce<T>)>) -> Option<(int, Bounce<T>)> {
    match hit {
        Some((j, bounce)) => Some((j as int, bounce)),
        None => None,
    }
}

/// Scans the pegs in their order and stops at the first one that `collide` reports a
/// collision with. Pegs behind it are not asked, even where the ball would reach one
/// of them earlier.
pub fn first_collision<T: Number, F: Fn(&Ball<T>, &Body<T>, T) -> Option<Bounce<T>>>(
    pegs: &Vec<Peg<T>>,
    ball: &Ball<T>,
    d: T,
    collide: &F,
) -> (hit: Option<(usize, Bounce<T>)>)
    requires
        forall|j: int|
            0 <= j < pegs.len() ==> call_requires(*collide, (ball, &#[trigger] pegs[j].body, d)),
    ensures
        is_first_collision(*collide, pegs@, *ball, d, hit_view(hit)),
{
    let mut j: usize = 0;
    while j < pegs.len()
        invariant
            j <= pegs.len(),
            forall|k: int|
                0 <= k < pegs.len() ==> call_requires(
                    *collide,
                    (ball, &#[trigger] pegs[k].body, d),
                ),
            forall|k: int|
                0 <= k < j ==> call_ensures(
                    *collide,
                    (ball, &#[trigger] pegs[k].body, d),
                    None::<Bounce<T>>,
                ),
        decreases pegs.len() - j,
    {
        match collide(ball, &pegs[j].body, d) {
            Some(bounce) => {
                return Some((j, bounce));
            },
            None => {},
        }
        j += 1;
    }
    None
}

impl<T: Number + From<i8>> Playfield<T> {
    /// The ball after one tick on the board: free fall, then the bounce that the scan
    /// of the pegs found for it, if any, then the wall rule.
    pub open spec fn stepped(self, ball: Ball<T>, d: T, hit: Option<(int, Bounce<T>)>) -> Ball<T> {
        self.rebounded(self.traveled(ball, d, hit))
    }

    /// The ball after free fall and the bounce that the scan found for it, if any:
    /// what the wall rule is applied to.
    pub open spec fn traveled(self, ball: Ball<T>, d: T, hit: Option<(int, Bounce<T>)>) -> Ball<T> {
        let moved = ball.integrated(self.gravity, d);
        match hit {
            Some((_, bounce)) => moved.bounced(bounce),
            None => moved,
        }
    }

    /// The pool after one tick: the balls that had not fallen below the floor, each
    /// stepped with the answer of its scan, in their order. `hits` holds one answer
    /// for each ball of `balls`.
    pub open spec fn survivors(
        self,
        balls: Seq<Ball<T>>,
        d: T,
        hits: Seq<Option<(int, Bounce<T>)>>,
    ) -> Seq<Ball<T>>
        decreases balls.len(),
    {
        if balls.len() == 0 {
            Seq::empty()
        } else {
            let earlier = self.survivors(balls.drop_last(), d, hits.drop_last());
            if self.spec_is_lost(balls.last()) {
                earlier
            } else {
                earlier.push(self.stepped(balls.last(), d, hits.last()))
            }
        }
    }

    /// Some ball that had not fallen below the floor struck peg `j` in this tick.
    pub open spec fn is_struck(
        self,
        balls: Seq<Ball<T>>,
        hits: Seq<Option<(int, Bounce<T>)>>,
        j: int,
    ) -> bool {
        exists|i: int|
            0 <= i < balls.len() && !self.spec_is_lost(#[trigger] balls[i]) && hits[i].is_some()
                && hits[i].unwrap().0 == j
    }
}

/// One round on one board: the balls in play, the pegs, and the field around them.
pub struct Poggle<T: Number> {
    balls: Vec<Ball<T>>,
    pegs: Vec<Peg<T>>,
    field: Playfield<T>,
}

impl<T: Number + From<i8>> Poggle<T> {
    /// The balls in play, in the order in which they are stepped.
    pub closed spec fn spec_balls(&self) -> Seq<Ball<T>> {
        self.balls@
    }

    /// The pegs, in the order in which they are scanned.
    pub closed spec fn spec_pegs(&self) -> Seq<Peg<T>> {
        self.pegs@
    }

    /// The field that the board was made with.
    pub closed spec fn spec_field(&self) -> Playfield<T> {
        self.field
    }

    /// The field's limits can be computed, and while no ball is in play no peg is
    /// marked as hit.
    pub open spec fn well_formed(&self) -> bool {
        &&& self.spec_field().well_formed()
        &&& self.spec_balls().len() == 0 ==> forall|j: int|
            0 <= j < self.spec_pegs().len() ==> !(#[trigger] self.spec_pegs()[j]).is_hit
    }

    /// An empty board with a standard peg for each body of the layout, none of them
    /// hit.
    pub fn new(field: Playfield<T>, layout: Vec<Body<T>>) -> (board: Self)
        requires
            field.well_formed(),
        ensures
            board.well_formed(),
            board.spec_field() == field,
            board.spec_balls() == Seq::<Ball<T>>::empty(),
            board.spec_pegs().len() == layout.len(),
            forall|j: int|
                0 <= j < layout.len() ==> #[trigger] board.spec_pegs()[j] == (Peg {
                    body: layout[j],
                    is_hit: false,
                    peg_type: PegType::Standard,
                }),
    {
        let mut pegs: Vec<Peg<T>> = Vec::new();
        for body in it: layout
            invariant
                pegs.len() == it.index(),
                forall|j: int|
                    0 <= j < pegs.len() ==> #[trigger] pegs[j] == (Peg {
                        body: it.seq()[j],
                        is_hit: false,
                        peg_type: PegType::Standard,
                    }),
        {
            pegs.push(Peg { body, is_hit: false, peg_type: PegType::Standard });
        }
        Poggle { balls: Vec::new(), pegs, field }
    }

    /// The balls in play.
    pub fn balls(&self) -> (balls: &Vec<Ball<T>>)
        ensures
            balls@ == self.spec_balls(),
    {
        &self.balls
    }

    /// The pegs of the board.
    pub fn pegs(&self) -> (pegs: &Vec<Peg<T>>)
        ensures
            pegs@ == self.spec_pegs(),
    {
        &self.pegs
    }

    /// The field that the board was made with.
    pub fn field(&self) -> (field: &Playfield<T>)
        ensures
            *field == self.spec_field(),
    {
        &self.field
    }

    /// Puts a new ball into play, behind those that are there.
    pub fn shoot(&mut self, origin: Point<T>, velocity: Point<T>)
        requires
            old(self).well_formed(),
        ensures
            final(self).well_formed(),
            final(self).spec_balls() == old(self).spec_balls().push(
                Ball { pos: origin, velocity, start: origin },
            ),
            final(self).spec_pegs() == old(self).spec_pegs(),
            final(self).spec_field() == old(self).spec_field(),
    {
        self.balls.push(Ball::new(origin, velocity));
    }
}

impl<T: Number + From<i8>> Poggle<T> {
    /// The tick can be computed for `ball`: unless it has fallen below the floor, its
    /// free fall does not overflow, `collide` accepts the fallen ball with every peg,
    /// and the wall rule can be applied to whatever comes of it.
    pub open spec fn can_step_with<F: Fn(&Ball<T>, &Body<T>, T) -> Option<Bounce<T>>>(
        &self,
        ball: Ball<T>,
        d: T,
        collide: F,
    ) -> bool {
        let field = self.spec_field();
        let moved = ball.integrated(field.gravity, d);
        !field.spec_is_lost(ball) ==> {
            &&& ball.can_integrate(field.gravity, d)
            &&& field.can_rebound(moved)
            &&& forall|j: int|
                0 <= j < self.spec_pegs().len() ==> call_requires(
                    collide,
                    (&moved, &#[trigger] self.spec_pegs()[j].body, d),
                )
            &&& forall|j: int, bounce: Bounce<T>|
                0 <= j < self.spec_pegs().len() && #[trigger] call_ensures(
                    collide,
                    (&moved, &self.spec_pegs()[j].body, d),
                    Some(bounce),
                ) ==> field.can_rebound(moved.bounced(bounce))
        }
    }

    /// The tick can be computed for every ball in play.
    pub open spec fn can_update_with<F: Fn(&Ball<T>, &Body<T>, T) -> Option<Bounce<T>>>(
        &self,
        d: T,
        collide: F,
    ) -> bool {
        forall|i: int|
            0 <= i < self.spec_balls().len() ==> self.can_step_with(
                #[trigger] self.spec_balls()[i],
                d,
                collide,
            )
    }

    /// `hits` holds, for each ball that had not fallen below the floor, what a scan
    /// of the pegs with `collide` can answer for it after its free fall.
    pub open spec fn scanned_with<F: Fn(&Ball<T>, &Body<T>, T) -> Option<Bounce<T>>>(
        &self,
        d: T,
        collide: F,
        hits: Seq<Option<(int, Bounce<T>)>>,
    ) -> bool {
        let field = self.spec_field();
        let balls = self.spec_balls();
        &&& hits.len() == balls.len()
        &&& forall|i: int|
            0 <= i < balls.len() && !field.spec_is_lost(#[trigger] balls[i])
                ==> is_first_collision(
                collide,
                self.spec_pegs(),
                balls[i].integrated(field.gravity, d),
                d,
                hits[i],
            )
    }

    /// `after` is the board one tick of length `d` after `self`, where `hits` holds
    /// what the scan of the pegs answered for each ball.
    ///
    /// Balls below the floor are gone and the others are stepped. A peg is marked as
    /// hit if it was so before or was struck in this tick; but if no ball is left,
    /// no peg is marked. Nothing else changes.
    pub open spec fn outcome(&self, d: T, hits: Seq<Option<(int, Bounce<T>)>>, after: Self) -> bool {
        let field = self.spec_field();
        let balls = self.spec_balls();
        let pegs = self.spec_pegs();
        &&& hits.len() == balls.len()
        &&& after.spec_field() == field
        &&& after.spec_balls() == field.survivors(balls, d, hits)
        &&& after.spec_pegs().len() == pegs.len()
        &&& forall|j: int|
            0 <= j < pegs.len() ==> {
                let peg = #[trigger] after.spec_pegs()[j];
                &&& peg.body == pegs[j].body
                &&& peg.peg_type == pegs[j].peg_type
                &&& peg.is_hit == (after.spec_balls().len() > 0 && (pegs[j].is_hit
                    || field.is_struck(balls, hits, j)))
            }
    }

    /// Advances the board by one tick of length `d`, with collisions as `collide`
    /// reports them.
    ///
    /// Each ball in its turn: one that has fallen below the floor leaves the pool.
    /// Any other falls freely for the tick; then the pegs are scanned in their
    /// order, and the first one that `collide` reports a collision with is marked as
    /// hit and the ball takes the position and velocity that `collide` gives; then
    /// the wall rule is applied. When no ball is left at the end, every peg's mark
    /// is cleared.
    pub fn update_with<F: Fn(&Ball<T>, &Body<T>, T) -> Option<Bounce<T>>>(
        &mut self,
        d: T,
        collide: F,
    )
        requires
            exact_scalar::<T>(),
            old(self).well_formed(),
            old(self).can_update_with(d, collide),
        ensures
            final(self).well_formed(),
            exists|hits: Seq<Option<(int, Bounce<T>)>>|
                old(self).scanned_with(d, collide, hits) && old(self).outcome(
                    d,
                    hits,
                    *final(self),
                ),
    {
        let ghost balls = self.spec_balls();
        let ghost pegs = self.spec_pegs();
        let ghost field = self.spec_field();
        let ghost mut hits: Seq<Option<(int, Bounce<T>)>> = Seq::empty();
        let mut kept: Vec<Ball<T>> = Vec::new();
        let mut i: usize = 0;
        while i < self.balls.len()
            invariant
                exact_scalar::<T>(),
                field.well_formed(),
                old(self).can_update_with(d, collide),
                balls == old(self).spec_balls(),
                pegs == old(self).spec_pegs(),
                field == old(self).spec_field(),
                self.balls@ == balls,
                self.field == field,
                self.pegs.len() == pegs.len(),
                i <= balls.len(),
                hits.len() == i,
                kept@ == field.survivors(balls.take(i as int), d, hits),
                forall|k: int|
                    0 <= k < i && !field.spec_is_lost(#[trigger] balls[k]) ==> is_first_collision(
                        collide,
                        pegs,
                        balls[k].integrated(field.gravity, d),
                        d,
                        hits[k],
                    ),
                forall|j: int|
                    0 <= j < pegs.len() ==> {
                        let peg = #[trigger] self.pegs[j];
                        &&& peg.body == pegs[j].body
                        &&& peg.peg_type == pegs[j].peg_type
                        &&& peg.is_hit == (pegs[j].is_hit || field.is_struck(
                            balls.take(i as int),
                            hits,
                            j,
                        ))
                    },
            decreases balls.len() - i,
        {
            let mut ball = self.balls[i];
            let ghost mut hit: Option<(int, Bounce<T>)> = None;
            let ghost earlier = hits;
            let ghost marked = self.pegs@;
            assert(old(self).can_step_with(old(self).spec_balls()[i as int], d, collide));
            if !self.field.is_lost(&ball) {
                ball.integrate(self.field.gravity, d);
                let ghost moved = ball;
                assert forall|j: int| 0 <= j < self.pegs.len() implies call_requires(
                    collide,
                    (&ball, &#[trigger] self.pegs[j].body, d),
                ) by {
                    assert(self.pegs[j].body == old(self).spec_pegs()[j].body);
                }
                let found = first_collision(&self.pegs, &ball, d, &collide);
                proof {
                    hit = hit_view(found);
                    lemma_scan_reads_bodies(collide, marked, pegs, moved, d, hit);
                }
                match found {
                    Some((j, bounce)) => {
                        ball.pos = bounce.pos;
                        ball.velocity = bounce.velocity;
                        self.pegs[j].is_hit = true;
                        assert(call_ensures(
                            collide,
                            (&moved, &old(self).spec_pegs()[j as int].body, d),
                            Some(bounce),
                        ));
                    },
                    None => {},
                }
                self.field.rebound(&mut ball);
                kept.push(ball);
            }
            proof {
                hits = earlier.push(hit);
                assert(balls.take(i + 1).drop_last() == balls.take(i as int));
                assert(hits.drop_last() == earlier);
                assert forall|j: int| 0 <= j < pegs.len() implies {
                    let peg = #[trigger] self.pegs[j];
                    &&& peg.body == pegs[j].body
                    &&& peg.peg_type == pegs[j].peg_type
                    &&& peg.is_hit == (pegs[j].is_hit || field.is_struck(balls.take(i + 1), hits, j))
                } by {
                    assert(marked[j].body == pegs[j].body);
                    field.lemma_struck_by_last(balls.take(i + 1), hits, j);
                }
            }
            i += 1;
        }
        assert(balls.take(i as int) == balls);
        self.balls = kept;
        let ghost marked = self.pegs@;
        if self.balls.len() == 0 {
            let mut j: usize = 0;
            while j < self.pegs.len()
                invariant
                    j <= self.pegs.len(),
                    self.pegs.len() == marked.len(),
                    self.balls@ == kept@,
                    self.field == field,
                    forall|k: int|
                        0 <= k < marked.len() ==> {
                            let peg = #[trigger] self.pegs[k];
                            &&& peg.body == marked[k].body
                            &&& peg.peg_type == marked[k].peg_type
                            &&& k < j ==> !peg.is_hit
                        },
                decreases self.pegs.len() - j,
            {
                self.pegs[j].is_hit = false;
                j += 1;
            }
        }
        assert(old(self).scanned_with(d, collide, hits) && old(self).outcome(d, hits, *self));
    }
}

impl<T: Number + From<i8>> Poggle<T> {
    /// `hit` is what a scan of the pegs finds for `ball`: the first peg, in their
    /// order, that the ball touches within the tick, with what the bounce leaves of
    /// the ball.
    pub open spec fn is_first_hit<R: Fn(T) -> T>(
        &self,
        ball: Ball<T>,
        d: T,
        root: R,
        hit: Option<(int, Bounce<T>)>,
    ) -> bool {
        let field = self.spec_field();
        let pegs = self.spec_pegs();
        match hit {
            Some((j, bounce)) => {
                &&& 0 <= j < pegs.len()
                &&& ball.spec_collide(pegs[j].body, d, field.ball_radius, field.elasticity, root)
                    == Some(bounce)
                &&& forall|k: int|
                    0 <= k < j ==> ball.spec_collide(
                        (#[trigger] pegs[k]).body,
                        d,
                        field.ball_radius,
                        field.elasticity,
                        root,
                    ).is_none()
            },
            None => forall|k: int|
                0 <= k < pegs.len() ==> ball.spec_collide(
                    (#[trigger] pegs[k]).body,
                    d,
                    field.ball_radius,
                    field.elasticity,
                    root,
                ).is_none(),
        }
    }

    /// `hits` holds, for each ball that had not fallen below the floor, what a scan
    /// of the pegs finds for it after its free fall.
    pub open spec fn scanned<R: Fn(T) -> T>(
        &self,
        d: T,
        root: R,
        hits: Seq<Option<(int, Bounce<T>)>>,
    ) -> bool {
        let field = self.spec_field();
        let balls = self.spec_balls();
        &&& hits.len() == balls.len()
        &&& forall|i: int|
            0 <= i < balls.len() && !field.spec_is_lost(#[trigger] balls[i]) ==> self.is_first_hit(
                balls[i].integrated(field.gravity, d),
                d,
                root,
                hits[i],
            )
    }

    /// The tick can be computed for `ball`: unless it has fallen below the floor, its
    /// free fall does not overflow, its collision with each peg can be computed, and
    /// the wall rule can be applied to whatever comes of it.
    pub open spec fn can_step<R: Fn(T) -> T>(&self, ball: Ball<T>, d: T, root: R) -> bool {
        let field = self.spec_field();
        let moved = ball.integrated(field.gravity, d);
        !field.spec_is_lost(ball) ==> {
            &&& ball.can_integrate(field.gravity, d)
            &&& field.can_rebound(moved)
            &&& forall|j: int|
                0 <= j < self.spec_pegs().len() ==> moved.can_collide(
                    (#[trigger] self.spec_pegs()[j]).body,
                    d,
                    field.ball_radius,
                    field.elasticity,
                    root,
                    |bounce: Option<Bounce<T>>|
                        match bounce {
                            Some(bounce) => field.can_rebound(moved.bounced(bounce)),
                            None => true,
                        },
                )
        }
    }

    /// The tick can be computed for every ball in play.
    pub open spec fn can_update<R: Fn(T) -> T>(&self, d: T, root: R) -> bool {
        forall|i: int|
            0 <= i < self.spec_balls().len() ==> self.can_step(
                #[trigger] self.spec_balls()[i],
                d,
                root,
            )
    }

    /// Advances the board by one tick of length `d`. Square roots are taken by
    /// `root`.
    ///
    /// Each ball in its turn: one that has fallen below the floor leaves the pool.
    /// Any other falls freely for the tick; then the pegs are scanned in their
    /// order, and at the first one that the ball touches within the tick the ball
    /// bounces and the peg is marked as hit, and no further peg is looked at; then
    /// the wall rule is applied. When no ball is left at the end, every peg's mark
    /// is cleared.
    pub fn update<R: Fn(T) -> T + Copy>(&mut self, d: T, root: &R)
        requires
            exact_scalar::<T>(),
            is_function(*root),
            old(self).well_formed(),
            old(self).can_update(d, *root),
        ensures
            final(self).well_formed(),
            exists|hits: Seq<Option<(int, Bounce<T>)>>|
                old(self).scanned(d, *root, hits) && old(self).outcome(d, hits, *final(self)),
    {
        let root = *root;
        let radius = self.field.ball_radius;
        let elasticity = self.field.elasticity;
        let collide = |ball: &Ball<T>, body: &Body<T>, d: T| -> (bounce: Option<Bounce<T>>)
            requires
                ball.can_collide(
                    *body,
                    d,
                    radius,
                    elasticity,
                    root,
                    |bounce: Option<Bounce<T>>| true,
                ),
            ensures
                bounce == ball.spec_collide(*body, d, radius, elasticity, root),
                forall|then: spec_fn(Option<Bounce<T>>) -> bool| #[trigger]
                    ball.can_collide(*body, d, radius, elasticity, root, then) ==> then(bounce),
            { ball.collide(body, d, radius, elasticity, &root) };
        self.update_with(d, collide);
        proof {
            let hits = choose|hits: Seq<Option<(int, Bounce<T>)>>|
                old(self).scanned_with(d, collide, hits) && old(self).outcome(d, hits, *self);
            assert(old(self).scanned(d, root, hits));
        }
    }
}

/// A scan asks `collide` about the bodies of the pegs and nothing else of them.
proof fn lemma_scan_reads_bodies<T: Number, F: Fn(&Ball<T>, &Body<T>, T) -> Option<Bounce<T>>>(
    collide: F,
    pegs: Seq<Peg<T>>,
    others: Seq<Peg<T>>,
    ball: Ball<T>,
    d: T,
    hit: Option<(int, Bounce<T>)>,
)
    requires
        pegs.len() == others.len(),
        forall|j: int| 0 <= j < pegs.len() ==> (#[trigger] pegs[j]).body == others[j].body,
        is_first_collision(collide, pegs, ball, d, hit),
    ensures
        is_first_collision(collide, others, ball, d, hit),
{
    match hit {
        Some((j, bounce)) => {
            assert(pegs[j].body == others[j].body);
            assert forall|k: int| 0 <= k < j implies call_ensures(
                collide,
                (&ball, &#[trigger] others[k].body, d),
                None::<Bounce<T>>,
            ) by {
                assert(pegs[k].body == others[k].body);
            }
        },
        None => {
            assert forall|k: int| 0 <= k < others.len() implies call_ensures(
                collide,
                (&ball, &#[trigger] others[k].body, d),
                None::<Bounce<T>>,
            ) by {
                assert(pegs[k].body == others[k].body);
            }
        },
    }
}

impl<T: Number + From<i8>> Playfield<T> {
    /// A peg was struck in a tick by the last ball or by one before it.
    proof fn lemma_struck_by_last(
        self,
        balls: Seq<Ball<T>>,
        hits: Seq<Option<(int, Bounce<T>)>>,
        j: int,
    )
        requires
            balls.len() > 0,
            hits.len() == balls.len(),
        ensures
            self.is_struck(balls, hits, j) <==> self.is_struck(
                balls.drop_last(),
                hits.drop_last(),
                j,
            ) || (!self.spec_is_lost(balls.last()) && hits.last().is_some()
                && hits.last().unwrap().0 == j),
    {
        let n = balls.len() - 1;
        if self.is_struck(balls, hits, j) {
            let i = choose|i: int|
                0 <= i < balls.len() && !self.spec_is_lost(#[trigger] balls[i])
                    && hits[i].is_some() && hits[i].unwrap().0 == j;
            if i < n {
                assert(balls.drop_last()[i] == balls[i]);
                assert(hits.drop_last()[i] == hits[i]);
            }
        }
        if self.is_struck(balls.drop_last(), hits.drop_last(), j) {
            let i = choose|i: int|
                0 <= i < balls.drop_last().len() && !self.spec_is_lost(
                    #[trigger] balls.drop_last()[i],
                ) && hits.drop_last()[i].is_some() && hits.drop_last()[i].unwrap().0 == j;
            assert(balls.drop_last()[i] == balls[i]);
            assert(hits.drop_last()[i] == hits[i]);
        }
        if !self.spec_is_lost(balls.last()) && hits.last().is_some() && hits.last().unwrap().0
            == j {
            assert(!self.spec_is_lost(balls[n]));
        }
    }
}

impl<T: Number + From<i8>> Playfield<T> {
    /// `left` is what a tick makes of some ball of `balls` that had not fallen below
    /// the floor.
    pub open spec fn is_stepped_from(
        self,
        left: Ball<T>,
        balls: Seq<Ball<T>>,
        d: T,
        hits: Seq<Option<(int, Bounce<T>)>>,
    ) -> bool {
        exists|i: int|
            0 <= i < balls.len() && !self.spec_is_lost(#[trigger] balls[i]) && left
                == self.stepped(balls[i], d, hits[i])
    }

    /// Lost balls leave the pool and no others do: a tick leaves one ball for each
    /// ball that had not fallen below the floor, which is that ball stepped, and
    /// nothing else.
    pub proof fn lemma_lost_balls_leave(
        self,
        balls: Seq<Ball<T>>,
        d: T,
        hits: Seq<Option<(int, Bounce<T>)>>,
    )
        requires
            hits.len() == balls.len(),
        ensures
            self.survivors(balls, d, hits).len() == balls.filter(
                |ball: Ball<T>| !self.spec_is_lost(ball),
            ).len(),
            forall|i: int|
                0 <= i < balls.len() && !self.spec_is_lost(#[trigger] balls[i])
                    ==> self.survivors(balls, d, hits).contains(
                    self.stepped(balls[i], d, hits[i]),
                ),
            forall|k: int|
                0 <= k < self.survivors(balls, d, hits).len() ==> self.is_stepped_from(
                    #[trigger] self.survivors(balls, d, hits)[k],
                    balls,
                    d,
                    hits,
                ),
        decreases balls.len(),
    {
        reveal(Seq::filter);
        let left = self.survivors(balls, d, hits);
        if balls.len() > 0 {
            let n = balls.len() - 1;
            let earlier = self.survivors(balls.drop_last(), d, hits.drop_last());
            self.lemma_lost_balls_leave(balls.drop_last(), d, hits.drop_last());
            assert forall|i: int| 0 <= i < balls.len() && !self.spec_is_lost(
                #[trigger] balls[i],
            ) implies left.contains(self.stepped(balls[i], d, hits[i])) by {
                if i < n {
                    assert(balls.drop_last()[i] == balls[i]);
                    assert(hits.drop_last()[i] == hits[i]);
                    let k = choose|k: int|
                        0 <= k < earlier.len() && earlier[k] == self.stepped(
                            balls[i],
                            d,
                            hits[i],
                        );
                    assert(left[k] == earlier[k]);
                } else {
                    assert(left[left.len() - 1] == self.stepped(balls[i], d, hits[i]));
                }
            }
            assert forall|k: int| 0 <= k < left.len() implies self.is_stepped_from(
                #[trigger] left[k],
                balls,
                d,
                hits,
            ) by {
                if k < earlier.len() {
                    assert(self.is_stepped_from(
                        earlier[k],
                        balls.drop_last(),
                        d,
                        hits.drop_last(),
                    ));
                    let i = choose|i: int|
                        0 <= i < balls.drop_last().len() && !self.spec_is_lost(
                            #[trigger] balls.drop_last()[i],
                        ) && earlier[k] == self.stepped(
                            balls.drop_last()[i],
                            d,
                            hits.drop_last()[i],
                        );
                    assert(balls.drop_last()[i] == balls[i]);
                    assert(hits.drop_last()[i] == hits[i]);
                } else {
                    assert(!self.spec_is_lost(balls[n]));
                }
            }
        }
    }

    /// Wall bounce: a ball that the tick has carried beyond a wall ends the tick
    /// where it is, with its horizontal velocity multiplied by -1 and its vertical
    /// velocity unchanged. A ball between the walls is left as it is.
    pub proof fn lemma_wall_bounce(self, ball: Ball<T>, d: T, hit: Option<(int, Bounce<T>)>)
        ensures
            ({
                let reached = self.traveled(ball, d, hit);
                let left = self.stepped(ball, d, hit);
                &&& left.pos == reached.pos
                &&& left.start == ball.start
                &&& left.velocity.y == reached.velocity.y
                &&& left.velocity.x == if reached.pos.x.is_lt(&self.spec_left_wall())
                    || reached.pos.x.is_gt(&self.spec_right_wall()) {
                    reached.velocity.x.mul_spec(T::from_spec(-1i8))
                } else {
                    reached.velocity.x
                }
            }),
    {
    }
}

/// On `i32` the rules of the field are those of integer arithmetic: a ball is lost
/// when it is further down than the field's height and a radius more, it is beyond
/// the walls when it is less than half a radius from the left edge or from the right
/// one, and the wall rule changes the sign of its horizontal velocity.
pub proof fn lemma_field_rules_on_integers(field: Playfield<i32>, ball: Ball<i32>)
    requires
        field.well_formed(),
        field.ball_radius >= 0,
    ensures
        field.spec_is_lost(ball) <==> ball.pos.y > field.height + field.ball_radius,
        field.spec_is_beyond_walls(ball.pos) <==> (ball.pos.x < field.ball_radius / 2 || ball.pos.x
            > field.width - field.ball_radius / 2),
        field.spec_is_beyond_walls(ball.pos) && field.can_rebound(ball) ==> field.rebounded(
            ball,
        ).velocity.x == -ball.velocity.x,
{
}

impl<T: Number + From<i8>> Poggle<T> {
    /// The pool after a tick: it holds one ball for each ball that had not fallen
    /// below the floor, which is that ball stepped, and no other. A ball that had
    /// fallen below the floor is gone.
    pub proof fn lemma_pool_after_tick(
        &self,
        d: T,
        hits: Seq<Option<(int, Bounce<T>)>>,
        after: Self,
    )
        requires
            self.outcome(d, hits, after),
        ensures
            after.spec_balls().len() == self.spec_balls().filter(
                |ball: Ball<T>| !self.spec_field().spec_is_lost(ball),
            ).len(),
            forall|i: int|
                0 <= i < self.spec_balls().len() && !self.spec_field().spec_is_lost(
                    #[trigger] self.spec_balls()[i],
                ) ==> after.spec_balls().contains(
                    self.spec_field().stepped(self.spec_balls()[i], d, hits[i]),
                ),
            forall|k: int|
                0 <= k < after.spec_balls().len() ==> self.spec_field().is_stepped_from(
                    #[trigger] after.spec_balls()[k],
                    self.spec_balls(),
                    d,
                    hits,
                ),
    {
        self.spec_field().lemma_lost_balls_leave(self.spec_balls(), d, hits);
    }

    /// The end of a round: when every ball in play has fallen below the floor, the
    /// tick leaves the pool empty and no peg marked as hit.
    pub proof fn lemma_round_ends(&self, d: T, hits: Seq<Option<(int, Bounce<T>)>>, after: Self)
        requires
            self.outcome(d, hits, after),
            forall|i: int|
                0 <= i < self.spec_balls().len() ==> self.spec_field().spec_is_lost(
                    #[trigger] self.spec_balls()[i],
                ),
        ensures
            after.spec_balls().len() == 0,
            forall|j: int|
                0 <= j < after.spec_pegs().len() ==> !(#[trigger] after.spec_pegs()[j]).is_hit,
    {
        self.spec_field().lemma_lost_balls_leave(self.spec_balls(), d, hits);
        let kept = self.spec_balls().filter(|ball: Ball<T>| !self.spec_field().spec_is_lost(ball));
        if kept.len() > 0 {
            assert(kept.contains(kept[0]));
            self.spec_balls().lemma_filter_contains_rev(
                |ball: Ball<T>| !self.spec_field().spec_is_lost(ball),
                kept[0],
            );
        }
    }
}

} // verus!
