use poggle::poggle::{
    first_collision, Ball, Bounce, Paint, Peg, PegType, Playfield, Poggle, PowerUp,
};
use poggle::shape::{Body, Point, Shape};

fn field() -> Playfield<i64> {
    Playfield { width: 1280, height: 800, ball_radius: 6, elasticity: 1, gravity: Point::new(0, 10) }
}

fn circle(x: i64, y: i64, radius: i64) -> Body<i64> {
    Body { pos: Point::new(x, y), shape: Shape::Circle { radius } }
}

fn never(_: &Ball<i64>, _: &Body<i64>, _: i64) -> Option<Bounce<i64>> {
    None
}

/// Reports a collision with every peg whose centre is at or right of `x = 200`, and
/// sends the ball straight up from the peg's centre.
fn right_half(ball: &Ball<i64>, body: &Body<i64>, _: i64) -> Option<Bounce<i64>> {
    if body.pos.x >= 200 {
        Some(Bounce { pos: body.pos, velocity: Point::new(ball.velocity.x, -ball.velocity.y) })
    } else {
        None
    }
}

#[test]
fn a_new_ball_starts_where_it_is() {
    let ball = Ball::new(Point::new(3, 4), Point::new(-1, 2));
    assert_eq!(ball.pos, Point::new(3, 4));
    assert_eq!(ball.velocity, Point::new(-1, 2));
    assert_eq!(ball.start, Point::new(3, 4));
}

#[test]
fn integrate_changes_velocity_first() {
    let mut ball = Ball::new(Point::new(1, 2), Point::new(3, 4));
    ball.integrate(Point::new(0, 5), 2);
    assert_eq!(ball.velocity, Point::new(3, 14));
    assert_eq!(ball.pos, Point::new(7, 30));
    assert_eq!(ball.start, Point::new(1, 2));
}

#[test]
fn integrate_on_reals() {
    let mut ball = Ball::new(Point::new(0.0f64, 0.0), Point::new(100.0, 0.0));
    ball.integrate(Point::new(0.0, 550.0), 0.5);
    assert_eq!(ball.velocity, Point::new(100.0, 275.0));
    assert_eq!(ball.pos, Point::new(50.0, 137.5));
}

#[test]
fn energies_follow_their_formulas() {
    let f = field();
    let ball = Ball { pos: Point::new(10, 700), velocity: Point::new(3, 4), start: Point::new(10, 100) };
    assert_eq!(ball.kinetic_energy(), 12);
    assert_eq!(ball.potential_energy(&f), 1000);
    assert_eq!(ball.total_energy(&f), 1012);
    let real = Ball::new(Point::new(0.0f64, 300.0), Point::new(3.0, 4.0));
    let g = Playfield { width: 1280.0, height: 800.0, ball_radius: 6.0, elasticity: 0.9, gravity: Point::new(0.0, 550.0) };
    assert_eq!(real.kinetic_energy(), 12.5);
    assert_eq!(real.potential_energy(&g), 275000.0);
    assert_eq!(real.total_energy(&g), 275012.5);
}

#[test]
fn total_energy_answers_the_same_twice() {
    let g = Playfield { width: 1280.0f32, height: 800.0, ball_radius: 6.0, elasticity: 0.9, gravity: Point::new(0.0, 550.0) };
    let ball = Ball { pos: Point::new(17.25f32, 311.5), velocity: Point::new(-81.0, 203.125), start: Point::new(20.0, 100.0) };
    let first = ball.total_energy(&g);
    let second = ball.total_energy(&g);
    assert_eq!(first.to_bits(), second.to_bits());
    assert_eq!(first, (81.0f32 * 81.0 + 203.125 * 203.125) / 2.0 + (800.0 - 311.5) * 550.0);
}

#[test]
fn gained_energy_is_measured_against_rest_at_the_start() {
    let f = field();
    let fallen = Ball { pos: Point::new(10, 200), velocity: Point::new(0, 40), start: Point::new(10, 100) };
    // at the start: 0 + 700 * 10; now: 800 + 600 * 10
    assert!(!fallen.has_gained_energy(&f));
    assert_eq!(fallen.paint(&f), Paint::Red);
    let faster = Ball { velocity: Point::new(0, 50), ..fallen };
    // now: 1250 + 6000
    assert!(faster.has_gained_energy(&f));
    assert_eq!(faster.paint(&f), Paint::Green);
    let even = Ball { pos: Point::new(10, 180), velocity: Point::new(0, 40), start: Point::new(10, 100) };
    // now: 800 + 6200 = 7000, the same as at the start
    assert!(!even.has_gained_energy(&f));
}

#[test]
fn a_ball_is_lost_below_height_plus_radius() {
    let f = field();
    let at = |y: i64| Ball::new(Point::new(100, y), Point::new(0, 0));
    assert!(!f.is_lost(&at(0)));
    assert!(!f.is_lost(&at(800)));
    assert!(!f.is_lost(&at(806)));
    assert!(f.is_lost(&at(807)));
    assert!(f.is_lost(&at(5000)));
}

#[test]
fn walls_stand_half_a_radius_inside_the_edges() {
    let f = field();
    assert!(f.is_beyond_walls(Point::new(2, 0)));
    assert!(!f.is_beyond_walls(Point::new(3, 0)));
    assert!(!f.is_beyond_walls(Point::new(640, 0)));
    assert!(!f.is_beyond_walls(Point::new(1277, 0)));
    assert!(f.is_beyond_walls(Point::new(1278, 0)));
    assert!(f.is_beyond_walls(Point::new(-40, 0)));
    let g = Playfield { width: 1280.0f64, height: 800.0, ball_radius: 6.0, elasticity: 0.9, gravity: Point::new(0.0, 550.0) };
    assert!(g.is_beyond_walls(Point::new(2.999, 1.0)));
    assert!(!g.is_beyond_walls(Point::new(3.0, 1.0)));
    assert!(!g.is_beyond_walls(Point::new(1277.0, 1.0)));
    assert!(g.is_beyond_walls(Point::new(1277.001, 1.0)));
}

#[test]
fn rebound_turns_the_horizontal_velocity_round() {
    let f = field();
    let mut ball = Ball { pos: Point::new(1, 110), velocity: Point::new(-4, 10), start: Point::new(5, 100) };
    f.rebound(&mut ball);
    assert_eq!(ball.velocity, Point::new(4, 10));
    assert_eq!(ball.pos, Point::new(1, 110));
    assert_eq!(ball.start, Point::new(5, 100));
    let mut right = Ball::new(Point::new(1279, 5), Point::new(7, -2));
    f.rebound(&mut right);
    assert_eq!(right.velocity, Point::new(-7, -2));
    let mut middle = Ball::new(Point::new(600, 5), Point::new(7, -2));
    f.rebound(&mut middle);
    assert_eq!(middle.velocity, Point::new(7, -2));
    assert_eq!(middle.pos, Point::new(600, 5));
}

#[test]
fn pegs_are_painted_by_role_and_mark() {
    let peg = |peg_type: PegType, is_hit: bool| Peg { body: circle(0, 0, 6), is_hit, peg_type };
    assert_eq!(peg(PegType::Standard, false).paint(), Paint::Blue);
    assert_eq!(peg(PegType::Standard, true).paint(), Paint::Yellow);
    assert_eq!(peg(PegType::Target, false).paint(), Paint::Red);
    assert_eq!(peg(PegType::Target, true).paint(), Paint::Red);
    assert_eq!(peg(PegType::PointBoost, false).paint(), Paint::Magenta);
    assert_eq!(peg(PegType::PointBoost, true).paint(), Paint::Magenta);
    assert_eq!(peg(PegType::PowerUp(PowerUp::Zen), false).paint(), Paint::Green);
    assert_eq!(peg(PegType::PowerUp(PowerUp::MultiBall), true).paint(), Paint::Green);
}

#[test]
fn the_scan_stops_at_the_first_peg_that_reports() {
    let pegs: Vec<Peg<i64>> = [circle(100, 0, 6), circle(250, 0, 6), circle(300, 0, 6)]
        .into_iter()
        .map(|body| Peg { body, is_hit: false, peg_type: PegType::Standard })
        .collect();
    let ball = Ball::new(Point::new(0, 0), Point::new(3, 9));
    let hit = first_collision(&pegs, &ball, 1, &right_half);
    let (index, bounce) = hit.expect("the second peg reports a collision");
    assert_eq!(index, 1);
    assert_eq!(bounce.pos, Point::new(250, 0));
    assert_eq!(bounce.velocity, Point::new(3, -9));
    assert!(first_collision(&pegs, &ball, 1, &never).is_none());
    assert!(first_collision(&Vec::new(), &ball, 1, &right_half).is_none());
}

#[test]
fn the_scan_asks_no_peg_behind_the_first_hit() {
    let pegs: Vec<Peg<i64>> = [circle(100, 0, 6), circle(250, 0, 6), circle(300, 0, 6)]
        .into_iter()
        .map(|body| Peg { body, is_hit: false, peg_type: PegType::Standard })
        .collect();
    let ball = Ball::new(Point::new(0, 0), Point::new(3, 9));
    let asked = std::cell::RefCell::new(Vec::new());
    let hit = first_collision(&pegs, &ball, 1, &|b: &Ball<i64>, body: &Body<i64>, d: i64| {
        asked.borrow_mut().push(body.pos.x);
        right_half(b, body, d)
    });
    assert_eq!(hit.map(|(index, _)| index), Some(1));
    assert_eq!(*asked.borrow(), vec![100, 250]);
}

#[test]
fn a_new_board_is_empty_and_unmarked() {
    let board = Poggle::new(field(), vec![circle(100, 400, 6), circle(175, 400, 8)]);
    assert!(board.balls().is_empty());
    assert_eq!(board.pegs().len(), 2);
    assert_eq!(board.pegs()[0].body.pos, Point::new(100, 400));
    assert_eq!(board.pegs()[1].body.pos, Point::new(175, 400));
    match board.pegs()[1].body.shape {
        Shape::Circle { radius } => assert_eq!(radius, 8),
        Shape::Polygon { .. } => panic!("a circle was given"),
    }
    for peg in board.pegs() {
        assert!(!peg.is_hit);
        assert_eq!(peg.peg_type, PegType::Standard);
    }
    assert_eq!(board.field().width, 1280);
    assert_eq!(board.field().gravity, Point::new(0, 10));
}

#[test]
fn shoot_adds_a_ball_behind_the_others() {
    let mut board = Poggle::new(field(), Vec::new());
    board.shoot(Point::new(10, 20), Point::new(1, 2));
    board.shoot(Point::new(30, 40), Point::new(-3, 0));
    assert_eq!(board.balls().len(), 2);
    assert_eq!(board.balls()[0].pos, Point::new(10, 20));
    assert_eq!(board.balls()[0].start, Point::new(10, 20));
    assert_eq!(board.balls()[1].velocity, Point::new(-3, 0));
    assert_eq!(board.balls()[1].start, Point::new(30, 40));
}

#[test]
fn update_lets_a_free_ball_fall() {
    let mut board = Poggle::new(field(), vec![circle(100, 400, 6)]);
    board.shoot(Point::new(500, 100), Point::new(2, 0));
    board.update_with(1, never);
    assert_eq!(board.balls().len(), 1);
    assert_eq!(board.balls()[0].velocity, Point::new(2, 10));
    assert_eq!(board.balls()[0].pos, Point::new(502, 110));
    board.update_with(3, never);
    assert_eq!(board.balls()[0].velocity, Point::new(2, 40));
    assert_eq!(board.balls()[0].pos, Point::new(508, 230));
    assert_eq!(board.balls()[0].start, Point::new(500, 100));
    assert!(!board.pegs()[0].is_hit);
}

#[test]
fn a_ball_below_the_floor_is_gone_after_the_next_update() {
    let mut board = Poggle::new(field(), vec![circle(100, 400, 6)]);
    board.shoot(Point::new(500, 790), Point::new(0, 10));
    board.shoot(Point::new(600, 100), Point::new(0, 0));
    board.update_with(1, never);
    // the first ball is now at y = 810, beyond 800 + 6; it is dropped by the next step
    assert_eq!(board.balls().len(), 2);
    assert_eq!(board.balls()[0].pos, Point::new(500, 810));
    board.update_with(1, never);
    assert_eq!(board.balls().len(), 1);
    assert_eq!(board.balls()[0].start, Point::new(600, 100));
    assert_eq!(board.balls()[0].pos, Point::new(600, 130));
}

#[test]
fn a_ball_on_the_floor_line_stays() {
    let mut board = Poggle::new(field(), Vec::new());
    board.shoot(Point::new(500, 806), Point::new(0, 0));
    board.shoot(Point::new(500, 807), Point::new(0, 0));
    board.update_with(1, never);
    assert_eq!(board.balls().len(), 1);
    assert_eq!(board.balls()[0].start, Point::new(500, 806));
}

#[test]
fn the_first_peg_in_order_is_marked_and_no_other() {
    let mut board =
        Poggle::new(field(), vec![circle(100, 400, 6), circle(250, 400, 6), circle(300, 400, 6)]);
    board.shoot(Point::new(500, 100), Point::new(2, 0));
    board.update_with(1, right_half);
    assert!(!board.pegs()[0].is_hit);
    assert!(board.pegs()[1].is_hit);
    assert!(!board.pegs()[2].is_hit);
    // free fall gave velocity (2, 10); the bounce puts the ball on the peg, going up
    assert_eq!(board.balls()[0].pos, Point::new(250, 400));
    assert_eq!(board.balls()[0].velocity, Point::new(2, -10));
    assert_eq!(board.balls()[0].start, Point::new(500, 100));
}

#[test]
fn marks_stay_while_a_ball_is_in_play_and_go_when_none_is() {
    let mut board = Poggle::new(field(), vec![circle(100, 400, 6), circle(250, 400, 6)]);
    board.shoot(Point::new(500, 100), Point::new(0, 0));
    board.update_with(1, right_half);
    assert!(board.pegs()[1].is_hit);
    board.update_with(1, never);
    assert!(board.pegs()[1].is_hit);
    assert!(!board.pegs()[0].is_hit);
    // carry the ball below the floor, then step once more
    board.update_with(1, |_: &Ball<i64>, _: &Body<i64>, _: i64| {
        Some(Bounce { pos: Point::new(500, 900), velocity: Point::new(0, 0) })
    });
    assert_eq!(board.balls().len(), 1);
    assert!(board.pegs()[0].is_hit);
    board.update_with(1, never);
    assert!(board.balls().is_empty());
    assert!(board.pegs().iter().all(|peg| !peg.is_hit));
    assert_eq!(board.pegs().len(), 2);
    assert_eq!(board.pegs()[1].body.pos, Point::new(250, 400));
}

#[test]
fn update_of_an_empty_board_changes_nothing() {
    let mut board = Poggle::new(field(), vec![circle(100, 400, 6)]);
    board.update_with(1, right_half);
    assert!(board.balls().is_empty());
    assert!(!board.pegs()[0].is_hit);
}

#[test]
fn a_ball_beyond_the_left_wall_turns_round_and_stays() {
    let mut board = Poggle::new(field(), Vec::new());
    board.shoot(Point::new(5, 100), Point::new(-4, 0));
    board.update_with(1, never);
    assert_eq!(board.balls().len(), 1);
    assert_eq!(board.balls()[0].pos, Point::new(1, 110));
    assert_eq!(board.balls()[0].velocity, Point::new(4, 10));
}

#[test]
fn a_ball_beyond_the_right_wall_turns_round_and_stays() {
    let mut board = Poggle::new(field(), Vec::new());
    board.shoot(Point::new(1275, 100), Point::new(4, 0));
    board.update_with(1, never);
    assert_eq!(board.balls().len(), 1);
    assert_eq!(board.balls()[0].pos, Point::new(1279, 110));
    assert_eq!(board.balls()[0].velocity, Point::new(-4, 10));
}

#[test]
fn the_wall_rule_sees_the_ball_after_its_bounce() {
    let mut board = Poggle::new(field(), vec![circle(100, 400, 6)]);
    board.shoot(Point::new(500, 100), Point::new(3, 0));
    board.update_with(1, |_: &Ball<i64>, _: &Body<i64>, _: i64| {
        Some(Bounce { pos: Point::new(0, 50), velocity: Point::new(-9, 1) })
    });
    assert_eq!(board.balls()[0].pos, Point::new(0, 50));
    assert_eq!(board.balls()[0].velocity, Point::new(9, 1));
    assert!(board.pegs()[0].is_hit);
}

#[test]
fn update_on_reals_with_a_tick_of_a_sixtieth() {
    let g = Playfield { width: 1280.0f32, height: 800.0, ball_radius: 6.0, elasticity: 0.9, gravity: Point::new(0.0, 550.0) };
    let peg = Body { pos: Point::new(640.0f32, 400.0), shape: Shape::Circle { radius: 6.0 } };
    let mut board = Poggle::new(g, vec![peg]);
    board.shoot(Point::new(1.0, 100.0), Point::new(-30.0, 0.0));
    let d = 1.0f32 / 60.0;
    board.update_with(d, |_: &Ball<f32>, _: &Body<f32>, _: f32| None);
    let ball = board.balls()[0];
    let vy = 550.0f32 * d;
    assert_eq!(ball.velocity, Point::new(30.0, vy));
    assert_eq!(ball.pos, Point::new(1.0 + -30.0 * d, 100.0 + vy * d));
    assert!(!board.pegs()[0].is_hit);
}
