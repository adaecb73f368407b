use poggle::input::{Aim, Event};
use poggle::shape::Point;

#[test]
fn a_new_aim_runs_and_holds_nothing() {
    let aim: Aim<i32> = Aim::new();
    assert!(aim.running);
    assert!(!aim.pressed);
    assert!(aim.start.is_none());
    assert!(aim.end.is_none());
    assert!(aim.line().is_none());
}

#[test]
fn quit_stops_the_host() {
    let mut aim: Aim<i32> = Aim::new();
    assert!(aim.handle(Event::Quit).is_none());
    assert!(!aim.running);
    assert!(!aim.pressed);
}

#[test]
fn moving_without_the_button_launches_nothing() {
    let mut aim: Aim<i32> = Aim::new();
    assert!(aim.handle(Event::Move(Point::new(5, 6))).is_none());
    assert_eq!(aim.end, Some(Point::new(5, 6)));
    assert!(aim.start.is_none());
    assert!(aim.line().is_none());
    assert!(aim.running);
}

#[test]
fn a_drag_drops_balls_at_rest_and_a_release_shoots_back() {
    let mut aim: Aim<i32> = Aim::new();
    assert!(aim.handle(Event::Press(Point::new(100, 200))).is_none());
    assert!(aim.pressed);
    assert_eq!(aim.start, Some(Point::new(100, 200)));

    let dropped = aim.handle(Event::Move(Point::new(130, 260))).expect("the button is down");
    assert_eq!(dropped.pos, Point::new(130, 260));
    assert_eq!(dropped.velocity, Point::new(0, 0));
    assert_eq!(dropped.start, Point::new(130, 260));
    assert_eq!(aim.line(), Some((Point::new(100, 200), Point::new(130, 260))));

    let shot = aim.handle(Event::Release(Point::new(150, 290))).expect("a drag ends");
    assert_eq!(shot.pos, Point::new(100, 200));
    assert_eq!(shot.velocity, Point::new(-50, -90));
    assert_eq!(shot.start, Point::new(100, 200));
    assert!(!aim.pressed);
    assert!(aim.start.is_none());
    assert!(aim.end.is_none());
    assert!(aim.line().is_none());
    assert!(aim.running);
}

#[test]
fn a_release_without_a_press_launches_nothing() {
    let mut aim: Aim<i32> = Aim::new();
    aim.handle(Event::Move(Point::new(1, 2)));
    assert!(aim.handle(Event::Release(Point::new(3, 4))).is_none());
    assert!(!aim.pressed);
    assert_eq!(aim.end, Some(Point::new(1, 2)));
}

#[test]
fn aiming_on_reals() {
    let mut aim: Aim<f32> = Aim::new();
    aim.handle(Event::Press(Point::new(10.5, 20.0)));
    let shot = aim.handle(Event::Release(Point::new(4.0, 25.5))).expect("a drag ends");
    assert_eq!(shot.pos, Point::new(10.5, 20.0));
    assert_eq!(shot.velocity, Point::new(6.5, -5.5));
}
