//! Aiming with the pointer: what a press, a drag and a release make of the board.
//!
//! The host reads the pointer and hands each event over; what to do about it is
//! decided here.

use crate::poggle::Ball;
use crate::shape::{exact_scalar, Number, Point};
use vstd::prelude::*;
use vstd::std_specs::convert::FromSpec;
use vstd::std_specs::ops::SubSpec;

verus! {

/// What the player did, with the position of the pointer where there is one.
#[derive(Clone, Copy, Debug)]
pub enum Event<T: Number> {
    /// The window was closed, or the round was abandoned from the keyboard.
    Quit,
    /// The button went down.
    Press(Point<T>),
    /// The pointer moved.
    Move(Point<T>),
    /// The button came up.
    Release(Point<T>),
}

/// The state of the player's aim.
#[derive(Clone, Copy, Debug)]
pub struct Aim<T: Number> {
    /// The host goes on as long as this holds.
    pub running: bool,
    /// The button is down.
    pub pressed: bool,
    /// Where the button went down, until it comes up again.
    pub start: Option<Point<T>>,
    /// Where the pointer was seen last, until the button comes up.
    pub end: Option<Point<T>>,
}

impl<T: Number + From<i8>> Aim<T> {
    /// The aim before anything has happened.
    pub fn new() -> (aim: Self)
        ensures
            aim == (Aim::<T> { running: true, pressed: false, start: None, end: None }),
    {
        Aim { running: true, pressed: false, start: None, end: None }
    }

    /// The event can be handled: where a release ends a drag, the way back from its
    /// end to its start can be computed.
    pub open spec fn can_handle(self, event: Event<T>) -> bool {
        match (event, self.start) {
            (Event::Release(end), Some(origin)) => origin.sub_req(end),
            _ => true,
        }
    }

    /// The aim after the event.
    pub open spec fn handled(self, event: Event<T>) -> Self {
        match event {
            Event::Quit => Aim { running: false, ..self },
            Event::Press(at) => Aim { pressed: true, start: Some(at), ..self },
            Event::Move(at) => Aim { end: Some(at), ..self },
            Event::Release(_) => match self.start {
                Some(_) => Aim { pressed: false, start: None, end: None, ..self },
                None => Aim { pressed: false, ..self },
            },
        }
    }

    /// The ball that the event launches, if it launches one. A drag drops a ball at
    /// rest wherever the pointer passes. A release launches one from where the button
    /// went down, with the velocity that leads from the point of release back there.
    pub open spec fn launched(self, event: Event<T>) -> Option<Ball<T>> {
        match event {
            Event::Quit => None,
            Event::Press(_) => None,
            Event::Move(at) => if self.pressed {
                Some(
                    Ball {
                        pos: at,
                        velocity: Point { x: T::from_spec(0i8), y: T::from_spec(0i8) },
                        start: at,
                    },
                )
            } else {
                None
            },
            Event::Release(end) => match self.start {
                Some(origin) => Some(
                    Ball { pos: origin, velocity: origin.sub_spec(end), start: origin },
                ),
                None => None,
            },
        }
    }

    /// Takes one event, and returns the ball to put into play, if any.
    pub fn handle(&mut self, event: Event<T>) -> (shot: Option<Ball<T>>)
        requires
            exact_scalar::<T>(),
            old(self).can_handle(event),
        ensures
            *final(self) == old(self).handled(event),
            shot == old(self).launched(event),
    {
        match event {
            Event::Quit => {
                self.running = false;
                None
            },
            Event::Press(at) => {
                self.pressed = true;
                self.start = Some(at);
                None
            },
            Event::Move(at) => {
                let shot = if self.pressed {
                    Some(Ball::new(at, Point::new(T::from(0i8), T::from(0i8))))
                } else {
                    None
                };
                self.end = Some(at);
                shot
            },
            Event::Release(end) => {
                self.pressed = false;
                match self.start {
                    Some(origin) => {
                        self.start = None;
                        self.end = None;
                        Some(Ball::new(origin, origin - end))
                    },
                    None => None,
                }
            },
        }
    }

    /// The line to show while the player aims: from where the button went down to
    /// where the pointer is.
    pub fn line(&self) -> (ends: Option<(Point<T>, Point<T>)>)
        ensures
            ends == match (self.start, self.end) {
                (Some(start), Some(end)) => Some((start, end)),
                _ => None,
            },
    {
        match (self.start, self.end) {
            (Some(start), Some(end)) => Some((start, end)),
            _ => None,
        }
    }
}

} // verus!
