//! A board of pegs, and balls that fall through it.
//!
//! Balls are shot onto the board, fall under gravity, bounce off the pegs and off the
//! side walls, and leave the board at the bottom. The board is advanced in ticks.
//!
//! - [`shape`]: vectors, circles, and the solutions of a quadratic.
//! - [`collision`]: where a ball first touches a peg within a tick, and how it
//!   leaves it.
//! - [`poggle`]: balls, pegs and the board, and the step that advances it.
//! - [`input`]: what presses and drags of the pointer do to the board.
//! - [`raster`]: the pixels of a circle.
//!
//! The scalar is a parameter throughout. The contracts say what holds where its
//! arithmetic is exact, as that of the integers is, and every function demands of
//! its caller that no operation overflows or divides by zero.

pub mod collision;
pub mod input;
pub mod poggle;
pub mod raster;
pub mod shape;
