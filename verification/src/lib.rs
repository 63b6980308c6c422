//! A fixed-point gravity kernel for a small arcade simulation.
//!
//! A handful of massive bodies pull at a moving subject. The kernel advances
//! the bodies in fixed ticks, shows them between two ticks, previews the path
//! that the subject would take if one more body were placed, and detects
//! crashes. Everything is computed in whole numbers: a length, a speed, a
//! mass or a radius counts thousandths, and time counts thousandths of a
//! tick, so that every result is the same on every machine.
//!
//! - [`fixed`] and [`vector`]: the arithmetic.
//! - [`body`] and [`registry`]: the bodies and the collection that owns them.
//! - [`gravity`], [`integrator`] and [`clock`]: one tick of one body, one
//!   tick of all bodies, and when ticks are due.
//! - [`interpolation`], [`trajectory`] and [`crash`]: what is shown between
//!   ticks, the preview, and the crash detector.
//! - [`delay`], [`gravity_spawner`], [`pickup`], [`level`], [`player`] and
//!   [`game_state`]: the rules of the game around the kernel.

pub mod fixed;
pub mod vector;
pub mod body;
pub mod gravity;
pub mod registry;
pub mod trajectory;
pub mod integrator;
pub mod interpolation;
pub mod crash;
pub mod clock;
pub mod delay;
pub mod gravity_spawner;
pub mod level;
pub mod pickup;
pub mod player;
pub mod game_state;
