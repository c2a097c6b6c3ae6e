//! Combat resolution for a role-playing simulation: bodies made of
//! independently damageable parts, combat statistics, weapons, and the
//! resolution of one hit into one outcome.
//!
//! Magnitudes are IEEE 754 single-precision numbers carried by their bit
//! patterns (see [`common::float::Float32`]), so that every comparison and
//! every arithmetic step has an integer statement that is proved. A caller
//! that works with the machine's numbers hands over their bits and takes
//! bits back: what comes out of a product or a sum here is, bit for bit, what
//! the machine computes, but for a NaN, of which there are many and of which
//! this library gives one.

pub mod actors;
pub mod common;
pub mod objects;
pub mod world;
