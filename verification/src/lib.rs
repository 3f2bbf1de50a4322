//! Chevalchemy: the puzzle rules of a small physics game in which a hoof
//! pushes items into a cauldron in the order a recipe prescribes.
//!
//! The crate holds the rules only: what an item is, what a recipe accepts,
//! which levels exist, which contacts count as deliveries, and how a game
//! moves from one level to the next. Rendering, physics and assets belong to
//! the program around it, which hands in plain values and carries out the
//! requests that come back.

pub mod contact;
pub mod item;
pub mod levels;
pub mod progress;
pub mod recipe;
pub mod smoke;
