//! Simulation core of a turn-based dungeon crawler on a hexagonal grid.
//!
//! A [`location::Location`] holds one level: its terrain, its actors and
//! the items on its floor.  In every tick each living actor takes one turn
//! ([`location::Location::act`]); the tick starts with
//! [`location::Location::pre_any_tick`] and ends with
//! [`location::Location::post_any_tick`], which takes the dead away and lets
//! light and noise spread.  The [`engine::Engine`] keeps the order of the
//! turns.
//!
//! Lines of sight, rays of light and ways through the level are found
//! outside this library, by a search over the cells.  The functions here
//! take what the search found, keep of it what can be true of the level
//! (a line of sight ends where the vision ends, light where the reach of
//! its source ends, and a way leads from neighbour to neighbour over cells
//! that can be walked on), and decide what follows from it.
//!
//! Every function states what it does over the mathematical content of
//! the types: [`actor::ActorView`] for an actor, [`location::LocationView`]
//! for a location.  The module [`laws`] holds what follows for every
//! location, whatever happens to it.

pub mod act;
pub mod action;
pub mod actor;
pub mod ai;
pub mod arith;
pub mod coordmap;
pub mod dice;
pub mod engine;
pub mod hex;
pub mod inventory;
pub mod item;
pub mod laws;
pub mod location;
pub mod sight;
pub mod stats;
pub mod tick;
pub mod tile;
pub mod ui;
