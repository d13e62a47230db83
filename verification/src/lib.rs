//! Deterministic core of a two-player fighting game built for rollback
//! networking: one simulation step is a function of the previous state, the
//! two players' packed inputs and an immutable catalog of animations, and
//! every piece of mutable state is a plain value that can be copied out and
//! put back exactly.
//!
//! All quantities are integers. World coordinates are counted in *units*, of
//! which [`geometry::UNITS_PER_POINT`] make up the distance from the centre
//! of the playfield to its edge; a sprite pixel is
//! [`geometry::UNITS_PER_PIXEL`] units wide, so that pixels, half pixels and
//! every speed of the game are whole numbers of units.
//!
//! - [`geometry`]: vectors, boxes and their intersection.
//! - [`input`]: the packed input of one player for one tick.
//! - [`animation`]: animation definitions, the catalog, the playback
//!   cursor, and in [`animation::loader`] the building of the catalog.
//! - [`player`]: one entity, its movement and its reactions.
//! - [`combat`]: who hits whom.
//! - [`round`]: one tick of a round.
//! - [`rollback`]: saving, loading and advancing for a rollback driver.

pub mod animation;
pub mod combat;
pub mod geometry;
pub mod input;
pub mod player;
pub mod rollback;
pub mod round;
