//! Versioned schema definitions.
//!
//! One declaration of a container, a record or a tagged union, stands for a
//! family of definitions: one per declared version. Each item of the container
//! has a lifecycle, in which it is added, renamed and deprecated at certain
//! versions. From the declaration this crate works out, for every version, the
//! items that are part of it and their names there ([`container`]), and for
//! every pair of adjacent versions how a value of the older becomes a value of
//! the newer ([`conversion`]). [`generation`] does both at once.
//!
//! Every function states in its contract what it returns, over the
//! mathematical values of its arguments, and every contract is proved. What
//! holds of declarations in general is proved in [`laws`].
//!
//! [`commons`] holds descriptions of services that schemas share.

pub mod commons;
pub mod container;
pub mod conversion;
pub mod error;
pub mod generation;
pub mod item;
pub mod laws;
pub mod version;
