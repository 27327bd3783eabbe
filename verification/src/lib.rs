//! A small grep-like text search (`Config`) together with a handful of
//! data structures: a memoising `Cacher`, a movable `Point`, a lazily filled
//! string holder `S`, reference-counted trees (`Node`), owners and gadgets
//! linked by weak references, and an application error type.
pub mod apperror;
pub mod cacher;
pub mod closures;
pub mod config;
pub mod gadget;
pub mod http;
pub mod lookup;
pub mod node;
pub mod point;
pub mod slices;
pub mod text;

pub use apperror::AppError;
pub use cacher::Cacher;
pub use config::Config;
pub use gadget::{Gadget, GadgetLink, Owner};
pub use node::{Node, NodeLink, SelfRef};
pub use point::{Point, S};
