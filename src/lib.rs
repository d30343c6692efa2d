//! Bracket abstraction: rewrites lambda terms into applications of a fixed
//! set of closed combinators that are registered as global definitions.

pub mod abstraction;
pub mod book;
pub mod bounds;
pub mod calculus;
pub mod closed;
pub mod extraction;
pub mod laws;
pub mod registry;
pub mod term;
