//! A minimal entity-component store.
//!
//! Entities are implicit: entity `i` is the `i`-th slot of every component
//! column. A [`world::World`] owns one column per component type, each column
//! an index-aligned sequence of optional component values, and answers
//! queries that join columns by position.

pub mod component;
pub mod world;
