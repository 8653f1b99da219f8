//! Rendering of host values as bordered, aligned text tables.
//!
//! A [`grid::Value`] (a scalar's text, or the key/value texts of a mapping)
//! becomes a [`grid::Grid`] of cells under an [`grid::Orientation`]; a grid is
//! laid out under a [`theme::Theme`] by [`render::render`].

pub mod builder;
pub mod grid;
pub mod laws;
pub mod render;
pub mod text;
pub mod theme;
