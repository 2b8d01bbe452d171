//! The closed set of component types: positional state, visual state, and
//! the controller tag that marks an entity as receiving input-derived
//! movement.

use vstd::prelude::*;

verus! {

/// An RGB color, one byte per channel; purely descriptive render state.
#[derive(Copy, Clone, PartialEq, Eq, Structural, Debug)]
pub struct Color {
    pub r: u8,
    pub g: u8,
    pub b: u8,
}

/// Where an entity stands on the grid.
#[derive(Copy, Clone, PartialEq, Eq, Structural, Debug)]
pub struct Position {
    pub x: i32,
    pub y: i32,
}

/// What an entity looks like; immutable after creation and consumed only
/// by the render step.
#[derive(Copy, Clone, PartialEq, Eq, Structural, Debug)]
pub struct Renderable {
    pub glyph: u16,
    pub fg: Color,
    pub bg: Color,
}

/// Zero-size controller tag: every tagged entity receives the same
/// input-derived movement delta. Multiple tagged entities are legal.
#[derive(Copy, Clone, PartialEq, Eq, Structural, Debug)]
pub struct Player {}

} // verus!
