use vstd::prelude::*;
use crate::store::Entity;

verus! {

/// Position (x, y), render layer z and scale in percent of the sprite's size.
#[derive(Clone, Copy, Debug, PartialEq, Eq, Structural)]
pub struct Transform {
    pub x: i64,
    pub y: i64,
    pub z: i64,
    pub scale_pct: u32,
}

/// A handle into the rendering subsystem: a sprite sheet and a sprite in it.
#[derive(Clone, Copy, Debug, PartialEq, Eq, Structural)]
pub struct SpriteRef {
    pub sheet: u64,
    pub index: usize,
}

/// An RGBA color, each channel from 0 to 255.
#[derive(Clone, Copy, Debug, PartialEq, Eq, Structural)]
pub struct Tint {
    pub r: u8,
    pub g: u8,
    pub b: u8,
    pub a: u8,
}

/// A 2D camera that shows a `width` by `height` area.
#[derive(Clone, Copy, Debug, PartialEq, Eq, Structural)]
pub struct Camera {
    pub width: i64,
    pub height: i64,
}

/// The child-of relation: the entity this one hangs under.
#[derive(Clone, Copy, Debug, PartialEq, Eq, Structural)]
pub struct Parent {
    pub parent: Entity,
}

} // verus!
