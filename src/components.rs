use vstd::prelude::*;

verus! {

/// Grid coordinates of an entity; `z` is its depth when drawn (lower first).
#[derive(Debug, Clone, Copy, PartialEq, Eq, Structural)]
pub struct Position {
    pub x: u8,
    pub y: u8,
    pub z: u8,
}

impl Position {
    pub fn new(x: u8, y: u8, z: u8) -> (r: Position)
        ensures
            r == (Position { x, y, z }),
    {
        Position { x, y, z }
    }
}

/// The image an entity is drawn with.
#[derive(Debug, Clone)]
pub struct Renderable {
    pub path: String,
}

impl View for Renderable {
    type V = Seq<char>;

    open spec fn view(&self) -> Seq<char> {
        self.path@
    }
}

/// Marks an entity as a wall.
#[derive(Debug, Clone, Copy, PartialEq, Eq, Structural)]
pub struct Wall {}

/// Marks the entity moved by the keyboard.
#[derive(Debug, Clone, Copy, PartialEq, Eq, Structural)]
pub struct Player {}

/// Marks an entity as a box that can be put on a spot.
#[derive(Debug, Clone, Copy, PartialEq, Eq, Structural)]
pub struct Box {}

/// Marks an entity as a spot where a box belongs.
#[derive(Debug, Clone, Copy, PartialEq, Eq, Structural)]
pub struct BoxSpot {}

} // verus!
