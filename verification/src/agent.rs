//! The records of the agent store.
//!
//! An agent is seven 32-bit words: four of colour, two of position, one of
//! heading. Each word is the bit pattern of a single-precision number (see
//! [`crate::single`]); the compute stage reads and writes the same words.

use vstd::prelude::*;
use crate::morton::{
    coordinate, interleave, lemma_coordinate_exact, lemma_interleave_injective, morton_code,
};
use crate::single::{floor_saturated, floor_to_u32};

verus! {

/// Four single-precision numbers, as words.
#[derive(Debug, Clone, Copy, PartialEq, Eq, Structural)]
pub struct Vec4 {
    pub x: u32,
    pub y: u32,
    pub z: u32,
    pub w: u32,
}

/// Two single-precision numbers, as words.
#[derive(Debug, Clone, Copy, PartialEq, Eq, Structural)]
pub struct Vec2 {
    pub x: u32,
    pub y: u32,
}

/// One agent: its colour (red, green, blue, alpha), its position on the field
/// in texels, and its heading in radians.
#[derive(Debug, Clone, Copy, PartialEq, Eq, Structural)]
pub struct Agent {
    pub color: Vec4,
    pub position: Vec2,
    pub heading: u32,
}

impl Default for Vec4 {
    fn default() -> (v: Vec4)
        ensures
            v == (Vec4 { x: 0, y: 0, z: 0, w: 0 }),
    {
        Vec4 { x: 0, y: 0, z: 0, w: 0 }
    }
}

impl Default for Vec2 {
    fn default() -> (v: Vec2)
        ensures
            v == (Vec2 { x: 0, y: 0 }),
    {
        Vec2 { x: 0, y: 0 }
    }
}

impl Default for Agent {
    fn default() -> (a: Agent)
        ensures
            a == (Agent {
                color: Vec4 { x: 0, y: 0, z: 0, w: 0 },
                position: Vec2 { x: 0, y: 0 },
                heading: 0,
            }),
    {
        Agent {
            color: Vec4 { x: 0, y: 0, z: 0, w: 0 },
            position: Vec2 { x: 0, y: 0 },
            heading: 0,
        }
    }
}

impl Agent {
    /// The column of the texel under the agent: its horizontal position,
    /// rounded down and saturated to `u32`.
    pub open spec fn column(self) -> u32 {
        floor_saturated(self.position.x) as u32
    }

    /// The row of the texel under the agent: its vertical position, rounded
    /// down and saturated to `u32`.
    pub open spec fn row(self) -> u32 {
        floor_saturated(self.position.y) as u32
    }

    /// The Morton code of the texel under the agent.
    pub open spec fn morton(self) -> nat {
        interleave(coordinate(self.column()) as nat, coordinate(self.row()) as nat)
    }

    /// The Morton code of the texel under the agent.
    pub fn morton_pos(&self) -> (code: u32)
        ensures
            code == self.morton(),
    {
        let x: u32 = floor_to_u32(self.position.x);
        let y: u32 = floor_to_u32(self.position.y);
        morton_code(x, y)
    }
}

/// On a field of at most 65536 by 65536 texels, two agents with the same
/// Morton code stand on the same texel.
pub proof fn lemma_same_code_same_texel(a: Agent, b: Agent)
    requires
        a.column() < 0x1_0000,
        a.row() < 0x1_0000,
        b.column() < 0x1_0000,
        b.row() < 0x1_0000,
        a.morton() == b.morton(),
    ensures
        a.column() == b.column(),
        a.row() == b.row(),
{
    lemma_coordinate_exact(a.column());
    lemma_coordinate_exact(a.row());
    lemma_coordinate_exact(b.column());
    lemma_coordinate_exact(b.row());
    lemma_interleave_injective(
        a.column() as nat,
        a.row() as nat,
        b.column() as nat,
        b.row() as nat,
    );
}

} // verus!
