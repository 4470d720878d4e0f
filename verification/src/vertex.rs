//! Vertices and primitive kinds of the GPU command protocol.
use vstd::prelude::*;

verus! {

/// One mesh vertex: position `(x, y, z)` and texture coordinates `(u, v)`.
/// Each component holds the IEEE-754 bit pattern of the 32-bit float the
/// guest submitted: the verified core never computes on the components, so
/// it carries the exact bits, and numeric interpretation happens where the
/// geometry is consumed.
#[derive(Clone, Copy, Debug, PartialEq, Eq, Structural)]
pub struct Vertex {
    pub x: u32,
    pub y: u32,
    pub z: u32,
    pub u: u32,
    pub v: u32,
}

impl Vertex {
    /// Pack five components into a vertex.
    pub fn new(x: u32, y: u32, z: u32, u: u32, v: u32) -> (r: Vertex)
        ensures
            r == (Vertex { x, y, z, u, v }),
    {
        Vertex { x, y, z, u, v }
    }
}

/// How emitted vertices are grouped into primitives.
#[derive(Clone, Copy, Debug, PartialEq, Eq, Structural)]
pub enum PrimitiveType {
    Triangles,
    Quads,
}

/// The wire byte that stands for a primitive kind.
pub open spec fn kind_byte(k: PrimitiveType) -> u8 {
    match k {
        PrimitiveType::Triangles => 0,
        PrimitiveType::Quads => 1,
    }
}

impl PrimitiveType {
    /// Decode the wire byte of a primitive kind. Any other byte is a
    /// protocol violation, which the command decoder rejects before calling.
    pub fn repr(v: u8) -> (r: PrimitiveType)
        requires
            v == 0 || v == 1,
        ensures
            kind_byte(r) == v,
    {
        if v == 0 {
            PrimitiveType::Triangles
        } else {
            PrimitiveType::Quads
        }
    }

    /// Encode this primitive kind as its wire byte: the inverse of `repr`.
    pub fn to_wire(self) -> (r: u8)
        ensures
            r == kind_byte(self),
    {
        match self {
            PrimitiveType::Triangles => 0,
            PrimitiveType::Quads => 1,
        }
    }
}

} // verus!
