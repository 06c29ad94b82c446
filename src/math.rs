//! Vectors, colours and bounding boxes as stored in the resource. Floating-point
//! components are held as their IEEE-754 single-precision bit patterns.
use vstd::prelude::*;

use crate::bytes::{extends, lemma_extends_trans, read_u32, u32_at, write_u32};

verus! {

broadcast use vstd::std_specs::vec::axiom_spec_len;

/// Three single-precision components, as bit patterns.
#[derive(Debug, Clone, Copy, PartialEq, Eq, Default)]
pub struct Vector3 {
    pub x: u32,
    pub y: u32,
    pub z: u32,
}

/// Four single-precision components, as bit patterns.
#[derive(Debug, Clone, Copy, PartialEq, Eq, Default)]
pub struct Vector4 {
    pub x: u32,
    pub y: u32,
    pub z: u32,
    pub w: u32,
}

/// An eight-bit RGBA colour.
#[derive(Debug, Clone, Copy, PartialEq, Eq)]
pub struct Color {
    pub r: u8,
    pub g: u8,
    pub b: u8,
    pub a: u8,
}

impl Default for Color {
    fn default() -> (r: Color)
        ensures
            r == (Color { r: 0, g: 0, b: 0, a: 1 }),
    {
        Color { r: 0, g: 0, b: 0, a: 1 }
    }
}

/// An axis-aligned box.
#[derive(Debug, Clone, Copy, PartialEq, Eq, Default)]
pub struct BoundingBox {
    pub min: Vector3,
    pub max: Vector3,
}

/// The vector stored at `p` (twelve bytes).
pub open spec fn vector3_at(b: Seq<u8>, p: int) -> Vector3 {
    Vector3 { x: u32_at(b, p), y: u32_at(b, p + 4), z: u32_at(b, p + 8) }
}

/// The vector stored at `p` (sixteen bytes).
pub open spec fn vector4_at(b: Seq<u8>, p: int) -> Vector4 {
    Vector4 { x: u32_at(b, p), y: u32_at(b, p + 4), z: u32_at(b, p + 8), w: u32_at(b, p + 12) }
}

/// The box stored at `p`: minimum, then maximum (24 bytes).
pub open spec fn bounding_box_at(b: Seq<u8>, p: int) -> BoundingBox {
    BoundingBox { min: vector3_at(b, p), max: vector3_at(b, p + 12) }
}

/// Decodes the vector at `p`.
pub fn read_vector3(b: &Vec<u8>, p: usize) -> (r: Vector3)
    requires
        p + 12 <= b.len(),
    ensures
        r == vector3_at(b@, p as int),
{
    Vector3 { x: read_u32(b, p), y: read_u32(b, p + 4), z: read_u32(b, p + 8) }
}

/// Decodes the vector at `p`.
pub fn read_vector4(b: &Vec<u8>, p: usize) -> (r: Vector4)
    requires
        p + 16 <= b.len(),
    ensures
        r == vector4_at(b@, p as int),
{
    Vector4 {
        x: read_u32(b, p),
        y: read_u32(b, p + 4),
        z: read_u32(b, p + 8),
        w: read_u32(b, p + 12),
    }
}

/// Appends the twelve bytes of a vector.
pub fn write_vector3(buf: &mut Vec<u8>, v: &Vector3)
    ensures
        extends(final(buf)@, old(buf)@),
        final(buf)@.len() == old(buf)@.len() + 12,
        vector3_at(final(buf)@, old(buf)@.len() as int) == *v,
{
    let ghost b0 = buf@;
    write_u32(buf, v.x);
    let ghost b1 = buf@;
    write_u32(buf, v.y);
    let ghost b2 = buf@;
    write_u32(buf, v.z);
    proof {
        lemma_extends_trans(b0, b1, b2);
        lemma_extends_trans(b0, b2, buf@);
        lemma_extends_trans(b1, b2, buf@);
    }
}

/// Appends the sixteen bytes of a vector.
pub fn write_vector4(buf: &mut Vec<u8>, v: &Vector4)
    ensures
        extends(final(buf)@, old(buf)@),
        final(buf)@.len() == old(buf)@.len() + 16,
        vector4_at(final(buf)@, old(buf)@.len() as int) == *v,
{
    let ghost b0 = buf@;
    write_u32(buf, v.x);
    let ghost b1 = buf@;
    write_u32(buf, v.y);
    let ghost b2 = buf@;
    write_u32(buf, v.z);
    let ghost b3 = buf@;
    write_u32(buf, v.w);
    proof {
        lemma_extends_trans(b0, b1, b2);
        lemma_extends_trans(b0, b2, b3);
        lemma_extends_trans(b0, b3, buf@);
        lemma_extends_trans(b1, b2, buf@);
        lemma_extends_trans(b2, b3, buf@);
    }
}

/// Appends the 24 bytes of a box.
pub fn write_bounding_box(buf: &mut Vec<u8>, bb: &BoundingBox)
    ensures
        extends(final(buf)@, old(buf)@),
        final(buf)@.len() == old(buf)@.len() + 24,
        bounding_box_at(final(buf)@, old(buf)@.len() as int) == *bb,
{
    let ghost b0 = buf@;
    write_vector3(buf, &bb.min);
    let ghost b1 = buf@;
    write_vector3(buf, &bb.max);
    proof {
        lemma_extends_trans(b0, b1, buf@);
    }
}

/// A key whose unsigned order is the numeric order of the non-NaN floats with
/// these bit patterns (negative zero just below positive zero).
pub open spec fn order_key(bits: u32) -> u32 {
    if bits >= 0x8000_0000 {
        !bits
    } else {
        bits | 0x8000_0000
    }
}

/// The smaller of two float bit patterns in numeric order.
pub open spec fn min_bits(a: u32, b: u32) -> u32 {
    if order_key(a) <= order_key(b) {
        a
    } else {
        b
    }
}

/// The larger of two float bit patterns in numeric order.
pub open spec fn max_bits(a: u32, b: u32) -> u32 {
    if order_key(a) >= order_key(b) {
        a
    } else {
        b
    }
}

/// The smallest box holding both boxes.
pub open spec fn box_union(a: BoundingBox, b: BoundingBox) -> BoundingBox {
    BoundingBox {
        min: Vector3 {
            x: min_bits(a.min.x, b.min.x),
            y: min_bits(a.min.y, b.min.y),
            z: min_bits(a.min.z, b.min.z),
        },
        max: Vector3 {
            x: max_bits(a.max.x, b.max.x),
            y: max_bits(a.max.y, b.max.y),
            z: max_bits(a.max.z, b.max.z),
        },
    }
}

/// The union of a list of boxes, folded from the first; the zero box when the list is empty.
pub open spec fn boxes_union(s: Seq<BoundingBox>) -> BoundingBox
    decreases s.len(),
{
    if s.len() == 0 {
        BoundingBox::default_spec()
    } else if s.len() == 1 {
        s[0]
    } else {
        box_union(boxes_union(s.drop_last()), s.last())
    }
}

fn key(bits: u32) -> (r: u32)
    ensures
        r == order_key(bits),
{
    if bits >= 0x8000_0000 {
        !bits
    } else {
        bits | 0x8000_0000
    }
}

fn min_of(a: u32, b: u32) -> (r: u32)
    ensures
        r == min_bits(a, b),
{
    if key(a) <= key(b) {
        a
    } else {
        b
    }
}

fn max_of(a: u32, b: u32) -> (r: u32)
    ensures
        r == max_bits(a, b),
{
    if key(a) >= key(b) {
        a
    } else {
        b
    }
}

impl BoundingBox {
    /// The all-zero box.
    pub open spec fn default_spec() -> BoundingBox {
        BoundingBox { min: Vector3 { x: 0, y: 0, z: 0 }, max: Vector3 { x: 0, y: 0, z: 0 } }
    }

    /// The smallest box holding this box and `other`.
    pub fn union(&self, other: &BoundingBox) -> (r: BoundingBox)
        ensures
            r == box_union(*self, *other),
    {
        BoundingBox {
            min: Vector3 {
                x: min_of(self.min.x, other.min.x),
                y: min_of(self.min.y, other.min.y),
                z: min_of(self.min.z, other.min.z),
            },
            max: Vector3 {
                x: max_of(self.max.x, other.max.x),
                y: max_of(self.max.y, other.max.y),
                z: max_of(self.max.z, other.max.z),
            },
        }
    }

    /// The union of all boxes in `boxes`; the zero box when there are none.
    pub fn sum(boxes: &Vec<BoundingBox>) -> (r: BoundingBox)
        ensures
            r == boxes_union(boxes@),
    {
        if boxes.len() == 0 {
            return BoundingBox { min: Vector3 { x: 0, y: 0, z: 0 }, max: Vector3 { x: 0, y: 0, z: 0 } };
        }
        let mut acc = boxes[0];
        let mut i: usize = 1;
        while i < boxes.len()
            invariant
                1 <= i <= boxes@.len(),
                acc == boxes_union(boxes@.subrange(0, i as int)),
            decreases boxes@.len() - i,
        {
            proof {
                let next = boxes@.subrange(0, i + 1);
                assert(next.drop_last() =~= boxes@.subrange(0, i as int));
            }
            acc = acc.union(&boxes[i]);
            i = i + 1;
        }
        assert(boxes@.subrange(0, i as int) =~= boxes@);
        acc
    }
}

} // verus!
