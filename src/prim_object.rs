//! The fixed object-level record shared by meshes and submeshes.
use vstd::prelude::*;

use crate::bytes::{
    extends, fits, lemma_extends_trans, read_u16, read_u32, read_u8, u16_at, u32_at, write_u16,
    write_u32, write_u8,
};
use crate::error::GeometryError;
use crate::math::{bounding_box_at, write_bounding_box, BoundingBox};
use crate::render_primitive::{prim_type_of, PrimHeader, PrimType};

verus! {

broadcast use vstd::std_specs::vec::axiom_spec_len;

/// Subtype of a mesh object.
#[derive(Debug, Clone, Copy, PartialEq, Eq)]
pub enum PrimObjectSubtype {
    Standard,
    Linked,
    Weighted,
    Standarduv2,
    Standarduv3,
    Standarduv4,
    Speedtree,
}

/// The subtype that a stored byte names, if any.
pub open spec fn subtype_of(v: u8) -> Option<PrimObjectSubtype> {
    if v == 0 {
        Some(PrimObjectSubtype::Standard)
    } else if v == 1 {
        Some(PrimObjectSubtype::Linked)
    } else if v == 2 {
        Some(PrimObjectSubtype::Weighted)
    } else if v == 3 {
        Some(PrimObjectSubtype::Standarduv2)
    } else if v == 4 {
        Some(PrimObjectSubtype::Standarduv3)
    } else if v == 5 {
        Some(PrimObjectSubtype::Standarduv4)
    } else if v == 6 {
        Some(PrimObjectSubtype::Speedtree)
    } else {
        None
    }
}

impl PrimObjectSubtype {
    /// The subtype that the stored byte `v` names, if any.
    pub fn from_u8(v: u8) -> (r: Option<PrimObjectSubtype>)
        ensures
            r == subtype_of(v),
    {
        if v == 0 {
            Some(PrimObjectSubtype::Standard)
        } else if v == 1 {
            Some(PrimObjectSubtype::Linked)
        } else if v == 2 {
            Some(PrimObjectSubtype::Weighted)
        } else if v == 3 {
            Some(PrimObjectSubtype::Standarduv2)
        } else if v == 4 {
            Some(PrimObjectSubtype::Standarduv3)
        } else if v == 5 {
            Some(PrimObjectSubtype::Standarduv4)
        } else if v == 6 {
            Some(PrimObjectSubtype::Speedtree)
        } else {
            None
        }
    }

    /// The stored byte of this subtype.
    pub fn to_u8(&self) -> (r: u8)
        ensures
            subtype_of(r) == Some(*self),
    {
        match self {
            PrimObjectSubtype::Standard => 0,
            PrimObjectSubtype::Linked => 1,
            PrimObjectSubtype::Weighted => 2,
            PrimObjectSubtype::Standarduv2 => 3,
            PrimObjectSubtype::Standarduv3 => 4,
            PrimObjectSubtype::Standarduv4 => 5,
            PrimObjectSubtype::Speedtree => 6,
        }
    }
}

/// Whether bit `n` of `bits` is set.
pub open spec fn bit8(bits: u8, n: u8) -> bool {
    (bits >> n) & 1 == 1
}

/// Per-object property flags.
#[derive(Debug, Clone, Copy, PartialEq, Eq)]
pub struct ObjectPropertyFlags {
    pub bits: u8,
}

impl ObjectPropertyFlags {
    pub open spec fn spec_has_highres_positions(&self) -> bool {
        bit8(self.bits, 3)
    }

    pub open spec fn spec_has_constant_color(&self) -> bool {
        bit8(self.bits, 5)
    }

    /// Flags with the given bit pattern.
    pub fn from_bits(bits: u8) -> (r: ObjectPropertyFlags)
        ensures
            r.bits == bits,
    {
        ObjectPropertyFlags { bits }
    }

    /// The bit pattern of the flags.
    pub fn into_bits(&self) -> (r: u8)
        ensures
            r == self.bits,
    {
        self.bits
    }

    pub fn x_axis_locked(&self) -> (r: bool)
        ensures
            r == bit8(self.bits, 0),
    {
        (self.bits >> 0u8) & 1 == 1
    }

    pub fn y_axis_locked(&self) -> (r: bool)
        ensures
            r == bit8(self.bits, 1),
    {
        (self.bits >> 1u8) & 1 == 1
    }

    pub fn z_axis_locked(&self) -> (r: bool)
        ensures
            r == bit8(self.bits, 2),
    {
        (self.bits >> 2u8) & 1 == 1
    }

    pub fn has_highres_positions(&self) -> (r: bool)
        ensures
            r == self.spec_has_highres_positions(),
    {
        (self.bits >> 3u8) & 1 == 1
    }

    pub fn has_constant_color(&self) -> (r: bool)
        ensures
            r == self.spec_has_constant_color(),
    {
        (self.bits >> 5u8) & 1 == 1
    }

    pub fn is_no_physics_prop(&self) -> (r: bool)
        ensures
            r == bit8(self.bits, 6),
    {
        (self.bits >> 6u8) & 1 == 1
    }
}

/// The object-level record of a mesh or a submesh (44 bytes, the last 24 a bounding box).
#[derive(Debug, Clone, Copy, PartialEq, Eq)]
pub struct PrimObject {
    pub prims: PrimHeader,
    pub sub_type: PrimObjectSubtype,
    pub properties: ObjectPropertyFlags,
    pub lod_mask: u8,
    pub z_bias: u8,
    pub z_offset: u8,
    pub material_id: u16,
    pub wire_color: u32,
    pub constant_vertex_color: u32,
}

impl PrimObject {
    /// The record can be encoded so that it decodes to itself.
    pub open spec fn wf(&self) -> bool {
        self.sub_type != PrimObjectSubtype::Speedtree
    }
}

/// The object record stored at `p`; a speedtree subtype is refused as unsupported.
pub open spec fn prim_object_at(b: Seq<u8>, p: int) -> Result<PrimObject, GeometryError> {
    if !fits(b.len() as int, p, 44) {
        Err(GeometryError::Malformed(p as u64))
    } else {
        match prim_type_of(u16_at(b, p + 2)) {
            None => Err(GeometryError::Malformed(p as u64)),
            Some(t) => match subtype_of(b[p + 4]) {
                None => Err(GeometryError::Malformed(p as u64)),
                Some(st) => if st == PrimObjectSubtype::Speedtree {
                    Err(GeometryError::UnsupportedFormat(p as u64))
                } else {
                    Ok(
                        PrimObject {
                            prims: PrimHeader { type_: t },
                            sub_type: st,
                            properties: ObjectPropertyFlags { bits: b[p + 5] },
                            lod_mask: b[p + 6],
                            z_bias: b[p + 8],
                            z_offset: b[p + 9],
                            material_id: u16_at(b, p + 10),
                            wire_color: u32_at(b, p + 12),
                            constant_vertex_color: u32_at(b, p + 16),
                        },
                    )
                },
            },
        }
    }
}

/// Decodes the object record at `p`.
pub fn read_prim_object(b: &Vec<u8>, p: usize) -> (r: Result<PrimObject, GeometryError>)
    ensures
        r == prim_object_at(b@, p as int),
{
    crate::bytes::check_fits(b, p, 44)?;
    let t = match PrimType::from_u16(read_u16(b, p + 2)) {
        Some(t) => t,
        None => return Err(GeometryError::Malformed(p as u64)),
    };
    let st = match PrimObjectSubtype::from_u8(read_u8(b, p + 4)) {
        Some(st) => st,
        None => return Err(GeometryError::Malformed(p as u64)),
    };
    if matches!(st, PrimObjectSubtype::Speedtree) {
        return Err(GeometryError::UnsupportedFormat(p as u64));
    }
    Ok(
        PrimObject {
            prims: PrimHeader { type_: t },
            sub_type: st,
            properties: ObjectPropertyFlags { bits: read_u8(b, p + 5) },
            lod_mask: read_u8(b, p + 6),
            z_bias: read_u8(b, p + 8),
            z_offset: read_u8(b, p + 9),
            material_id: read_u16(b, p + 10),
            wire_color: read_u32(b, p + 12),
            constant_vertex_color: read_u32(b, p + 16),
        },
    )
}

/// Appends the object record with `bb` as its bounding box.
pub fn write_prim_object(buf: &mut Vec<u8>, x: &PrimObject, bb: &BoundingBox)
    ensures
        extends(final(buf)@, old(buf)@),
        final(buf)@.len() == old(buf)@.len() + 44,
        x.wf() ==> prim_object_at(final(buf)@, old(buf)@.len() as int) == Ok::<
            PrimObject,
            GeometryError,
        >(*x),
        bounding_box_at(final(buf)@, old(buf)@.len() as int + 20) == *bb,
{
    let ghost b0 = buf@;
    write_u16(buf, 0);
    let ghost b1 = buf@;
    write_u16(buf, x.prims.type_.to_u16());
    let ghost b2 = buf@;
    write_u8(buf, x.sub_type.to_u8());
    let ghost b3 = buf@;
    write_u8(buf, x.properties.bits);
    let ghost b4 = buf@;
    write_u8(buf, x.lod_mask);
    let ghost b5 = buf@;
    write_u8(buf, 0);
    let ghost b6 = buf@;
    write_u8(buf, x.z_bias);
    let ghost b7 = buf@;
    write_u8(buf, x.z_offset);
    let ghost b8 = buf@;
    write_u16(buf, x.material_id);
    let ghost b9 = buf@;
    write_u32(buf, x.wire_color);
    let ghost b10 = buf@;
    write_u32(buf, x.constant_vertex_color);
    let ghost b11 = buf@;
    write_bounding_box(buf, bb);
    proof {
        lemma_extends_trans(b10, b11, buf@);
        lemma_extends_trans(b9, b10, buf@);
        lemma_extends_trans(b8, b9, buf@);
        lemma_extends_trans(b7, b8, buf@);
        lemma_extends_trans(b6, b7, buf@);
        lemma_extends_trans(b5, b6, buf@);
        lemma_extends_trans(b4, b5, buf@);
        lemma_extends_trans(b3, b4, buf@);
        lemma_extends_trans(b2, b3, buf@);
        lemma_extends_trans(b1, b2, buf@);
        lemma_extends_trans(b0, b1, buf@);
    }
}

} // verus!
