//! The resource as a whole: its root pointer, the object header with the
//! resource-wide property flags, and the table of mesh objects.
use vstd::prelude::*;

use crate::bytes::{
    agree_from, align_writer, align16, check_fits, extends, fits, lemma_extends_append,
    lemma_extends_trans, lemma_u32s_stable, pad_len, patch_u64, read_u16, read_u32, read_u64, stream_position,
    u16_at, u32_at, u32s_at, u64_at, write_u16, write_u32, write_u32s, write_u64, zeros,
};
use crate::error::GeometryError;
use crate::math::{bounding_box_at, boxes_union, write_bounding_box, BoundingBox};
use crate::prim_mesh::{
    lemma_mesh_stable, mesh_aligned, mesh_at, mesh_reads_from, read_mesh, write_plain_mesh,
    PrimMesh, PrimMeshView,
};
use crate::prim_mesh_linked::{
    lemma_linked_mesh_stable, linked_aligned, linked_mesh_at, linked_reads_from,
    read_linked_mesh, write_linked_mesh, PrimMeshLinked, PrimMeshLinkedView,
};
use crate::prim_mesh_weighted::{
    lemma_weighted_mesh_stable, read_weighted_mesh, weighted_aligned, weighted_mesh_at,
    weighted_reads_from, write_weighted_mesh, PrimMeshWeighted, PrimMeshWeightedView,
};

verus! {

broadcast use vstd::std_specs::vec::axiom_spec_len;

/// Kind tag of a primitive header.
#[derive(Debug, Clone, Copy, PartialEq, Eq)]
pub enum PrimType {
    Empty,
    ObjectHeader,
    Mesh,
    Shape,
}

/// The kind that a stored tag names, if any.
pub open spec fn prim_type_of(v: u16) -> Option<PrimType> {
    if v == 0 {
        Some(PrimType::Empty)
    } else if v == 1 {
        Some(PrimType::ObjectHeader)
    } else if v == 2 {
        Some(PrimType::Mesh)
    } else if v == 5 {
        Some(PrimType::Shape)
    } else {
        None
    }
}

/// The stored tag of a kind.
pub open spec fn prim_type_value(t: PrimType) -> u16 {
    match t {
        PrimType::Empty => 0,
        PrimType::ObjectHeader => 1,
        PrimType::Mesh => 2,
        PrimType::Shape => 5,
    }
}

impl PrimType {
    /// The kind that the stored tag `v` names, if any.
    pub fn from_u16(v: u16) -> (r: Option<PrimType>)
        ensures
            r == prim_type_of(v),
    {
        if v == 0 {
            Some(PrimType::Empty)
        } else if v == 1 {
            Some(PrimType::ObjectHeader)
        } else if v == 2 {
            Some(PrimType::Mesh)
        } else if v == 5 {
            Some(PrimType::Shape)
        } else {
            None
        }
    }

    /// The stored tag of this kind.
    pub fn to_u16(&self) -> (r: u16)
        ensures
            r == prim_type_value(*self),
            prim_type_of(r) == Some(*self),
    {
        match self {
            PrimType::Empty => 0,
            PrimType::ObjectHeader => 1,
            PrimType::Mesh => 2,
            PrimType::Shape => 5,
        }
    }
}

/// The four-byte header that starts every primitive: two padding bytes, then the kind.
#[derive(Debug, Clone, Copy, PartialEq, Eq)]
pub struct PrimHeader {
    pub type_: PrimType,
}

/// Whether bit `n` of `bits` is set.
pub open spec fn bit32(bits: u32, n: u32) -> bool {
    (bits >> n) & 1 == 1
}

/// Resource-wide property flags.
#[derive(Debug, Clone, Copy, PartialEq, Eq, Hash)]
pub struct PrimPropertyFlags {
    pub bits: u32,
}

impl PrimPropertyFlags {
    pub open spec fn spec_has_bones(&self) -> bool {
        bit32(self.bits, 0)
    }

    pub open spec fn spec_has_frames(&self) -> bool {
        bit32(self.bits, 1)
    }

    pub open spec fn spec_is_linked_object(&self) -> bool {
        bit32(self.bits, 2)
    }

    pub open spec fn spec_is_weighted_object(&self) -> bool {
        bit32(self.bits, 3)
    }

    pub open spec fn spec_use_bounds(&self) -> bool {
        bit32(self.bits, 8)
    }

    pub open spec fn spec_has_highres_positions(&self) -> bool {
        bit32(self.bits, 9)
    }

    /// Flags with the given bit pattern.
    pub fn from_bits(bits: u32) -> (r: PrimPropertyFlags)
        ensures
            r.bits == bits,
    {
        PrimPropertyFlags { bits }
    }

    /// The bit pattern of the flags.
    pub fn into_bits(&self) -> (r: u32)
        ensures
            r == self.bits,
    {
        self.bits
    }

    pub fn has_bones(&self) -> (r: bool)
        ensures
            r == self.spec_has_bones(),
    {
        (self.bits >> 0u32) & 1 == 1
    }

    pub fn has_frames(&self) -> (r: bool)
        ensures
            r == self.spec_has_frames(),
    {
        (self.bits >> 1u32) & 1 == 1
    }

    pub fn is_linked_object(&self) -> (r: bool)
        ensures
            r == self.spec_is_linked_object(),
    {
        (self.bits >> 2u32) & 1 == 1
    }

    pub fn is_weighted_object(&self) -> (r: bool)
        ensures
            r == self.spec_is_weighted_object(),
    {
        (self.bits >> 3u32) & 1 == 1
    }

    pub fn use_bounds(&self) -> (r: bool)
        ensures
            r == self.spec_use_bounds(),
    {
        (self.bits >> 8u32) & 1 == 1
    }

    pub fn has_highres_positions(&self) -> (r: bool)
        ensures
            r == self.spec_has_highres_positions(),
    {
        (self.bits >> 9u32) & 1 == 1
    }
}


/// Which of the three mesh kinds a resource holds.
#[derive(Debug, Clone, Copy, PartialEq, Eq, Structural)]
pub enum MeshKind {
    Plain,
    Weighted,
    Linked,
}

/// The mesh kind that the resource-wide flags select: weighted wins over linked.
pub open spec fn kind_of(global: PrimPropertyFlags) -> MeshKind {
    if global.spec_is_weighted_object() {
        MeshKind::Weighted
    } else if global.spec_is_linked_object() {
        MeshKind::Linked
    } else {
        MeshKind::Plain
    }
}

impl PrimPropertyFlags {
    /// The mesh kind that these flags select for every object of the resource.
    pub fn mesh_kind(&self) -> (r: MeshKind)
        ensures
            r == kind_of(*self),
    {
        if self.is_weighted_object() {
            MeshKind::Weighted
        } else if self.is_linked_object() {
            MeshKind::Linked
        } else {
            MeshKind::Plain
        }
    }
}

/// One mesh object of a resource.
#[derive(Debug, Clone, PartialEq, Eq)]
pub enum MeshObject {
    Normal(PrimMesh),
    Weighted(PrimMeshWeighted),
    Linked(PrimMeshLinked),
}

/// The contents of a [`MeshObject`].
pub ghost enum MeshObjectView {
    Normal(PrimMeshView),
    Weighted(PrimMeshWeightedView),
    Linked(PrimMeshLinkedView),
}

impl View for MeshObject {
    type V = MeshObjectView;

    open spec fn view(&self) -> MeshObjectView {
        match self {
            MeshObject::Normal(m) => MeshObjectView::Normal(m@),
            MeshObject::Weighted(m) => MeshObjectView::Weighted(m@),
            MeshObject::Linked(m) => MeshObjectView::Linked(m@),
        }
    }
}

/// The kind of a decoded mesh object.
pub open spec fn view_kind(o: MeshObjectView) -> MeshKind {
    match o {
        MeshObjectView::Normal(_) => MeshKind::Plain,
        MeshObjectView::Weighted(_) => MeshKind::Weighted,
        MeshObjectView::Linked(_) => MeshKind::Linked,
    }
}

impl MeshObject {
    /// The object is of the kind `global` selects and can be encoded so that it decodes to itself.
    pub open spec fn wf(&self, global: PrimPropertyFlags) -> bool {
        match self {
            MeshObject::Normal(m) => kind_of(global) == MeshKind::Plain && m.wf(global),
            MeshObject::Weighted(m) => kind_of(global) == MeshKind::Weighted && m.wf(global),
            MeshObject::Linked(m) => kind_of(global) == MeshKind::Linked && m.wf(global),
        }
    }

    /// The mesh of this object, whatever its kind.
    pub open spec fn spec_prim_mesh(&self) -> PrimMesh {
        match self {
            MeshObject::Normal(m) => *m,
            MeshObject::Weighted(m) => m.prim_mesh,
            MeshObject::Linked(m) => m.prim_mesh,
        }
    }

    /// The mesh of this object, whatever its kind.
    pub fn prim_mesh(&self) -> (r: &PrimMesh)
        ensures
            *r == self.spec_prim_mesh(),
    {
        match self {
            MeshObject::Normal(m) => m,
            MeshObject::Weighted(m) => &m.prim_mesh,
            MeshObject::Linked(m) => &m.prim_mesh,
        }
    }

    /// The per-vertex colours of this object's submesh, when it has a colour region.
    pub fn get_colors(&self) -> (r: Option<Vec<crate::math::Color>>)
        ensures
            r is Some <==> self.spec_prim_mesh().sub_mesh.buffers.colors is Some,
            r is Some ==> r->0@ == crate::prim_mesh::colors_of(
                self.spec_prim_mesh().sub_mesh.buffers.colors->0@,
            ),
    {
        self.prim_mesh().get_colors()
    }

    /// The index buffer of this object's submesh.
    pub fn get_indices(&self) -> (r: &Vec<u16>)
        ensures
            r@ == self.spec_prim_mesh().sub_mesh.indices@,
    {
        &self.prim_mesh().sub_mesh.indices
    }
}

/// The mesh object whose record is stored at `p`, of the kind `global` selects.
#[verifier::opaque]
pub open spec fn object_at(b: Seq<u8>, p: int, global: PrimPropertyFlags) -> Result<
    MeshObjectView,
    GeometryError,
> {
    match kind_of(global) {
        MeshKind::Weighted => match weighted_mesh_at(b, p, global) {
            Err(e) => Err(e),
            Ok(m) => Ok(MeshObjectView::Weighted(m)),
        },
        MeshKind::Linked => match linked_mesh_at(b, p, global) {
            Err(e) => Err(e),
            Ok(m) => Ok(MeshObjectView::Linked(m)),
        },
        MeshKind::Plain => match mesh_at(b, p, global) {
            Err(e) => Err(e),
            Ok(m) => Ok(MeshObjectView::Normal(m)),
        },
    }
}

/// Every offset that the object at `p` follows points at or after `lo`.
pub open spec fn object_reads_from(b: Seq<u8>, p: int, global: PrimPropertyFlags, lo: int) -> bool {
    match kind_of(global) {
        MeshKind::Weighted => weighted_reads_from(b, p, lo),
        MeshKind::Linked => linked_reads_from(b, p, lo),
        MeshKind::Plain => mesh_reads_from(b, p, lo),
    }
}

/// The object at `p` and everything it points at start on sixteen-byte boundaries.
pub open spec fn object_aligned(b: Seq<u8>, p: int, global: PrimPropertyFlags) -> bool {
    match kind_of(global) {
        MeshKind::Weighted => weighted_aligned(b, p),
        MeshKind::Linked => linked_aligned(b, p),
        MeshKind::Plain => mesh_aligned(b, p),
    }
}

/// Decodes the mesh object whose record is at `p`, in the kind `global` selects.
pub fn read_object(b: &Vec<u8>, p: usize, global: PrimPropertyFlags) -> (r: Result<
    MeshObject,
    GeometryError,
>)
    ensures
        match r {
            Ok(x) => object_at(b@, p as int, global) == Ok::<MeshObjectView, GeometryError>(x@),
            Err(e) => object_at(b@, p as int, global) == Err::<MeshObjectView, GeometryError>(e),
        },
{
    proof {
        reveal(object_at);
    }
    match global.mesh_kind() {
        MeshKind::Weighted => Ok(MeshObject::Weighted(read_weighted_mesh(b, p, global)?)),
        MeshKind::Linked => Ok(MeshObject::Linked(read_linked_mesh(b, p, global)?)),
        MeshKind::Plain => Ok(MeshObject::Normal(read_mesh(b, p, global)?)),
    }
}

/// Decoding the object at `p` reads the same in a buffer that agrees with
/// this one from `lo` on, when every offset it follows is at or after `lo`.
pub proof fn lemma_object_stable(a: Seq<u8>, b: Seq<u8>, lo: int, p: int, global: PrimPropertyFlags)
    requires
        agree_from(b, a, lo),
        0 <= lo,
        object_reads_from(a, p, global, lo),
        object_at(a, p, global) is Ok,
    ensures
        object_at(b, p, global) == object_at(a, p, global),
        object_reads_from(b, p, global, lo),
        object_aligned(b, p, global) == object_aligned(a, p, global),
{
    reveal(object_at);
    match kind_of(global) {
        MeshKind::Weighted => lemma_weighted_mesh_stable(a, b, lo, p, global),
        MeshKind::Linked => lemma_linked_mesh_stable(a, b, lo, p, global),
        MeshKind::Plain => lemma_mesh_stable(a, b, lo, p, global),
    }
}

/// Number of bytes a mesh object takes when written from a sixteen-byte boundary.
pub open spec fn object_len(x: MeshObject) -> int {
    match x {
        MeshObject::Normal(m) => crate::prim_mesh::plain_len(m),
        MeshObject::Weighted(m) => crate::prim_mesh_weighted::weighted_len(m),
        MeshObject::Linked(m) => crate::prim_mesh_linked::linked_len(m),
    }
}

pub proof fn lemma_object_len_nonneg(x: MeshObject)
    ensures
        object_len(x) >= 0,
{
    match x {
        MeshObject::Normal(m) => crate::prim_sub_mesh::lemma_submesh_len_nonneg(m.sub_mesh),
        MeshObject::Weighted(m) => crate::prim_mesh_weighted::lemma_weighted_payload_len_nonneg(m),
        MeshObject::Linked(m) => crate::prim_sub_mesh::lemma_submesh_len_nonneg(m.prim_mesh.sub_mesh),
    }
}

/// Number of bytes a list of mesh objects takes when written back to back.
pub open spec fn objects_len(s: Seq<MeshObject>) -> int
    decreases s.len(),
{
    if s.len() == 0 {
        0
    } else {
        objects_len(s.drop_last()) + object_len(s.last())
    }
}

pub proof fn lemma_objects_len_prefix(s: Seq<MeshObject>, i: int)
    requires
        0 <= i <= s.len(),
    ensures
        0 <= objects_len(s.subrange(0, i)) <= objects_len(s),
    decreases s.len() - i,
{
    if i < s.len() {
        lemma_objects_len_prefix(s, i + 1);
        assert(s.subrange(0, i + 1).drop_last() =~= s.subrange(0, i));
        assert(s.subrange(0, i + 1).last() == s[i]);
        lemma_object_len_nonneg(s[i]);
        lemma_objects_len_nonneg(s.subrange(0, i));
    } else {
        assert(s.subrange(0, i) =~= s);
        lemma_objects_len_nonneg(s);
    }
}

pub proof fn lemma_objects_len_nonneg(s: Seq<MeshObject>)
    ensures
        objects_len(s) >= 0,
    decreases s.len(),
{
    if s.len() > 0 {
        lemma_objects_len_nonneg(s.drop_last());
        lemma_object_len_nonneg(s.last());
    }
}

/// Appends a mesh object in its own layout and returns where its record starts.
pub fn write_object(
    buf: &mut Vec<u8>,
    x: &MeshObject,
    global: PrimPropertyFlags,
    bb: &BoundingBox,
) -> (r: Result<u32, GeometryError>)
    ensures
        extends(final(buf)@, old(buf)@),
        r is Err ==> r == Err::<u32, GeometryError>(GeometryError::TooLarge),
        r is Err ==> final(buf)@.len() > u32::MAX,
        old(buf)@.len() % 16 == 0 ==> final(buf)@.len() <= old(buf)@.len() + object_len(*x),
        r is Ok && old(buf)@.len() % 16 == 0 ==> final(buf)@.len() == old(buf)@.len() + object_len(*x),
        r is Ok ==> {
            let h = r->Ok_0 as int;
            let f = final(buf)@;
            &&& old(buf)@.len() <= h
            &&& h + 44 <= f.len()
            &&& bounding_box_at(f, h + 20) == *bb
            &&& f.len() % 16 == 0
            &&& (x.wf(global) ==> object_reads_from(f, h, global, old(buf)@.len() as int))
            &&& (x.wf(global) && old(buf)@.len() % 16 == 0 ==> object_aligned(f, h, global))
            &&& (x.wf(global) && old(buf)@.len() > 0) ==> object_at(f, h, global) == Ok::<
                MeshObjectView,
                GeometryError,
            >(x@)
        },
{
    proof {
        reveal(object_at);
    }
    match x {
        MeshObject::Normal(m) => write_plain_mesh(buf, m, global, bb),
        MeshObject::Weighted(m) => write_weighted_mesh(buf, m, global, bb),
        MeshObject::Linked(m) => write_linked_mesh(buf, m, global, bb),
    }
}

/// The objects whose record offsets are the `n` entries of the table at `table`;
/// the first failure in table order is the result.
pub open spec fn objects_at(b: Seq<u8>, table: int, n: nat, global: PrimPropertyFlags) -> Result<
    Seq<MeshObjectView>,
    GeometryError,
>
    decreases n,
{
    if n == 0 {
        Ok(Seq::empty())
    } else {
        match objects_at(b, table, (n - 1) as nat, global) {
            Err(e) => Err(e),
            Ok(s) => match object_at(b, u32_at(b, table + 4 * (n - 1)) as int, global) {
                Err(e) => Err(e),
                Ok(o) => Ok(s.push(o)),
            },
        }
    }
}

/// The container header of a resource.
#[derive(Debug, Clone, PartialEq, Eq)]
pub struct PrimObjectHeader {
    pub prims: PrimHeader,
    pub property_flags: PrimPropertyFlags,
    pub bone_rig_resource_index: Option<u32>,
    pub objects: Vec<MeshObject>,
}

/// The contents of a [`PrimObjectHeader`].
pub ghost struct PrimObjectHeaderView {
    pub prims: PrimHeader,
    pub property_flags: PrimPropertyFlags,
    pub bone_rig_resource_index: Option<u32>,
    pub objects: Seq<MeshObjectView>,
}

/// The contents of a list of mesh objects.
pub open spec fn objects_view(v: Seq<MeshObject>) -> Seq<MeshObjectView> {
    Seq::new(v.len(), |i: int| v[i]@)
}

impl View for PrimObjectHeader {
    type V = PrimObjectHeaderView;

    open spec fn view(&self) -> PrimObjectHeaderView {
        PrimObjectHeaderView {
            prims: self.prims,
            property_flags: self.property_flags,
            bone_rig_resource_index: self.bone_rig_resource_index,
            objects: objects_view(self.objects@),
        }
    }
}

/// The bone-rig reference field: `0xFFFFFFFF` stands for none.
pub open spec fn rig_of(v: u32) -> Option<u32> {
    if v == 0xFFFF_FFFF {
        None
    } else {
        Some(v)
    }
}

/// The container header stored at `h` with every object it lists.
pub open spec fn header_at(b: Seq<u8>, h: int) -> Result<PrimObjectHeaderView, GeometryError> {
    if !fits(b.len() as int, h, 44) {
        Err(GeometryError::Malformed(h as u64))
    } else {
        match prim_type_of(u16_at(b, h + 2)) {
            None => Err(GeometryError::Malformed(h as u64)),
            Some(t) => {
                let global = PrimPropertyFlags { bits: u32_at(b, h + 4) };
                let n = u32_at(b, h + 12);
                let table = u32_at(b, h + 16) as int;
                if !fits(b.len() as int, table, 4 * n) {
                    Err(GeometryError::Malformed(table as u64))
                } else {
                    match objects_at(b, table, n as nat, global) {
                        Err(e) => Err(e),
                        Ok(objects) => Ok(
                            PrimObjectHeaderView {
                                prims: PrimHeader { type_: t },
                                property_flags: global,
                                bone_rig_resource_index: rig_of(u32_at(b, h + 8)),
                                objects,
                            },
                        ),
                    }
                }
            },
        }
    }
}

/// The resource stored in `b`: an eight-byte root offset of the container header.
pub open spec fn render_primitive_at(b: Seq<u8>) -> Result<PrimObjectHeaderView, GeometryError> {
    if !fits(b.len() as int, 0, 8) {
        Err(GeometryError::Malformed(0))
    } else {
        header_at(b, u64_at(b, 0) as int)
    }
}

/// A decoded render primitive resource.
#[derive(Debug, Clone, PartialEq, Eq)]
pub struct RenderPrimitive {
    pub data: PrimObjectHeader,
}

impl View for RenderPrimitive {
    type V = PrimObjectHeaderView;

    open spec fn view(&self) -> PrimObjectHeaderView {
        self.data@
    }
}

/// Level of detail, finest first.
#[derive(Debug, Clone, Copy, PartialEq, Eq)]
pub enum LodLevel {
    LEVEL1,
    LEVEL2,
    LEVEL3,
    LEVEL4,
    LEVEL5,
    LEVEL6,
    LEVEL7,
    LEVEL8,
}

/// The bit of the LOD mask that a level owns: level 1 the top bit, level 8 the lowest.
pub open spec fn lod_bit(lod: LodLevel) -> u8 {
    match lod {
        LodLevel::LEVEL8 => 0x01,
        LodLevel::LEVEL7 => 0x02,
        LodLevel::LEVEL6 => 0x04,
        LodLevel::LEVEL5 => 0x08,
        LodLevel::LEVEL4 => 0x10,
        LodLevel::LEVEL3 => 0x20,
        LodLevel::LEVEL2 => 0x40,
        LodLevel::LEVEL1 => 0x80,
    }
}

fn lod_mask_of(lod: LodLevel) -> (r: u8)
    ensures
        r == lod_bit(lod),
{
    match lod {
        LodLevel::LEVEL8 => 0x01,
        LodLevel::LEVEL7 => 0x02,
        LodLevel::LEVEL6 => 0x04,
        LodLevel::LEVEL5 => 0x08,
        LodLevel::LEVEL4 => 0x10,
        LodLevel::LEVEL3 => 0x20,
        LodLevel::LEVEL2 => 0x40,
        LodLevel::LEVEL1 => 0x80,
    }
}

/// The LOD mask of a mesh object.
pub open spec fn object_lod_mask(o: MeshObject) -> u8 {
    o.spec_prim_mesh().prim_object.lod_mask
}

impl RenderPrimitive {
    /// The mesh objects, in table order.
    pub fn iter_primitives(&self) -> (r: &Vec<MeshObject>)
        ensures
            r@ == self.data.objects@,
    {
        &self.data.objects
    }

    /// Number of mesh objects.
    pub fn primitives_count(&self) -> (r: usize)
        ensures
            r == self.data.objects@.len(),
    {
        self.data.objects.len()
    }

    /// The resource-wide property flags.
    pub fn flags(&self) -> (r: PrimPropertyFlags)
        ensures
            r == self.data.property_flags,
    {
        self.data.property_flags
    }

    /// The positions, in order, of the objects whose LOD mask holds the bit of `lod`.
    pub fn iter_primitive_of_lod(&self, lod: LodLevel) -> (r: Vec<usize>)
        ensures
            forall|k: int| 0 <= k < r@.len() ==> #[trigger] r@[k] < self.data.objects@.len(),
            forall|k: int, l: int| 0 <= k < l < r@.len() ==> r@[k] < r@[l],
            forall|i: int|
                0 <= i < self.data.objects@.len() ==> (r@.contains(i as usize) <==> object_lod_mask(
                    #[trigger] self.data.objects@[i],
                ) & lod_bit(lod) == lod_bit(lod)),
    {
        let mask = lod_mask_of(lod);
        let mut r: Vec<usize> = Vec::new();
        let mut i: usize = 0;
        while i < self.data.objects.len()
            invariant
                i <= self.data.objects@.len(),
                mask == lod_bit(lod),
                forall|k: int| 0 <= k < r@.len() ==> #[trigger] r@[k] < i,
                forall|k: int, l: int| 0 <= k < l < r@.len() ==> r@[k] < r@[l],
                forall|j: int|
                    0 <= j < i ==> (r@.contains(j as usize) <==> object_lod_mask(
                        #[trigger] self.data.objects@[j],
                    ) & lod_bit(lod) == lod_bit(lod)),
            decreases self.data.objects@.len() - i,
        {
            let m = self.data.objects[i].prim_mesh().prim_object.lod_mask;
            let ghost prev = r@;
            if m & mask == mask {
                r.push(i);
            }
            proof {
                assert forall|j: int| 0 <= j < i + 1 implies (r@.contains(j as usize)
                    <==> object_lod_mask(#[trigger] self.data.objects@[j]) & lod_bit(lod) == lod_bit(
                    lod,
                )) by {
                    if j < i {
                        if r@.contains(j as usize) {
                            let k = choose|k: int| 0 <= k < r@.len() && r@[k] == j as usize;
                            if k < prev.len() {
                                assert(prev[k] == j as usize);
                            }
                        }
                        if prev.contains(j as usize) {
                            let k = choose|k: int| 0 <= k < prev.len() && prev[k] == j as usize;
                            assert(r@[k] == j as usize);
                        }
                    } else {
                        if r@.contains(j as usize) {
                            let k = choose|k: int| 0 <= k < r@.len() && r@[k] == j as usize;
                            if k < prev.len() {
                                assert(prev[k] < i);
                            }
                        }
                        if m & mask == mask {
                            assert(r@[prev.len() as int] == i);
                        }
                    }
                }
            }
            i = i + 1;
        }
        r
    }
}


/// Once an object in the table fails, the whole list fails with that error.
pub proof fn lemma_objects_err(b: Seq<u8>, table: int, i: nat, n: nat, global: PrimPropertyFlags)
    requires
        i <= n,
        objects_at(b, table, i, global) is Err,
    ensures
        objects_at(b, table, n, global) == objects_at(b, table, i, global),
    decreases n - i,
{
    if i < n {
        lemma_objects_err(b, table, i, (n - 1) as nat, global);
    }
}

/// A table whose entries point at objects that decode to `objs` decodes to `objs`.
pub proof fn lemma_objects_at(
    b: Seq<u8>,
    table: int,
    n: nat,
    global: PrimPropertyFlags,
    offs: Seq<u32>,
    objs: Seq<MeshObjectView>,
)
    requires
        n <= offs.len(),
        n <= objs.len(),
        forall|k: int| 0 <= k < n ==> u32_at(b, table + 4 * k) == #[trigger] offs[k],
        forall|k: int|
            0 <= k < n ==> object_at(b, #[trigger] offs[k] as int, global) == Ok::<
                MeshObjectView,
                GeometryError,
            >(objs[k]),
    ensures
        objects_at(b, table, n, global) == Ok::<Seq<MeshObjectView>, GeometryError>(
            objs.subrange(0, n as int),
        ),
    decreases n,
{
    if n > 0 {
        lemma_objects_at(b, table, (n - 1) as nat, global, offs, objs);
        assert(offs[n - 1] == u32_at(b, table + 4 * (n - 1)));
        assert(objs.subrange(0, n - 1).push(objs[n - 1]) =~= objs.subrange(0, n as int));
    } else {
        assert(objs.subrange(0, 0) =~= Seq::<MeshObjectView>::empty());
    }
}

/// Decodes the container header at `h` and every object it lists.
pub fn read_header(b: &Vec<u8>, h: usize) -> (r: Result<PrimObjectHeader, GeometryError>)
    ensures
        match r {
            Ok(x) => header_at(b@, h as int) == Ok::<PrimObjectHeaderView, GeometryError>(x@),
            Err(e) => header_at(b@, h as int) == Err::<PrimObjectHeaderView, GeometryError>(e),
        },
{
    check_fits(b, h, 44)?;
    let t = match PrimType::from_u16(read_u16(b, h + 2)) {
        Some(t) => t,
        None => return Err(GeometryError::Malformed(h as u64)),
    };
    let property_flags = PrimPropertyFlags { bits: read_u32(b, h + 4) };
    let rig = read_u32(b, h + 8);
    let n = read_u32(b, h + 12);
    let table = read_u32(b, h + 16);
    if check_fits(b, table as usize, 4 * n as u64).is_err() {
        return Err(GeometryError::Malformed(table as u64));
    }
    let mut objects: Vec<MeshObject> = Vec::new();
    let mut i: u32 = 0;
    assert(objects_view(objects@) =~= Seq::<MeshObjectView>::empty());
    while i < n
        invariant
            i <= n,
            table + 4 * n <= b@.len(),
            b@.len() <= usize::MAX,
            fits(b@.len() as int, h as int, 44),
            prim_type_of(u16_at(b@, h + 2)) == Some(t),
            property_flags == (PrimPropertyFlags { bits: u32_at(b@, h + 4) }),
            n == u32_at(b@, h + 12),
            table == u32_at(b@, h + 16),
            objects_at(b@, table as int, i as nat, property_flags) == Ok::<
                Seq<MeshObjectView>,
                GeometryError,
            >(objects_view(objects@)),
        decreases n - i,
    {
        let off = read_u32(b, table as usize + 4 * i as usize);
        match read_object(b, off as usize, property_flags) {
            Ok(o) => {
                let ghost prev = objects@;
                objects.push(o);
                assert(objects_view(objects@) =~= objects_view(prev).push(o@));
            },
            Err(e) => {
                proof {
                    assert(objects_at(b@, table as int, (i + 1) as nat, property_flags) == Err::<
                        Seq<MeshObjectView>,
                        GeometryError,
                    >(e));
                    lemma_objects_err(b@, table as int, (i + 1) as nat, n as nat, property_flags);
                }
                return Err(e);
            },
        }
        i = i + 1;
    }
    let bone_rig_resource_index = if rig == 0xFFFF_FFFF {
        None
    } else {
        Some(rig)
    };
    Ok(
        PrimObjectHeader {
            prims: PrimHeader { type_: t },
            property_flags,
            bone_rig_resource_index,
            objects,
        },
    )
}

impl RenderPrimitive {
    /// Decodes a resource from its bytes.
    pub fn parse_bytes(data: &Vec<u8>) -> (r: Result<RenderPrimitive, GeometryError>)
        ensures
            match r {
                Ok(x) => render_primitive_at(data@) == Ok::<PrimObjectHeaderView, GeometryError>(
                    x@,
                ),
                Err(e) => render_primitive_at(data@) == Err::<PrimObjectHeaderView, GeometryError>(
                    e,
                ),
            },
    {
        check_fits(data, 0, 8)?;
        let h = read_u64(data, 0);
        if h > data.len() as u64 {
            return Err(GeometryError::Malformed(h));
        }
        let header = read_header(data, h as usize)?;
        Ok(RenderPrimitive { data: header })
    }
}


/// The kind of a mesh object.
pub open spec fn object_kind(o: MeshObject) -> MeshKind {
    match o {
        MeshObject::Normal(_) => MeshKind::Plain,
        MeshObject::Weighted(_) => MeshKind::Weighted,
        MeshObject::Linked(_) => MeshKind::Linked,
    }
}

impl MeshObject {
    /// The kind of this object.
    pub fn kind(&self) -> (r: MeshKind)
        ensures
            r == object_kind(*self),
    {
        match self {
            MeshObject::Normal(_) => MeshKind::Plain,
            MeshObject::Weighted(_) => MeshKind::Weighted,
            MeshObject::Linked(_) => MeshKind::Linked,
        }
    }
}

impl PrimObjectHeader {
    /// Whether every object is of the kind the resource-wide flags select.
    pub fn objects_match_flags(&self) -> (r: bool)
        ensures
            r == forall|i: int|
                0 <= i < self.objects@.len() ==> object_kind(#[trigger] self.objects@[i]) == kind_of(
                    self.property_flags,
                ),
    {
        let want = self.property_flags.mesh_kind();
        let mut i: usize = 0;
        while i < self.objects.len()
            invariant
                i <= self.objects@.len(),
                want == kind_of(self.property_flags),
                forall|k: int| 0 <= k < i ==> object_kind(#[trigger] self.objects@[k]) == want,
            decreases self.objects@.len() - i,
        {
            if self.objects[i].kind() != want {
                return false;
            }
            i = i + 1;
        }
        true
    }

    /// The resource can be encoded so that it decodes to itself: every object
    /// is of the kind the flags select and well formed, and counts fit their fields.
    pub open spec fn wf(&self) -> bool {
        &&& self.objects@.len() <= u32::MAX
        &&& forall|i: int| 0 <= i < self.objects@.len() ==> (#[trigger] self.objects@[i]).wf(
            self.property_flags,
        )
        &&& self.bone_rig_resource_index != Some(0xFFFF_FFFFu32)
    }
}

impl RenderPrimitive {
    /// The resource can be encoded so that it decodes to itself.
    pub open spec fn wf(&self) -> bool {
        self.data.wf()
    }
}

/// The container header, the object table and every object start on
/// sixteen-byte boundaries, as does every region an object points at.
pub open spec fn resource_aligned(b: Seq<u8>) -> bool {
    let h = u64_at(b, 0) as int;
    let global = PrimPropertyFlags { bits: u32_at(b, h + 4) };
    let table = u32_at(b, h + 16) as int;
    &&& h % 16 == 0
    &&& table % 16 == 0
    &&& forall|k: int|
        0 <= k < u32_at(b, h + 12) ==> object_aligned(
            b,
            #[trigger] u32_at(b, table + 4 * k) as int,
            global,
        )
}

/// Appends every object of `objects`, the record of object `k` holding the box
/// `boxes[k]`, and returns where each record starts.
fn write_objects(
    buf: &mut Vec<u8>,
    objects: &Vec<MeshObject>,
    global: PrimPropertyFlags,
    boxes: &Vec<BoundingBox>,
) -> (r: Result<Vec<u32>, GeometryError>)
    requires
        old(buf)@.len() == 16,
        boxes@.len() == objects@.len(),
    ensures
        extends(final(buf)@, old(buf)@),
        r is Err ==> r == Err::<Vec<u32>, GeometryError>(GeometryError::TooLarge),
        r is Err ==> final(buf)@.len() > u32::MAX,
        final(buf)@.len() <= 16 + objects_len(objects@),
        r is Ok ==> final(buf)@.len() == 16 + objects_len(objects@),
        r is Ok ==> {
            let offs = r->Ok_0@;
            let f = final(buf)@;
            &&& f.len() % 16 == 0
            &&& offs.len() == objects@.len()
            &&& forall|k: int|
                0 <= k < offs.len() ==> {
                    &&& 16 <= #[trigger] offs[k]
                    &&& offs[k] + 44 <= f.len()
                    &&& bounding_box_at(f, offs[k] + 20) == boxes@[k]
                }
            &&& forall|k: int|
                0 <= k < offs.len() && (#[trigger] objects@[k]).wf(global) ==> {
                    &&& object_reads_from(f, offs[k] as int, global, 16)
                    &&& object_aligned(f, offs[k] as int, global)
                    &&& object_at(f, offs[k] as int, global) == Ok::<MeshObjectView, GeometryError>(
                        objects@[k]@,
                    )
                }
        },
{
    let mut offsets: Vec<u32> = Vec::new();
    let ghost start = buf@;
    let mut i: usize = 0;
    while i < objects.len()
        invariant
            i <= objects@.len(),
            start == old(buf)@,
            start.len() == 16,
            extends(buf@, start),
            buf@.len() % 16 == 0,
            buf@.len() == 16 + objects_len(objects@.subrange(0, i as int)),
            offsets@.len() == i,
            boxes@.len() == objects@.len(),
            forall|k: int|
                0 <= k < i ==> {
                    &&& 16 <= #[trigger] offsets@[k]
                    &&& offsets@[k] + 44 <= buf@.len()
                    &&& bounding_box_at(buf@, offsets@[k] + 20) == boxes@[k]
                },
            forall|k: int|
                0 <= k < i && (#[trigger] objects@[k]).wf(global) ==> {
                    &&& object_reads_from(buf@, offsets@[k] as int, global, 16)
                    &&& object_aligned(buf@, offsets@[k] as int, global)
                    &&& object_at(buf@, offsets@[k] as int, global) == Ok::<
                        MeshObjectView,
                        GeometryError,
                    >(objects@[k]@)
                },
        decreases objects@.len() - i,
    {
        let ghost before = buf@;
        let res = write_object(buf, &objects[i], global, &boxes[i]);
        proof {
            lemma_extends_trans(start, before, buf@);
            assert(objects@.subrange(0, i + 1).drop_last() =~= objects@.subrange(0, i as int));
            lemma_objects_len_prefix(objects@, i + 1);
        }
        let off = match res {
            Ok(off) => off,
            Err(e) => return Err(e),
        };
        let ghost prev = offsets@;
        offsets.push(off);
        proof {
            lemma_extends_trans(start, before, buf@);
            assert forall|k: int| 0 <= k < i + 1 implies {
                &&& 16 <= #[trigger] offsets@[k]
                &&& offsets@[k] + 44 <= buf@.len()
                &&& bounding_box_at(buf@, offsets@[k] + 20) == boxes@[k]
            } by {
                if k < i {
                    assert(offsets@[k] == prev[k]);
                    assert(bounding_box_at(before, prev[k] + 20) == boxes@[k]);
                }
            }
            assert forall|k: int|
                0 <= k < i + 1 && (#[trigger] objects@[k]).wf(global) implies {
                &&& object_reads_from(buf@, offsets@[k] as int, global, 16)
                &&& object_aligned(buf@, offsets@[k] as int, global)
                &&& object_at(buf@, offsets@[k] as int, global) == Ok::<MeshObjectView, GeometryError>(
                    objects@[k]@,
                )
            } by {
                if k < i {
                    assert(offsets@[k] == prev[k]);
                    lemma_object_stable(before, buf@, 16, prev[k] as int, global);
                } else {
                    lemma_object_reads_from_mono(buf@, off as int, global, before.len() as int, 16);
                }
            }
        }
        i = i + 1;
    }
    proof {
        assert(objects@.subrange(0, i as int) =~= objects@);
    }
    Ok(offsets)
}

/// Following only offsets at or after `lo` means following only offsets at or after any `lo2 <= lo`.
pub proof fn lemma_object_reads_from_mono(b: Seq<u8>, p: int, global: PrimPropertyFlags, lo: int, lo2: int)
    requires
        lo2 <= lo,
        object_reads_from(b, p, global, lo),
    ensures
        object_reads_from(b, p, global, lo2),
{
}

/// Appends the 44-byte container header, padded to eight bytes.
fn write_container_header(
    buf: &mut Vec<u8>,
    x: &PrimObjectHeader,
    table: u32,
    bb: &BoundingBox,
)
    ensures
        extends(final(buf)@, old(buf)@),
        final(buf)@.len() >= old(buf)@.len() + 44,
        final(buf)@.len() % 8 == 0,
        old(buf)@.len() % 16 == 0 ==> final(buf)@.len() == old(buf)@.len() + 48,
        bounding_box_at(final(buf)@, old(buf)@.len() as int + 20) == *bb,
        ({
            let f = final(buf)@;
            let h = old(buf)@.len() as int;
            &&& u16_at(f, h + 2) == prim_type_value(x.prims.type_)
            &&& u32_at(f, h + 4) == x.property_flags.bits
            &&& rig_of(u32_at(f, h + 8)) == (if x.bone_rig_resource_index != Some(0xFFFF_FFFFu32) {
                x.bone_rig_resource_index
            } else {
                None
            })
            &&& (x.objects@.len() <= u32::MAX ==> u32_at(f, h + 12) == x.objects@.len())
            &&& u32_at(f, h + 16) == table
        }),
{
    let ghost b0 = buf@;
    write_u16(buf, 0);
    let ghost b1 = buf@;
    write_u16(buf, x.prims.type_.to_u16());
    let ghost b2 = buf@;
    write_u32(buf, x.property_flags.bits);
    let ghost b3 = buf@;
    let rig: u32 = match x.bone_rig_resource_index {
        Some(v) => v,
        None => 0xFFFF_FFFF,
    };
    write_u32(buf, rig);
    let ghost b4 = buf@;
    let count: u32 = if x.objects.len() as u64 <= 0xFFFF_FFFF {
        x.objects.len() as u32
    } else {
        0
    };
    write_u32(buf, count);
    let ghost b5 = buf@;
    write_u32(buf, table);
    let ghost b6 = buf@;
    write_bounding_box(buf, bb);
    let ghost b7 = buf@;
    align_writer(buf, 8);
    proof {
        if b0.len() % 16 == 0 {
            let l = b0.len() as int;
            assert((l + 44) % 8 == 4) by (nonlinear_arith)
                requires l % 16 == 0, l >= 0;
        }
        lemma_extends_append(b7, zeros(pad_len(b7.len() as int, 8) as nat));
        crate::bytes::lemma_extends_trans(b6, b7, buf@);
        crate::bytes::lemma_extends_trans(b5, b6, buf@);
        crate::bytes::lemma_extends_trans(b4, b5, buf@);
        crate::bytes::lemma_extends_trans(b3, b4, buf@);
        crate::bytes::lemma_extends_trans(b2, b3, buf@);
        crate::bytes::lemma_extends_trans(b1, b2, buf@);
        crate::bytes::lemma_extends_trans(b0, b1, buf@);
    }
}

proof fn lemma_resource_written(
    b1: Seq<u8>,
    b4: Seq<u8>,
    f: Seq<u8>,
    h: int,
    table: u32,
    offs: Seq<u32>,
    x: PrimObjectHeader,
    boxes: Seq<BoundingBox>,
)
    requires
        extends(b4, b1),
        16 <= b1.len(),
        u64_at(b1, 8) == 0,
        boxes.len() == offs.len(),
        forall|k: int|
            0 <= k < offs.len() ==> {
                &&& 16 <= #[trigger] offs[k]
                &&& offs[k] + 44 <= b1.len()
                &&& bounding_box_at(b1, offs[k] + 20) == boxes[k]
            },
        bounding_box_at(b4, h + 20) == boxes_union(boxes),
        agree_from(f, b4, 8),
        f.len() == b4.len(),
        16 <= table,
        table + 4 * offs.len() <= h,
        table % 16 == 0,
        h % 16 == 0,
        h + 44 <= b4.len(),
        u64_at(f, 0) == h,
        crate::bytes::u32s_at(b4, table as int, offs.len()) == offs,
        offs.len() == x.objects@.len(),
        u16_at(b4, h + 2) == prim_type_value(x.prims.type_),
        u32_at(b4, h + 4) == x.property_flags.bits,
        rig_of(u32_at(b4, h + 8)) == (if x.bone_rig_resource_index != Some(0xFFFF_FFFFu32) {
            x.bone_rig_resource_index
        } else {
            None
        }),
        x.objects@.len() <= u32::MAX ==> u32_at(b4, h + 12) == x.objects@.len(),
        u32_at(b4, h + 16) == table,
        forall|k: int|
            0 <= k < offs.len() && (#[trigger] x.objects@[k]).wf(x.property_flags) ==> {
                &&& object_reads_from(b1, offs[k] as int, x.property_flags, 16)
                &&& object_aligned(b1, offs[k] as int, x.property_flags)
                &&& object_at(b1, offs[k] as int, x.property_flags) == Ok::<
                    MeshObjectView,
                    GeometryError,
                >(x.objects@[k]@)
            },
    ensures
        u64_at(f, 8) == 0,
        bounding_box_at(f, u64_at(f, 0) + 20) == boxes_union(boxes),
        forall|k: int|
            0 <= k < offs.len() ==> bounding_box_at(
                f,
                #[trigger] u32_at(f, u32_at(f, u64_at(f, 0) + 16) + 4 * k) + 20,
            ) == boxes[k],
        x.wf() ==> render_primitive_at(f) == Ok::<PrimObjectHeaderView, GeometryError>(x@),
        x.wf() ==> resource_aligned(f),
{
    crate::bytes::lemma_u32s_stable(b4, f, 16, table as int, offs.len());
    assert(u32_at(f, h + 16) == table);
    assert forall|k: int| 0 <= k < offs.len() implies bounding_box_at(
        f,
        #[trigger] u32_at(f, u32_at(f, u64_at(f, 0) + 16) + 4 * k) + 20,
    ) == boxes[k] by {
        assert(crate::bytes::u32s_at(f, table as int, offs.len())[k] == offs[k]);
        assert(u32_at(f, table + 4 * k) == offs[k]);
        assert(bounding_box_at(b4, offs[k] + 20) == boxes[k]);
    }
    if x.wf() {
        let global = x.property_flags;
        let objs = objects_view(x.objects@);
        assert forall|k: int| 0 <= k < offs.len() implies u32_at(f, table + 4 * k)
            == #[trigger] offs[k] by {
            assert(crate::bytes::u32s_at(f, table as int, offs.len())[k] == offs[k]);
        }
        assert forall|k: int| 0 <= k < offs.len() implies {
            &&& object_at(f, #[trigger] offs[k] as int, global) == Ok::<MeshObjectView, GeometryError>(
                objs[k],
            )
            &&& object_aligned(f, offs[k] as int, global)
        } by {
            assert(x.objects@[k].wf(global));
            lemma_object_stable(b1, b4, 16, offs[k] as int, global);
            lemma_object_stable(b4, f, 16, offs[k] as int, global);
        }
        lemma_objects_at(f, table as int, offs.len(), global, offs, objs);
        assert(objs.subrange(0, offs.len() as int) =~= objs);
        assert(prim_type_of(u16_at(f, h + 2)) == Some(x.prims.type_));
        assert(fits(f.len() as int, table as int, 4 * offs.len() as int));
        assert(render_primitive_at(f) =~= Ok::<PrimObjectHeaderView, GeometryError>(x@));
        assert forall|k: int| 0 <= k < u32_at(f, h + 12) implies object_aligned(
            f,
            #[trigger] u32_at(f, table + 4 * k) as int,
            PrimPropertyFlags { bits: u32_at(f, h + 4) },
        ) by {
            assert(u32_at(f, table + 4 * k) == offs[k]);
        }
    }
}

/// Number of bytes the encoding of `r` takes: the root block, the objects,
/// the object table padded to sixteen, and the header padded to eight.
pub open spec fn encoded_len(r: RenderPrimitive) -> int {
    16 + objects_len(r.data.objects@) + crate::bytes::pad16(4 * r.data.objects@.len() as int) + 48
}

impl RenderPrimitive {
    /// Encodes the resource into the empty buffer `out`: objects first, each
    /// record holding the box `boxes[k]` of its object, then the object table
    /// and the container header, whose box is the union of `boxes`; finally
    /// the root offset at the start is set to the header. Fails only when an
    /// offset would not fit 32 bits.
    pub fn write_bytes(&self, boxes: &Vec<BoundingBox>, out: &mut Vec<u8>) -> (r: Result<
        (),
        GeometryError,
    >)
        requires
            old(out)@.len() == 0,
            boxes@.len() == self.data.objects@.len(),
        ensures
            r is Err ==> r == Err::<(), GeometryError>(GeometryError::TooLarge),
            r is Err ==> final(out)@.len() > u32::MAX,
            encoded_len(*self) <= u32::MAX ==> r is Ok,
            r is Ok ==> final(out)@.len() == encoded_len(*self),
            r is Ok ==> {
                let f = final(out)@;
                let h = u64_at(f, 0) as int;
                let table = u32_at(f, h + 16) as int;
                &&& f.len() % 8 == 0
                &&& u64_at(f, 8) == 0
                &&& bounding_box_at(f, h + 20) == boxes_union(boxes@)
                &&& forall|k: int|
                    0 <= k < boxes@.len() ==> bounding_box_at(
                        f,
                        #[trigger] u32_at(f, table + 4 * k) + 20,
                    ) == boxes@[k]
            },
            r is Ok && self.wf() ==> render_primitive_at(final(out)@) == Ok::<
                PrimObjectHeaderView,
                GeometryError,
            >(self@),
            r is Ok && self.wf() ==> resource_aligned(final(out)@),
    {
        let x = &self.data;
        write_u64(out, 0);
        let ghost a0 = out@;
        write_u64(out, 0);
        let ghost b0 = out@;
        proof {
            lemma_extends_trans(a0, b0, b0);
        }
        let offsets = write_objects(out, &x.objects, x.property_flags, boxes)?;
        let ghost b1 = out@;
        let table = stream_position(out)?;
        write_u32s(out, &offsets);
        let ghost b2 = out@;
        align16(out);
        let ghost b3 = out@;
        proof {
            crate::bytes::lemma_pad16_from(b1.len() as int, 4 * offsets@.len() as int);
        }
        let h = stream_position(out)?;
        let bb = BoundingBox::sum(boxes);
        write_container_header(out, x, table, &bb);
        let ghost b4 = out@;
        patch_u64(out, 0, h as u64);
        proof {
            lemma_extends_trans(b1, b2, b3);
            lemma_extends_trans(b1, b3, b4);
            lemma_extends_trans(b0, b1, b4);
            assert(u64_at(b1, 8) == 0);
            lemma_u32s_stable(b2, b4, 0, table as int, offsets@.len());
            lemma_resource_written(b1, b4, out@, h as int, table, offsets@, *x, boxes@);
        }
        Ok(())
    }
}


proof fn lemma_objects_kind(b: Seq<u8>, table: int, n: nat, global: PrimPropertyFlags)
    requires
        objects_at(b, table, n, global) is Ok,
    ensures
        forall|i: int|
            0 <= i < objects_at(b, table, n, global)->Ok_0.len() ==> view_kind(
                #[trigger] objects_at(b, table, n, global)->Ok_0[i],
            ) == kind_of(global),
        objects_at(b, table, n, global)->Ok_0.len() == n,
    decreases n,
{
    if n > 0 {
        lemma_objects_kind(b, table, (n - 1) as nat, global);
        reveal(object_at);
        let s = objects_at(b, table, (n - 1) as nat, global)->Ok_0;
        let o = object_at(b, u32_at(b, table + 4 * (n - 1)) as int, global)->Ok_0;
        assert(view_kind(o) == kind_of(global));
        assert forall|i: int| 0 <= i < s.len() + 1 implies view_kind(#[trigger] s.push(o)[i]) == kind_of(
            global,
        ) by {
            if i < s.len() {
                assert(s.push(o)[i] == s[i]);
            }
        }
    }
}

/// Every mesh object of a decoded resource has the kind that the resource's
/// flags select, so all objects of one resource share one kind.
pub proof fn lemma_variant_exclusivity(b: Seq<u8>)
    requires
        render_primitive_at(b) is Ok,
    ensures
        forall|i: int|
            0 <= i < render_primitive_at(b)->Ok_0.objects.len() ==> view_kind(
                #[trigger] render_primitive_at(b)->Ok_0.objects[i],
            ) == kind_of(render_primitive_at(b)->Ok_0.property_flags),
{
    let h = u64_at(b, 0) as int;
    let global = PrimPropertyFlags { bits: u32_at(b, h + 4) };
    lemma_objects_kind(b, u32_at(b, h + 16) as int, u32_at(b, h + 12) as nat, global);
}


/// The bone tables of a decoded object are consistent: every weighted remap
/// entry names an existing acceleration entry inside the index buffer, and a
/// linked table has no more entries than set bits.
pub open spec fn view_consistent(o: MeshObjectView) -> bool {
    match o {
        MeshObjectView::Normal(_) => true,
        MeshObjectView::Weighted(m) => crate::prim_mesh_weighted::accel_coverage(
            m.bone_info,
            m.prim_mesh.sub_mesh.indices.len() as int,
        ),
        MeshObjectView::Linked(m) => crate::prim_mesh_linked::linked_consistent(m.bone_info),
    }
}

impl MeshObject {
    /// Whether this object's bone tables are consistent.
    pub fn is_consistent(&self) -> (r: bool)
        ensures
            r == view_consistent(self@),
    {
        match self {
            MeshObject::Normal(_) => true,
            MeshObject::Weighted(m) => m.bone_info.check_coverage(m.prim_mesh.sub_mesh.indices.len()),
            MeshObject::Linked(m) => m.bone_info.check_consistency().is_ok(),
        }
    }
}

impl RenderPrimitive {
    /// Fails with [`GeometryError::Consistency`] unless every object's bone tables are consistent.
    pub fn check_consistency(&self) -> (r: Result<(), GeometryError>)
        ensures
            r is Ok <==> forall|i: int| 0 <= i < self@.objects.len() ==> #[trigger] view_consistent(
                self@.objects[i],
            ),
            r is Err ==> r == Err::<(), GeometryError>(GeometryError::Consistency),
    {
        let mut i: usize = 0;
        while i < self.data.objects.len()
            invariant
                i <= self.data.objects@.len(),
                self@.objects == objects_view(self.data.objects@),
                forall|k: int| 0 <= k < i ==> #[trigger] view_consistent(self@.objects[k]),
            decreases self.data.objects@.len() - i,
        {
            if !self.data.objects[i].is_consistent() {
                assert(!view_consistent(self@.objects[i as int]));
                return Err(GeometryError::Consistency);
            }
            i = i + 1;
        }
        Ok(())
    }

    /// Decodes a resource and, strictly, refuses it with
    /// [`GeometryError::Consistency`] when some object's bone tables are inconsistent.
    pub fn parse_bytes_strict(data: &Vec<u8>) -> (r: Result<RenderPrimitive, GeometryError>)
        ensures
            match r {
                Ok(x) => render_primitive_at(data@) == Ok::<PrimObjectHeaderView, GeometryError>(x@)
                    && forall|i: int| 0 <= i < x@.objects.len() ==> #[trigger] view_consistent(
                    x@.objects[i],
                ),
                Err(e) => match render_primitive_at(data@) {
                    Err(d) => e == d,
                    Ok(v) => e == GeometryError::Consistency && exists|i: int|
                        0 <= i < v.objects.len() && !#[trigger] view_consistent(v.objects[i]),
                },
            },
    {
        let x = RenderPrimitive::parse_bytes(data)?;
        match x.check_consistency() {
            Ok(()) => Ok(x),
            Err(e) => Err(e),
        }
    }
}

} // verus!
