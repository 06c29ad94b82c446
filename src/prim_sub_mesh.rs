//! The submesh: index buffer, vertex regions, collision and cloth, reached
//! through the offsets of a fixed 76-byte header.
use vstd::prelude::*;

use crate::buffer::{
    vertex_bytes,    lemma_vertex_buffers_stable, parse_vertices, vertex_buffers_at, write_vertex_buffers,
    VertexBuffers, VertexBuffersView, VertexLayout,
};
use crate::bytes::{
    agree_from, lemma_pad16_from, pad16, align16, check_fits, extends, fits, lemma_u16s_stable,
    read_u16s, read_u32, read_u8, stream_position, u16s_at, u32_at, u64_at, write_u16s, write_u32,
    write_u64,
};
use crate::cloth::{cloth_len, cloth_at, lemma_cloth_stable, read_cloth, write_cloth, ClothSimMesh, ClothSimMeshView};
use crate::collision::{
    collision_len,    collision_at, lemma_collision_stable, read_collision, write_collision, Collision, CollisionView,
};
use crate::error::GeometryError;
use crate::math::{bounding_box_at, BoundingBox};
use crate::prim_object::{
    prim_object_at, read_prim_object, write_prim_object, ObjectPropertyFlags, PrimObject,
};
use crate::render_primitive::PrimPropertyFlags;

verus! {

broadcast use vstd::std_specs::vec::axiom_spec_len;

/// Geometry payload of one mesh object.
#[derive(Debug, Clone, PartialEq, Eq)]
pub struct PrimSubMesh {
    pub prim_object: PrimObject,
    pub num_vertices: u32,
    /// Regular indices followed by the cracked ones.
    pub indices: Vec<u16>,
    pub collision: Collision,
    pub num_uv_channels: u8,
    pub buffers: VertexBuffers,
    pub cloth_data: Option<ClothSimMesh>,
}

/// The contents of a [`PrimSubMesh`].
pub ghost struct PrimSubMeshView {
    pub prim_object: PrimObject,
    pub num_vertices: u32,
    pub indices: Seq<u16>,
    pub collision: CollisionView,
    pub num_uv_channels: u8,
    pub buffers: VertexBuffersView,
    pub cloth_data: Option<ClothSimMeshView>,
}

impl View for PrimSubMesh {
    type V = PrimSubMeshView;

    open spec fn view(&self) -> PrimSubMeshView {
        PrimSubMeshView {
            prim_object: self.prim_object,
            num_vertices: self.num_vertices,
            indices: self.indices@,
            collision: self.collision@,
            num_uv_channels: self.num_uv_channels,
            buffers: self.buffers@,
            cloth_data: match self.cloth_data {
                Some(c) => Some(c@),
                None => None,
            },
        }
    }
}

/// The vertex layout of a submesh with these counts and flags.
pub open spec fn layout_of(
    num_vertices: u32,
    num_uv_channels: u8,
    own: ObjectPropertyFlags,
    global: PrimPropertyFlags,
    mesh_properties: ObjectPropertyFlags,
) -> VertexLayout {
    VertexLayout {
        num_vertices,
        has_highres: mesh_properties.spec_has_highres_positions(),
        is_weighted: global.spec_is_weighted_object(),
        num_uv_channels,
        has_const_color: own.spec_has_constant_color(),
        has_global_const_color: mesh_properties.spec_has_constant_color(),
    }
}

fn make_layout(
    num_vertices: u32,
    num_uv_channels: u8,
    own: ObjectPropertyFlags,
    global: PrimPropertyFlags,
    mesh_properties: ObjectPropertyFlags,
) -> (r: VertexLayout)
    ensures
        r == layout_of(num_vertices, num_uv_channels, own, global, mesh_properties),
{
    VertexLayout {
        num_vertices,
        has_highres: mesh_properties.has_highres_positions(),
        is_weighted: global.is_weighted_object(),
        num_uv_channels,
        has_const_color: own.has_constant_color(),
        has_global_const_color: mesh_properties.has_constant_color(),
    }
}

impl PrimSubMesh {
    /// The vertex layout this submesh has inside a mesh with these flags.
    pub open spec fn layout(
        &self,
        global: PrimPropertyFlags,
        mesh_properties: ObjectPropertyFlags,
    ) -> VertexLayout {
        layout_of(
            self.num_vertices,
            self.num_uv_channels,
            self.prim_object.properties,
            global,
            mesh_properties,
        )
    }

    /// The submesh can be encoded so that it decodes to itself.
    pub open spec fn wf(
        &self,
        global: PrimPropertyFlags,
        mesh_properties: ObjectPropertyFlags,
        cloth_id: u8,
    ) -> bool {
        &&& self.prim_object.wf()
        &&& self.indices@.len() <= u32::MAX
        &&& self.collision.wf(global.spec_is_linked_object())
        &&& self.buffers.wf(self.layout(global, mesh_properties))
        &&& match self.cloth_data {
            Some(c) => c.wf(cloth_id, self.num_vertices),
            None => true,
        }
    }
}

/// The submesh whose header is stored at `p`.
#[verifier::opaque]
pub open spec fn submesh_at(
    b: Seq<u8>,
    p: int,
    global: PrimPropertyFlags,
    mesh_properties: ObjectPropertyFlags,
    cloth_id: u8,
) -> Result<PrimSubMeshView, GeometryError> {
    if !fits(b.len() as int, p, 76) {
        Err(GeometryError::Malformed(p as u64))
    } else {
        match prim_object_at(b, p) {
            Err(e) => Err(e),
            Ok(obj) => {
                let nv = u32_at(b, p + 44);
                let count = u32_at(b, p + 52) + u32_at(b, p + 56);
                let ip = u32_at(b, p + 60) as int;
                let uv = b[p + 72];
                if !fits(b.len() as int, ip, 2 * count) {
                    Err(GeometryError::Malformed(ip as u64))
                } else {
                    match collision_at(
                        b,
                        u32_at(b, p + 64) as int,
                        global.spec_is_linked_object(),
                    ) {
                        Err(e) => Err(e),
                        Ok(col) => match vertex_buffers_at(
                            b,
                            u32_at(b, p + 48) as int,
                            layout_of(nv, uv, obj.properties, global, mesh_properties),
                        ) {
                            Err(e) => Err(e),
                            Ok(vb) => {
                                let co = u32_at(b, p + 68);
                                let cloth = if co == 0 {
                                    Ok(None)
                                } else {
                                    match cloth_at(b, co as int, cloth_id, nv) {
                                        Err(e) => Err(e),
                                        Ok(c) => Ok(Some(c)),
                                    }
                                };
                                match cloth {
                                    Err(e) => Err(e),
                                    Ok(c) => Ok(
                                        PrimSubMeshView {
                                            prim_object: obj,
                                            num_vertices: nv,
                                            indices: u16s_at(b, ip, count as nat),
                                            collision: col,
                                            num_uv_channels: uv,
                                            buffers: vb,
                                            cloth_data: c,
                                        },
                                    ),
                                }
                            },
                        },
                    }
                }
            },
        }
    }
}

/// Every offset that the submesh header at `p` holds points at or after `lo`.
pub open spec fn submesh_reads_from(b: Seq<u8>, p: int, lo: int) -> bool {
    &&& lo <= p
    &&& lo <= u32_at(b, p + 48)
    &&& lo <= u32_at(b, p + 60)
    &&& lo <= u32_at(b, p + 64)
    &&& (u32_at(b, p + 68) == 0 || lo <= u32_at(b, p + 68))
}

/// The header at `p` and every region it points at start on a sixteen-byte boundary.
pub open spec fn submesh_aligned(b: Seq<u8>, p: int) -> bool {
    &&& p % 16 == 0
    &&& u32_at(b, p + 48) % 16 == 0
    &&& u32_at(b, p + 60) % 16 == 0
    &&& u32_at(b, p + 64) % 16 == 0
    &&& u32_at(b, p + 68) % 16 == 0
}

/// Decodes the submesh whose header is at `p`.
pub fn read_submesh(
    b: &Vec<u8>,
    p: usize,
    global: PrimPropertyFlags,
    mesh_properties: ObjectPropertyFlags,
    cloth_id: u8,
) -> (r: Result<PrimSubMesh, GeometryError>)
    ensures
        match r {
            Ok(x) => submesh_at(b@, p as int, global, mesh_properties, cloth_id) == Ok::<
                PrimSubMeshView,
                GeometryError,
            >(x@),
            Err(e) => submesh_at(b@, p as int, global, mesh_properties, cloth_id) == Err::<
                PrimSubMeshView,
                GeometryError,
            >(e),
        },
{
    proof {
        reveal(submesh_at);
    }
    check_fits(b, p, 76)?;
    let prim_object = read_prim_object(b, p)?;
    let num_vertices = read_u32(b, p + 44);
    let vertices_offset = read_u32(b, p + 48);
    let count = read_u32(b, p + 52) as u64 + read_u32(b, p + 56) as u64;
    let ip = read_u32(b, p + 60);
    let cp = read_u32(b, p + 64);
    let co = read_u32(b, p + 68);
    let num_uv_channels = read_u8(b, p + 72);
    if check_fits(b, ip as usize, 2 * count).is_err() {
        return Err(GeometryError::Malformed(ip as u64));
    }
    let indices = read_u16s(b, ip as usize, count as usize);
    let collision = read_collision(b, cp as usize, global.is_linked_object())?;
    let layout = make_layout(
        num_vertices,
        num_uv_channels,
        prim_object.properties,
        global,
        mesh_properties,
    );
    let buffers = parse_vertices(b, vertices_offset as usize, layout)?;
    let cloth_data = if co == 0 {
        None
    } else {
        Some(read_cloth(b, co as usize, cloth_id, num_vertices)?)
    };
    Ok(
        PrimSubMesh {
            prim_object,
            num_vertices,
            indices,
            collision,
            num_uv_channels,
            buffers,
            cloth_data,
        },
    )
}

/// Decoding the submesh at `p` reads the same in a buffer that agrees with
/// this one from `lo` on, when every offset it follows is at or after `lo`.
pub proof fn lemma_submesh_stable(
    a: Seq<u8>,
    b: Seq<u8>,
    lo: int,
    p: int,
    global: PrimPropertyFlags,
    mesh_properties: ObjectPropertyFlags,
    cloth_id: u8,
)
    requires
        agree_from(b, a, lo),
        0 <= lo,
        submesh_reads_from(a, p, lo),
        submesh_at(a, p, global, mesh_properties, cloth_id) is Ok,
    ensures
        submesh_at(b, p, global, mesh_properties, cloth_id) == submesh_at(
            a,
            p,
            global,
            mesh_properties,
            cloth_id,
        ),
        submesh_reads_from(b, p, lo),
        submesh_aligned(b, p) == submesh_aligned(a, p),
{
    reveal(submesh_at);
    let obj = prim_object_at(a, p)->Ok_0;
    let nv = u32_at(a, p + 44);
    let count = u32_at(a, p + 52) + u32_at(a, p + 56);
    let ip = u32_at(a, p + 60) as int;
    let uv = a[p + 72];
    lemma_u16s_stable(a, b, lo, ip, count as nat);
    lemma_collision_stable(a, b, lo, u32_at(a, p + 64) as int, global.spec_is_linked_object());
    lemma_vertex_buffers_stable(
        a,
        b,
        lo,
        u32_at(a, p + 48) as int,
        layout_of(nv, uv, obj.properties, global, mesh_properties),
    );
    if u32_at(a, p + 68) != 0 {
        lemma_cloth_stable(a, b, lo, u32_at(a, p + 68) as int, cloth_id, nv);
    }
}

/// Where the regions of a submesh were written.
pub struct SubMeshOffsets {
    pub index_offset: u32,
    pub vertex_offset: u32,
    pub collision_offset: u32,
    pub cloth_offset: u32,
}

/// The regions that `o` points at in `b` decode to those of `x`.
pub open spec fn regions_hold(
    b: Seq<u8>,
    o: SubMeshOffsets,
    x: PrimSubMesh,
    global: PrimPropertyFlags,
    mesh_properties: ObjectPropertyFlags,
    cloth_id: u8,
) -> bool {
    &&& fits(b.len() as int, o.index_offset as int, 2 * x.indices@.len() as int)
    &&& u16s_at(b, o.index_offset as int, x.indices@.len()) == x.indices@
    &&& collision_at(b, o.collision_offset as int, global.spec_is_linked_object()) == Ok::<
        CollisionView,
        GeometryError,
    >(x.collision@)
    &&& vertex_buffers_at(b, o.vertex_offset as int, x.layout(global, mesh_properties)) == Ok::<
        VertexBuffersView,
        GeometryError,
    >(x.buffers@)
    &&& match x.cloth_data {
        Some(c) => o.cloth_offset != 0 && cloth_at(b, o.cloth_offset as int, cloth_id, x.num_vertices)
            == Ok::<ClothSimMeshView, GeometryError>(c@),
        None => o.cloth_offset == 0,
    }
}

/// Every region that `o` records starts at or after `lo`.
pub open spec fn offsets_from(o: SubMeshOffsets, lo: int) -> bool {
    &&& lo <= o.index_offset
    &&& lo <= o.vertex_offset
    &&& lo <= o.collision_offset
    &&& (o.cloth_offset == 0 || lo <= o.cloth_offset)
}

/// The regions follow each other in write order and start before `end`: the
/// collision data first in a linked resource, after the vertices otherwise.
pub open spec fn regions_ordered(o: SubMeshOffsets, linked: bool, end: int) -> bool {
    if linked {
        o.collision_offset < o.index_offset <= o.vertex_offset <= end
    } else {
        o.index_offset <= o.vertex_offset <= o.collision_offset < end
    }
}

/// Number of bytes the regions of `x` take when written from a sixteen-byte
/// boundary: collision data, indices, vertices and cloth, each padded to sixteen.
pub open spec fn regions_len(x: PrimSubMesh) -> int {
    pad16(collision_len(x.collision)) + pad16(2 * x.indices@.len() as int) + pad16(
        vertex_bytes(x.buffers@).len() as int,
    ) + match x.cloth_data {
        Some(c) => pad16(cloth_len(c)),
        None => 0,
    }
}

/// Number of bytes a submesh takes when written from a sixteen-byte boundary:
/// its regions, its padded header and the pointer record.
#[verifier::opaque]
pub open spec fn submesh_len(x: PrimSubMesh) -> int {
    regions_len(x) + 96
}

pub proof fn lemma_submesh_len_nonneg(x: PrimSubMesh)
    ensures
        submesh_len(x) >= 96,
{
    reveal(submesh_len);
}

/// Every region that `o` records starts on a sixteen-byte boundary.
pub open spec fn offsets_aligned(o: SubMeshOffsets) -> bool {
    &&& o.index_offset % 16 == 0
    &&& o.vertex_offset % 16 == 0
    &&& o.collision_offset % 16 == 0
    &&& o.cloth_offset % 16 == 0
}

proof fn lemma_regions_stable(
    a: Seq<u8>,
    b: Seq<u8>,
    o: SubMeshOffsets,
    x: PrimSubMesh,
    global: PrimPropertyFlags,
    mesh_properties: ObjectPropertyFlags,
    cloth_id: u8,
)
    requires
        extends(b, a),
        regions_hold(a, o, x, global, mesh_properties, cloth_id),
    ensures
        regions_hold(b, o, x, global, mesh_properties, cloth_id),
{
    lemma_u16s_stable(a, b, 0, o.index_offset as int, x.indices@.len());
    lemma_collision_stable(a, b, 0, o.collision_offset as int, global.spec_is_linked_object());
    lemma_vertex_buffers_stable(a, b, 0, o.vertex_offset as int, x.layout(global, mesh_properties));
    if x.cloth_data is Some {
        lemma_cloth_stable(a, b, 0, o.cloth_offset as int, cloth_id, x.num_vertices);
    }
}

fn write_collision_region(buf: &mut Vec<u8>, x: &Collision, linked: bool) -> (r: Result<
    u32,
    GeometryError,
>)
    ensures
        extends(final(buf)@, old(buf)@),
        r is Ok ==> final(buf)@.len() % 16 == 0,
        r is Err ==> r == Err::<u32, GeometryError>(GeometryError::TooLarge),
        r is Err ==> final(buf)@.len() > u32::MAX,
        r is Ok ==> r->Ok_0 == old(buf)@.len(),
        r is Ok ==> final(buf)@.len() > old(buf)@.len(),
        r is Err ==> final(buf)@ == old(buf)@,
        r is Ok && old(buf)@.len() % 16 == 0 ==> final(buf)@.len() == old(buf)@.len() + pad16(
            collision_len(*x),
        ),
        r is Ok && x.wf(linked) ==> collision_at(final(buf)@, r->Ok_0 as int, linked) == Ok::<
            CollisionView,
            GeometryError,
        >(x@),
{
    let offset = stream_position(buf)?;
    let ghost b0 = buf@;
    write_collision(buf, x, linked);
    let ghost b1 = buf@;
    align16(buf);
    proof {
        if b0.len() % 16 == 0 {
            lemma_pad16_from(b0.len() as int, collision_len(*x));
        }
        crate::bytes::lemma_extends_trans(b0, b1, buf@);
        if x.wf(linked) {
            lemma_collision_stable(b1, buf@, 0, offset as int, linked);
        }
    }
    Ok(offset)
}

/// Appends the index buffer, vertex regions, collision and cloth of `x`, each
/// padded to sixteen bytes, and returns where each one starts.
#[verifier::rlimit(60)]
pub fn write_submesh_regions(
    buf: &mut Vec<u8>,
    x: &PrimSubMesh,
    global: PrimPropertyFlags,
    mesh_properties: ObjectPropertyFlags,
    cloth_id: u8,
) -> (r: Result<SubMeshOffsets, GeometryError>)
    ensures
        extends(final(buf)@, old(buf)@),
        r is Ok ==> final(buf)@.len() % 16 == 0,
        r is Err ==> r == Err::<SubMeshOffsets, GeometryError>(GeometryError::TooLarge),
        r is Err ==> final(buf)@.len() > u32::MAX,
        r is Ok ==> offsets_from(r->Ok_0, old(buf)@.len() as int),
        r is Ok ==> regions_ordered(r->Ok_0, global.spec_is_linked_object(), final(buf)@.len() as int),
        r is Ok && old(buf)@.len() > 0 ==> (r->Ok_0.cloth_offset == 0 <==> x.cloth_data is None),
        r is Ok && old(buf)@.len() % 16 == 0 ==> offsets_aligned(r->Ok_0),
        old(buf)@.len() % 16 == 0 ==> final(buf)@.len() <= old(buf)@.len() + regions_len(*x),
        r is Ok && old(buf)@.len() % 16 == 0 ==> final(buf)@.len() == old(buf)@.len() + regions_len(
            *x,
        ),
        r is Ok && x.wf(global, mesh_properties, cloth_id) && old(buf)@.len() > 0 ==> regions_hold(
            final(buf)@,
            r->Ok_0,
            *x,
            global,
            mesh_properties,
            cloth_id,
        ),
{
    let ghost b0 = buf@;
    let linked = global.is_linked_object();
    let mut collision_offset: u32 = 0;
    if linked {
        collision_offset = write_collision_region(buf, &x.collision, true)?;
    }
    let ghost b1 = buf@;
    let index_offset = stream_position(buf)?;
    write_u16s(buf, &x.indices);
    let ghost b1a = buf@;
    align16(buf);
    proof {
        if b1.len() % 16 == 0 {
            lemma_pad16_from(b1.len() as int, 2 * x.indices@.len() as int);
        }
        crate::bytes::lemma_extends_trans(b0, b1, b1a);
        crate::bytes::lemma_extends_trans(b0, b1a, buf@);
        lemma_u16s_stable(b1a, buf@, 0, index_offset as int, x.indices@.len());
    }
    let ghost b2 = buf@;
    let vertex_offset = stream_position(buf)?;
    let layout = make_layout(
        x.num_vertices,
        x.num_uv_channels,
        x.prim_object.properties,
        global,
        mesh_properties,
    );
    write_vertex_buffers(buf, &x.buffers, layout);
    let ghost b2a = buf@;
    align16(buf);
    proof {
        if b2.len() % 16 == 0 {
            lemma_pad16_from(b2.len() as int, vertex_bytes(x.buffers@).len() as int);
        }
        crate::bytes::lemma_extends_trans(b2, b2a, buf@);
        crate::bytes::lemma_extends_trans(b0, b2, buf@);
        if x.buffers.wf(layout) {
            lemma_vertex_buffers_stable(b2a, buf@, 0, vertex_offset as int, layout);
        }
    }
    let ghost b3 = buf@;
    if !linked {
        collision_offset = write_collision_region(buf, &x.collision, false)?;
    }
    let ghost b4 = buf@;
    let cloth_position = stream_position(buf)?;
    match &x.cloth_data {
        Some(c) => {
            write_cloth(buf, c, cloth_id, x.num_vertices);
            let ghost b4a = buf@;
            align16(buf);
            proof {
                if b4.len() % 16 == 0 {
                    lemma_pad16_from(b4.len() as int, cloth_len(*c));
                }
                crate::bytes::lemma_extends_trans(b4, b4a, buf@);
                if c.wf(cloth_id, x.num_vertices) {
                    lemma_cloth_stable(b4a, buf@, 0, cloth_position as int, cloth_id, x.num_vertices);
                }
            }
        },
        None => {},
    }
    let cloth_offset: u32 = if x.cloth_data.is_some() {
        cloth_position
    } else {
        0
    };
    let o = SubMeshOffsets { index_offset, vertex_offset, collision_offset, cloth_offset };
    proof {
        let f = buf@;
        crate::bytes::lemma_extends_trans(b0, b3, b4);
        crate::bytes::lemma_extends_trans(b0, b4, f);
        crate::bytes::lemma_extends_trans(b2, b3, b4);
        crate::bytes::lemma_extends_trans(b2, b4, f);
        crate::bytes::lemma_extends_trans(b1, b2, f);
        crate::bytes::lemma_extends_trans(b3, b4, f);
        if x.wf(global, mesh_properties, cloth_id) && b0.len() > 0 {
            lemma_u16s_stable(b2, f, 0, index_offset as int, x.indices@.len());
            lemma_vertex_buffers_stable(b3, f, 0, vertex_offset as int, layout);
            if linked {
                lemma_collision_stable(b1, f, 0, collision_offset as int, true);
            } else {
                lemma_collision_stable(b4, f, 0, collision_offset as int, false);
            }
        }
    }
    Ok(o)
}

/// Appends the 76-byte submesh header pointing at the regions in `o`, padded to sixteen bytes.
#[verifier::rlimit(60)]
pub fn write_submesh_header(
    buf: &mut Vec<u8>,
    x: &PrimSubMesh,
    bb: &BoundingBox,
    o: &SubMeshOffsets,
)
    ensures
        extends(final(buf)@, old(buf)@),
        final(buf)@.len() >= old(buf)@.len() + 76,
        final(buf)@.len() % 16 == 0,
        old(buf)@.len() % 16 == 0 ==> final(buf)@.len() == old(buf)@.len() + 80,
        header_holds(final(buf)@, old(buf)@.len() as int, *o, *x),
        bounding_box_at(final(buf)@, old(buf)@.len() as int + 20) == *bb,
{
    let ghost b0 = buf@;
    write_prim_object(buf, &x.prim_object, bb);
    let ghost b6 = buf@;
    write_u32(buf, x.num_vertices);
    let ghost b7 = buf@;
    write_u32(buf, o.vertex_offset);
    let ghost b8 = buf@;
    let index_count: u32 = (x.indices.len() as u64 % 0x1_0000_0000) as u32;
    write_u32(buf, index_count);
    let ghost b9 = buf@;
    write_u32(buf, 0);
    let ghost b10 = buf@;
    write_u32(buf, o.index_offset);
    let ghost b11 = buf@;
    write_u32(buf, o.collision_offset);
    let ghost b12 = buf@;
    write_u32(buf, o.cloth_offset);
    let ghost b13 = buf@;
    write_u32(buf, x.num_uv_channels as u32);
    let ghost b14 = buf@;
    align16(buf);
    proof {
        crate::bytes::lemma_extends_trans(b13, b14, buf@);
        crate::bytes::lemma_extends_trans(b12, b13, buf@);
        crate::bytes::lemma_extends_trans(b11, b12, buf@);
        crate::bytes::lemma_extends_trans(b10, b11, buf@);
        crate::bytes::lemma_extends_trans(b9, b10, buf@);
        crate::bytes::lemma_extends_trans(b8, b9, buf@);
        crate::bytes::lemma_extends_trans(b7, b8, buf@);
        crate::bytes::lemma_extends_trans(b6, b7, buf@);
        crate::bytes::lemma_extends_trans(b0, b6, buf@);
        let f = buf@;
        let h = b0.len() as int;
        assert(f[h + 72] == x.num_uv_channels) by {
            assert(u32_at(b14, h + 72) == x.num_uv_channels as u32);
        }
    }
}

/// The header fields of a submesh record written at `h`.
pub open spec fn header_holds(b: Seq<u8>, h: int, o: SubMeshOffsets, x: PrimSubMesh) -> bool {
    &&& fits(b.len() as int, h, 76)
    &&& (x.prim_object.wf() ==> prim_object_at(b, h) == Ok::<PrimObject, GeometryError>(
        x.prim_object,
    ))
    &&& u32_at(b, h + 44) == x.num_vertices
    &&& u32_at(b, h + 48) == o.vertex_offset
    &&& u32_at(b, h + 52) == (x.indices@.len() % 0x1_0000_0000) as u32
    &&& u32_at(b, h + 56) == 0
    &&& u32_at(b, h + 60) == o.index_offset
    &&& u32_at(b, h + 64) == o.collision_offset
    &&& u32_at(b, h + 68) == o.cloth_offset
    &&& b[h + 72] == x.num_uv_channels
}

proof fn lemma_header_stable(a: Seq<u8>, b: Seq<u8>, h: int)
    requires
        extends(b, a),
        0 <= h,
        h + 76 <= a.len(),
    ensures
        forall|o: SubMeshOffsets, x: PrimSubMesh| header_holds(a, h, o, x) ==> header_holds(b, h, o, x),
        prim_object_at(b, h) == prim_object_at(a, h),
{
}

proof fn lemma_submesh_decodes(
    f: Seq<u8>,
    h: int,
    o: SubMeshOffsets,
    x: PrimSubMesh,
    global: PrimPropertyFlags,
    mesh_properties: ObjectPropertyFlags,
    cloth_id: u8,
)
    requires
        0 <= h,
        header_holds(f, h, o, x),
        regions_hold(f, o, x, global, mesh_properties, cloth_id),
        x.wf(global, mesh_properties, cloth_id),
    ensures
        submesh_at(f, h, global, mesh_properties, cloth_id) == Ok::<PrimSubMeshView, GeometryError>(
            x@,
        ),
{
    reveal(submesh_at);
    assert((x.indices@.len() % 0x1_0000_0000) as u32 == x.indices@.len());
}

/// Appends the submesh payloads, its header and a sixteen-byte pointer record
/// to the header, each sixteen-byte aligned; returns where the pointer record
/// starts. Collision data comes first in a linked resource, after the vertices otherwise.
#[verifier::rlimit(60)]
pub fn write_submesh(
    buf: &mut Vec<u8>,
    x: &PrimSubMesh,
    bb: &BoundingBox,
    global: PrimPropertyFlags,
    mesh_properties: ObjectPropertyFlags,
    cloth_id: u8,
) -> (r: Result<u32, GeometryError>)
    ensures
        extends(final(buf)@, old(buf)@),
        r is Err ==> r == Err::<u32, GeometryError>(GeometryError::TooLarge),
        r is Err ==> final(buf)@.len() > u32::MAX,
        old(buf)@.len() % 16 == 0 ==> final(buf)@.len() <= old(buf)@.len() + submesh_len(*x),
        r is Ok && old(buf)@.len() % 16 == 0 ==> final(buf)@.len() == old(buf)@.len() + submesh_len(
            *x,
        ),
        r is Ok ==> {
            let t = r->Ok_0 as int;
            let h = u32_at(final(buf)@, t) as int;
            &&& old(buf)@.len() <= h
            &&& h + 76 <= t
            &&& bounding_box_at(final(buf)@, h + 20) == *bb
            &&& t + 16 == final(buf)@.len()
            &&& u32_at(final(buf)@, t + 4) == 0
            &&& u64_at(final(buf)@, t + 8) == 0
            &&& u32_at(final(buf)@, h + 52) == (x.indices@.len() % 0x1_0000_0000) as u32
            &&& u32_at(final(buf)@, h + 56) == 0
            &&& (old(buf)@.len() > 0 ==> (u32_at(final(buf)@, h + 68) == 0 <==> x.cloth_data is None))
            &&& if global.spec_is_linked_object() {
                u32_at(final(buf)@, h + 64) < u32_at(final(buf)@, h + 60) <= u32_at(final(buf)@, h + 48)
                    <= h
            } else {
                u32_at(final(buf)@, h + 60) <= u32_at(final(buf)@, h + 48) <= u32_at(
                    final(buf)@,
                    h + 64,
                ) < h
            }
            &&& submesh_reads_from(final(buf)@, h, old(buf)@.len() as int)
            &&& (old(buf)@.len() % 16 == 0 ==> t % 16 == 0 && submesh_aligned(final(buf)@, h))
            &&& (x.wf(global, mesh_properties, cloth_id) && old(buf)@.len() > 0) ==> submesh_at(
                final(buf)@,
                h,
                global,
                mesh_properties,
                cloth_id,
            ) == Ok::<PrimSubMeshView, GeometryError>(x@)
        },
{
    proof {
        reveal(submesh_len);
    }
    let ghost b0 = buf@;
    let o = write_submesh_regions(buf, x, global, mesh_properties, cloth_id)?;
    let ghost b1 = buf@;
    let header_offset = stream_position(buf)?;
    write_submesh_header(buf, x, bb, &o);
    let ghost b2 = buf@;
    let table = stream_position(buf)?;
    write_u32(buf, header_offset);
    let ghost b3 = buf@;
    write_u32(buf, 0);
    let ghost b4 = buf@;
    write_u64(buf, 0);
    proof {
        let f = buf@;
        let h = header_offset as int;
        crate::bytes::lemma_extends_trans(b2, b3, b4);
        crate::bytes::lemma_extends_trans(b2, b4, f);
        crate::bytes::lemma_extends_trans(b3, b4, f);
        crate::bytes::lemma_extends_trans(b1, b2, f);
        crate::bytes::lemma_extends_trans(b0, b1, f);
        lemma_header_stable(b2, f, h);
        assert(u32_at(f, table as int) == header_offset);
        assert(u32_at(f, table + 4) == 0);
        assert(u64_at(f, table + 8) == 0);
        if x.wf(global, mesh_properties, cloth_id) && b0.len() > 0 {
            lemma_regions_stable(b1, f, o, *x, global, mesh_properties, cloth_id);
            lemma_submesh_decodes(f, h, o, *x, global, mesh_properties, cloth_id);
        }
    }
    Ok(table)
}

/// The offsets of a submesh header read inside `a` read the same in any extension of `a`.
pub proof fn lemma_submesh_reads_from_stable(a: Seq<u8>, b: Seq<u8>, p: int, lo: int)
    requires
        extends(b, a),
        0 <= p,
        p + 76 <= a.len(),
    ensures
        submesh_reads_from(b, p, lo) == submesh_reads_from(a, p, lo),
        submesh_aligned(b, p) == submesh_aligned(a, p),
{
}

} // verus!
