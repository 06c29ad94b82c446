//! A mesh: object record, quantisation parameters, cloth tag and a pointer to its submesh.
use vstd::prelude::*;

use crate::bytes::{
    agree_from, align16, check_fits, extends, fits, lemma_extends_trans, read_u32, read_u8,
    stream_position, u32_at, write_u32,
};
use crate::error::GeometryError;
use crate::math::{
    Color, bounding_box_at, read_vector4, vector4_at, write_vector4, BoundingBox,
    Vector4,
};
use crate::prim_object::{prim_object_at, read_prim_object, write_prim_object, PrimObject};
use crate::prim_sub_mesh::{
    lemma_submesh_stable, read_submesh, submesh_len, submesh_at, submesh_reads_from, submesh_aligned,
    write_submesh, PrimSubMesh, PrimSubMeshView,
};
use crate::render_primitive::PrimPropertyFlags;

verus! {

broadcast use vstd::std_specs::vec::axiom_spec_len;

/// Bit pattern of the float 1.0.
pub const ONE_BITS: u32 = 0x3F80_0000;

/// A mesh with its submesh.
#[derive(Debug, Clone, PartialEq, Eq)]
pub struct PrimMesh {
    pub prim_object: PrimObject,
    pub pos_scale: Vector4,
    pub pos_bias: Vector4,
    pub tex_scale_bias: Vector4,
    pub cloth_id: u8,
    pub sub_mesh: PrimSubMesh,
}

/// The contents of a [`PrimMesh`].
pub ghost struct PrimMeshView {
    pub prim_object: PrimObject,
    pub pos_scale: Vector4,
    pub pos_bias: Vector4,
    pub tex_scale_bias: Vector4,
    pub cloth_id: u8,
    pub sub_mesh: PrimSubMeshView,
}

impl View for PrimMesh {
    type V = PrimMeshView;

    open spec fn view(&self) -> PrimMeshView {
        PrimMeshView {
            prim_object: self.prim_object,
            pos_scale: self.pos_scale,
            pos_bias: self.pos_bias,
            tex_scale_bias: self.tex_scale_bias,
            cloth_id: self.cloth_id,
            sub_mesh: self.sub_mesh@,
        }
    }
}

/// The position scale that is written: all ones in a resource with raw float positions.
pub open spec fn written_scale(m: PrimMesh, global: PrimPropertyFlags) -> Vector4 {
    if global.spec_has_highres_positions() {
        Vector4 { x: ONE_BITS, y: ONE_BITS, z: ONE_BITS, w: ONE_BITS }
    } else {
        m.pos_scale
    }
}

/// The position bias that is written: all zeros in a resource with raw float positions.
pub open spec fn written_bias(m: PrimMesh, global: PrimPropertyFlags) -> Vector4 {
    if global.spec_has_highres_positions() {
        Vector4 { x: 0, y: 0, z: 0, w: 0 }
    } else {
        m.pos_bias
    }
}

impl PrimMesh {
    /// The mesh can be encoded so that it decodes to itself.
    pub open spec fn wf(&self, global: PrimPropertyFlags) -> bool {
        &&& self.prim_object.wf()
        &&& self.sub_mesh.wf(global, self.prim_object.properties, self.cloth_id)
        &&& written_scale(*self, global) == self.pos_scale
        &&& written_bias(*self, global) == self.pos_bias
    }
}

/// The mesh whose record is stored at `p`.
#[verifier::opaque]
pub open spec fn mesh_at(b: Seq<u8>, p: int, global: PrimPropertyFlags) -> Result<
    PrimMeshView,
    GeometryError,
> {
    if !fits(b.len() as int, p, 100) {
        Err(GeometryError::Malformed(p as u64))
    } else {
        match prim_object_at(b, p) {
            Err(e) => Err(e),
            Ok(obj) => {
                let table = u32_at(b, p + 44) as int;
                if !fits(b.len() as int, table, 4) {
                    Err(GeometryError::Malformed(table as u64))
                } else {
                    match submesh_at(b, u32_at(b, table) as int, global, obj.properties, b[p + 96]) {
                        Err(e) => Err(e),
                        Ok(sm) => Ok(
                            PrimMeshView {
                                prim_object: obj,
                                pos_scale: vector4_at(b, p + 48),
                                pos_bias: vector4_at(b, p + 64),
                                tex_scale_bias: vector4_at(b, p + 80),
                                cloth_id: b[p + 96],
                                sub_mesh: sm,
                            },
                        ),
                    }
                }
            },
        }
    }
}

/// Every offset that the mesh at `p` follows points at or after `lo`.
pub open spec fn mesh_reads_from(b: Seq<u8>, p: int, lo: int) -> bool {
    &&& lo <= p
    &&& lo <= u32_at(b, p + 44)
    &&& submesh_reads_from(b, u32_at(b, u32_at(b, p + 44) as int) as int, lo)
}

/// The mesh record at `p`, its pointer record and its submesh start on sixteen-byte boundaries.
pub open spec fn mesh_aligned(b: Seq<u8>, p: int) -> bool {
    &&& p % 16 == 0
    &&& u32_at(b, p + 44) % 16 == 0
    &&& submesh_aligned(b, u32_at(b, u32_at(b, p + 44) as int) as int)
}

/// Decodes the mesh whose record is at `p`.
pub fn read_mesh(b: &Vec<u8>, p: usize, global: PrimPropertyFlags) -> (r: Result<
    PrimMesh,
    GeometryError,
>)
    ensures
        match r {
            Ok(x) => mesh_at(b@, p as int, global) == Ok::<PrimMeshView, GeometryError>(x@),
            Err(e) => mesh_at(b@, p as int, global) == Err::<PrimMeshView, GeometryError>(e),
        },
{
    proof {
        reveal(mesh_at);
    }
    check_fits(b, p, 100)?;
    let prim_object = read_prim_object(b, p)?;
    let table = read_u32(b, p + 44);
    if check_fits(b, table as usize, 4).is_err() {
        return Err(GeometryError::Malformed(table as u64));
    }
    let cloth_id = read_u8(b, p + 96);
    let sub_mesh = read_submesh(
        b,
        read_u32(b, table as usize) as usize,
        global,
        prim_object.properties,
        cloth_id,
    )?;
    Ok(
        PrimMesh {
            prim_object,
            pos_scale: read_vector4(b, p + 48),
            pos_bias: read_vector4(b, p + 64),
            tex_scale_bias: read_vector4(b, p + 80),
            cloth_id,
            sub_mesh,
        },
    )
}

/// Decoding the mesh at `p` reads the same in a buffer that agrees with this
/// one from `lo` on, when every offset it follows is at or after `lo`.
pub proof fn lemma_mesh_stable(a: Seq<u8>, b: Seq<u8>, lo: int, p: int, global: PrimPropertyFlags)
    requires
        agree_from(b, a, lo),
        0 <= lo,
        mesh_reads_from(a, p, lo),
        mesh_at(a, p, global) is Ok,
    ensures
        mesh_at(b, p, global) == mesh_at(a, p, global),
        mesh_reads_from(b, p, lo),
        mesh_aligned(b, p) == mesh_aligned(a, p),
{
    reveal(mesh_at);
    let obj = prim_object_at(a, p)->Ok_0;
    let table = u32_at(a, p + 44) as int;
    lemma_submesh_stable(a, b, lo, u32_at(a, table) as int, global, obj.properties, a[p + 96]);
}

/// The fields of a mesh record written at `h` for `m`, with its submesh pointer record at `sub_ptr`.
pub open spec fn mesh_record_holds(
    b: Seq<u8>,
    h: int,
    m: PrimMesh,
    global: PrimPropertyFlags,
    sub_ptr: u32,
) -> bool {
    &&& fits(b.len() as int, h, 100)
    &&& (m.prim_object.wf() ==> prim_object_at(b, h) == Ok::<PrimObject, GeometryError>(
        m.prim_object,
    ))
    &&& u32_at(b, h + 44) == sub_ptr
    &&& vector4_at(b, h + 48) == written_scale(m, global)
    &&& vector4_at(b, h + 64) == written_bias(m, global)
    &&& vector4_at(b, h + 80) == m.tex_scale_bias
    &&& b[h + 96] == m.cloth_id
}

/// Stability of a written mesh record under extension of the buffer.
pub proof fn lemma_mesh_record_stable(
    a: Seq<u8>,
    b: Seq<u8>,
    h: int,
    m: PrimMesh,
    global: PrimPropertyFlags,
    sub_ptr: u32,
)
    requires
        extends(b, a),
        0 <= h,
        mesh_record_holds(a, h, m, global, sub_ptr),
    ensures
        mesh_record_holds(b, h, m, global, sub_ptr),
{
}

/// Appends the 100-byte mesh record of `m` with bounding box `bb`, pointing at
/// `sub_ptr`; a resource with raw float positions stores a unit scale and a zero bias.
pub fn write_mesh_record(
    buf: &mut Vec<u8>,
    m: &PrimMesh,
    global: PrimPropertyFlags,
    sub_ptr: u32,
    bb: &BoundingBox,
)
    ensures
        extends(final(buf)@, old(buf)@),
        final(buf)@.len() == old(buf)@.len() + 100,
        mesh_record_holds(final(buf)@, old(buf)@.len() as int, *m, global, sub_ptr),
        bounding_box_at(final(buf)@, old(buf)@.len() as int + 20) == *bb,
{
    let ghost b0 = buf@;
    write_prim_object(buf, &m.prim_object, bb);
    let ghost b1 = buf@;
    write_u32(buf, sub_ptr);
    let ghost b2 = buf@;
    if global.has_highres_positions() {
        write_vector4(buf, &Vector4 { x: ONE_BITS, y: ONE_BITS, z: ONE_BITS, w: ONE_BITS });
        let ghost c = buf@;
        write_vector4(buf, &Vector4 { x: 0, y: 0, z: 0, w: 0 });
        proof {
            lemma_extends_trans(b2, c, buf@);
        }
    } else {
        write_vector4(buf, &m.pos_scale);
        let ghost c = buf@;
        write_vector4(buf, &m.pos_bias);
        proof {
            lemma_extends_trans(b2, c, buf@);
        }
    }
    let ghost b3 = buf@;
    write_vector4(buf, &m.tex_scale_bias);
    let ghost b4 = buf@;
    write_u32(buf, m.cloth_id as u32);
    proof {
        let f = buf@;
        lemma_extends_trans(b3, b4, f);
        lemma_extends_trans(b2, b3, f);
        lemma_extends_trans(b1, b2, f);
        lemma_extends_trans(b0, b1, f);
        let h = b0.len() as int;
        assert(f[h + 96] == m.cloth_id) by {
            assert(u32_at(f, h + 96) == m.cloth_id as u32);
        }
    }
}

/// Appends the submesh of `m`, whose record gets the box `bb`, and returns
/// where its pointer record starts.
pub fn write_mesh_payload(
    buf: &mut Vec<u8>,
    m: &PrimMesh,
    global: PrimPropertyFlags,
    bb: &BoundingBox,
) -> (r: Result<u32, GeometryError>)
    ensures
        extends(final(buf)@, old(buf)@),
        r is Err ==> final(buf)@.len() > u32::MAX,
        r is Err ==> r == Err::<u32, GeometryError>(GeometryError::TooLarge),
        old(buf)@.len() % 16 == 0 ==> final(buf)@.len() <= old(buf)@.len() + submesh_len(m.sub_mesh),
        r is Ok && old(buf)@.len() % 16 == 0 ==> final(buf)@.len() == old(buf)@.len() + submesh_len(
            m.sub_mesh,
        ),
        r is Ok ==> {
            let t = r->Ok_0 as int;
            let f = final(buf)@;
            &&& old(buf)@.len() <= t
            &&& t + 16 == f.len()
            &&& old(buf)@.len() <= u32_at(f, t)
            &&& u32_at(f, t) + 76 <= t
            &&& submesh_reads_from(f, u32_at(f, t) as int, old(buf)@.len() as int)
            &&& (old(buf)@.len() % 16 == 0 ==> t % 16 == 0 && submesh_aligned(f, u32_at(f, t) as int))
            &&& (m.wf(global) && old(buf)@.len() > 0) ==> submesh_at(
                f,
                u32_at(f, t) as int,
                global,
                m.prim_object.properties,
                m.cloth_id,
            ) == Ok::<PrimSubMeshView, GeometryError>(m.sub_mesh@)
        },
{
    write_submesh(buf, &m.sub_mesh, bb, global, m.prim_object.properties, m.cloth_id)
}

/// With its record at `h` and its submesh written before it, the mesh decodes to `m`.
pub proof fn lemma_mesh_decodes(f: Seq<u8>, h: int, m: PrimMesh, global: PrimPropertyFlags, sub_ptr: u32)
    requires
        0 <= h,
        mesh_record_holds(f, h, m, global, sub_ptr),
        fits(f.len() as int, sub_ptr as int, 4),
        submesh_at(f, u32_at(f, sub_ptr as int) as int, global, m.prim_object.properties, m.cloth_id)
            == Ok::<PrimSubMeshView, GeometryError>(m.sub_mesh@),
        m.wf(global),
    ensures
        mesh_at(f, h, global) == Ok::<PrimMeshView, GeometryError>(m@),
{
    reveal(mesh_at);
}

/// A mesh record written after the submesh pointer record `sub_ptr` decodes
/// to the mesh, and follows only offsets after the start `b0` of the writing.
pub proof fn lemma_mesh_written(
    cond: bool,
    b0: Seq<u8>,
    b1: Seq<u8>,
    f: Seq<u8>,
    h: int,
    m: PrimMesh,
    global: PrimPropertyFlags,
    sub_ptr: u32,
)
    requires
        extends(f, b1),
        extends(b1, b0),
        b1.len() <= h,
        mesh_record_holds(f, h, m, global, sub_ptr),
        b0.len() <= sub_ptr,
        sub_ptr + 16 <= b1.len(),
        b0.len() <= u32_at(b1, sub_ptr as int),
        u32_at(b1, sub_ptr as int) + 76 <= sub_ptr,
        submesh_reads_from(b1, u32_at(b1, sub_ptr as int) as int, b0.len() as int),
        b0.len() % 16 == 0 ==> h % 16 == 0 && sub_ptr % 16 == 0 && submesh_aligned(
            b1,
            u32_at(b1, sub_ptr as int) as int,
        ),
        cond ==> submesh_at(
            b1,
            u32_at(b1, sub_ptr as int) as int,
            global,
            m.prim_object.properties,
            m.cloth_id,
        ) == Ok::<PrimSubMeshView, GeometryError>(m.sub_mesh@),
    ensures
        mesh_reads_from(f, h, b0.len() as int),
        b0.len() % 16 == 0 ==> mesh_aligned(f, h),
        (cond && m.wf(global)) ==> mesh_at(f, h, global) == Ok::<PrimMeshView, GeometryError>(m@),
{
    let sp = u32_at(b1, sub_ptr as int) as int;
    assert(u32_at(f, sub_ptr as int) == u32_at(b1, sub_ptr as int));
    crate::prim_sub_mesh::lemma_submesh_reads_from_stable(b1, f, sp, b0.len() as int);
    if cond && m.wf(global) {
        lemma_submesh_stable(b1, f, 0, sp, global, m.prim_object.properties, m.cloth_id);
        lemma_mesh_decodes(f, h, m, global, sub_ptr);
    }
}

/// Appends the record of a plain mesh, padded to sixteen bytes, and returns where it starts.
fn write_mesh_tail(
    buf: &mut Vec<u8>,
    m: &PrimMesh,
    global: PrimPropertyFlags,
    sub_ptr: u32,
    bb: &BoundingBox,
) -> (r: Result<u32, GeometryError>)
    ensures
        extends(final(buf)@, old(buf)@),
        r is Err ==> final(buf)@ == old(buf)@ && old(buf)@.len() > u32::MAX && r == Err::<
            u32,
            GeometryError,
        >(GeometryError::TooLarge),
        r is Ok ==> {
            let f = final(buf)@;
            let h = old(buf)@.len() as int;
            &&& r->Ok_0 == h
            &&& f.len() % 16 == 0
            &&& h + 100 <= f.len()
            &&& mesh_record_holds(f, h, *m, global, sub_ptr)
            &&& bounding_box_at(f, h + 20) == *bb
            &&& (h % 16 == 0 ==> f.len() == h + 112)
        },
{
    let h = stream_position(buf)?;
    let ghost b1 = buf@;
    write_mesh_record(buf, m, global, sub_ptr, bb);
    let ghost b2 = buf@;
    align16(buf);
    proof {
        lemma_extends_trans(b1, b2, buf@);
        lemma_mesh_record_stable(b2, buf@, h as int, *m, global, sub_ptr);
        assert(bounding_box_at(buf@, h + 20) == *bb) by {
            assert(bounding_box_at(b2, h + 20) == *bb);
        }
        if b1.len() % 16 == 0 {
            crate::bytes::lemma_pad16_from(b1.len() as int, 100);
        }
    }
    Ok(h)
}

/// Number of bytes a plain mesh takes when written from a sixteen-byte
/// boundary: its submesh, then its record padded to sixteen.
pub open spec fn plain_len(m: PrimMesh) -> int {
    submesh_len(m.sub_mesh) + 112
}

/// Appends a plain mesh: submesh first, then the mesh record with box `bb`
/// padded to sixteen bytes; returns where the record starts.
#[verifier::rlimit(60)]
pub fn write_plain_mesh(
    buf: &mut Vec<u8>,
    m: &PrimMesh,
    global: PrimPropertyFlags,
    bb: &BoundingBox,
) -> (r: Result<u32, GeometryError>)
    ensures
        extends(final(buf)@, old(buf)@),
        r is Err ==> final(buf)@.len() > u32::MAX,
        r is Err ==> r == Err::<u32, GeometryError>(GeometryError::TooLarge),
        old(buf)@.len() % 16 == 0 ==> final(buf)@.len() <= old(buf)@.len() + plain_len(*m),
        r is Ok && old(buf)@.len() % 16 == 0 ==> final(buf)@.len() == old(buf)@.len() + plain_len(*m),
        r is Ok ==> {
            let h = r->Ok_0 as int;
            let f = final(buf)@;
            &&& old(buf)@.len() <= h
            &&& h + 44 <= f.len()
            &&& bounding_box_at(f, h + 20) == *bb
            &&& f.len() % 16 == 0
            &&& mesh_reads_from(f, h, old(buf)@.len() as int)
            &&& (old(buf)@.len() % 16 == 0 ==> mesh_aligned(f, h))
            &&& (m.wf(global) && old(buf)@.len() > 0) ==> mesh_at(f, h, global) == Ok::<
                PrimMeshView,
                GeometryError,
            >(m@)
        },
{
    let ghost b0 = buf@;
    let sub_ptr = write_mesh_payload(buf, m, global, bb)?;
    let ghost b1 = buf@;
    let h = write_mesh_tail(buf, m, global, sub_ptr, bb)?;
    proof {
        lemma_extends_trans(b0, b1, buf@);
        lemma_mesh_written(m.wf(global) && b0.len() > 0, b0, b1, buf@, h as int, *m, global, sub_ptr);
    }
    Ok(h)
}


/// The colours held by a colour region, four bytes (RGBA) per vertex; a trailing partial record is ignored.
pub open spec fn colors_of(b: Seq<u8>) -> Seq<Color> {
    Seq::new(b.len() / 4, |i: int| Color { r: b[4 * i], g: b[4 * i + 1], b: b[4 * i + 2], a: b[4 * i + 3] })
}

/// The colours of a colour region.
pub fn decode_colors(data: &Vec<u8>) -> (r: Vec<Color>)
    ensures
        r@ == colors_of(data@),
{
    let n = data.len() / 4;
    let mut r: Vec<Color> = Vec::new();
    let mut i: usize = 0;
    while i < n
        invariant
            i <= n,
            n == data@.len() / 4,
            data@.len() <= usize::MAX,
            r@ == colors_of(data@).subrange(0, i as int),
        decreases n - i,
    {
        assert(4 * i + 3 < data@.len()) by (nonlinear_arith)
            requires i < n, n == data@.len() / 4;
        let q = 4 * i;
        r.push(Color { r: data[q], g: data[q + 1], b: data[q + 2], a: data[q + 3] });
        i = i + 1;
        assert(r@ =~= colors_of(data@).subrange(0, i as int));
    }
    assert(r@ =~= colors_of(data@));
    r
}

impl PrimMesh {
    /// The per-vertex colours, when the submesh has a colour region.
    pub fn get_colors(&self) -> (r: Option<Vec<Color>>)
        ensures
            r is Some <==> self.sub_mesh.buffers.colors is Some,
            r is Some ==> r->0@ == colors_of(self.sub_mesh.buffers.colors->0@),
    {
        match &self.sub_mesh.buffers.colors {
            Some(c) => Some(decode_colors(c)),
            None => None,
        }
    }

    /// The index buffer of the submesh.
    pub fn get_indices(&self) -> (r: &Vec<u16>)
        ensures
            r@ == self.sub_mesh.indices@,
    {
        &self.sub_mesh.indices
    }
}

} // verus!
