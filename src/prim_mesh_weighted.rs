//! Bone tables of weighted meshes: the sparse bone remap with its acceleration
//! entries, the bone index list and the optional copy-bone table.
use vstd::prelude::*;

use crate::bytes::{
    agree_from, lemma_pad16_from, pad16, align16, align_writer, check_fits, stream_position, extends, fits, lemma_extends_append, lemma_extends_trans,
    lemma_subrange_stable, lemma_u16s_stable, lemma_u32s_stable, pad_len, read_bytes, read_u16,
    read_u32, read_u16s, read_u32s, u16_at, u16s_at, u32_at, u32s_at, write_bytes, write_u16,
    write_u16s, write_u32, write_u32s, write_u8, zeros,
};
use crate::error::GeometryError;
use crate::prim_mesh::{
    lemma_mesh_record_stable, lemma_mesh_stable, lemma_mesh_written, mesh_aligned, mesh_at,
    mesh_reads_from, read_mesh, write_mesh_payload, write_mesh_record,
    PrimMesh, PrimMeshView,
};
use crate::math::BoundingBox;
use crate::prim_sub_mesh::submesh_len;
use crate::render_primitive::PrimPropertyFlags;

verus! {

broadcast use vstd::std_specs::vec::axiom_spec_len;

/// Marks a bone without an acceleration entry in the remap table.
pub const NO_ACCEL: u8 = 0xFF;

/// Number of entries of the weighted remap table.
pub const REMAP_LEN: usize = 255;

/// A contiguous stretch of the index buffer that one bone influences.
#[derive(Debug, Clone, Copy, PartialEq, Eq)]
pub struct BoneAccel {
    pub offset: u32,
    pub num_indices: u32,
}

/// The acceleration entry stored at `p` (eight bytes).
pub open spec fn accel_at(b: Seq<u8>, p: int) -> BoneAccel {
    BoneAccel { offset: u32_at(b, p), num_indices: u32_at(b, p + 4) }
}

/// Decodes `n` consecutive acceleration entries starting at `p`.
pub open spec fn accels_at(b: Seq<u8>, p: int, n: nat) -> Seq<BoneAccel> {
    Seq::new(n, |i: int| accel_at(b, p + 8 * i))
}

/// Reads `n` acceleration entries starting at `p`.
pub fn read_accels(b: &Vec<u8>, p: usize, n: usize) -> (r: Vec<BoneAccel>)
    requires
        p + 8 * n <= b.len(),
    ensures
        r@ == accels_at(b@, p as int, n as nat),
{
    let mut r: Vec<BoneAccel> = Vec::new();
    let mut i: usize = 0;
    while i < n
        invariant
            i <= n,
            p + 8 * n <= b.len(),
            r@ == accels_at(b@, p as int, i as nat),
        decreases n - i,
    {
        let q = p + 8 * i;
        r.push(BoneAccel { offset: read_u32(b, q), num_indices: read_u32(b, q + 4) });
        i = i + 1;
        assert(r@ =~= accels_at(b@, p as int, i as nat));
    }
    r
}

/// Appends the acceleration entries of `v`, eight bytes each.
pub fn write_accels(buf: &mut Vec<u8>, v: &Vec<BoneAccel>)
    ensures
        extends(final(buf)@, old(buf)@),
        final(buf)@.len() == old(buf)@.len() + 8 * v@.len(),
        accels_at(final(buf)@, old(buf)@.len() as int, v@.len()) == v@,
{
    let ghost start = buf@;
    let mut i: usize = 0;
    while i < v.len()
        invariant
            i <= v@.len(),
            extends(buf@, start),
            buf@.len() == start.len() + 8 * i,
            forall|k: int| 0 <= k < i ==> accel_at(buf@, start.len() + 8 * k) == #[trigger] v@[k],
        decreases v@.len() - i,
    {
        let ghost b0 = buf@;
        write_u32(buf, v[i].offset);
        let ghost b1 = buf@;
        write_u32(buf, v[i].num_indices);
        proof {
            lemma_extends_trans(b0, b1, buf@);
            lemma_extends_trans(start, b0, buf@);
        }
        i = i + 1;
    }
    assert(accels_at(buf@, start.len() as int, v@.len()) =~= v@);
}

/// The weighted bone table: entry `b` of the remap is the acceleration entry
/// of bone `b`, or [`NO_ACCEL`].
#[derive(Debug, Clone, PartialEq, Eq)]
pub struct BoneInfo {
    pub bone_remap: Vec<u8>,
    pub accel_entries: Vec<BoneAccel>,
}

/// The contents of a weighted [`BoneInfo`].
pub ghost struct BoneInfoView {
    pub bone_remap: Seq<u8>,
    pub accel_entries: Seq<BoneAccel>,
}

impl View for BoneInfo {
    type V = BoneInfoView;

    open spec fn view(&self) -> BoneInfoView {
        BoneInfoView { bone_remap: self.bone_remap@, accel_entries: self.accel_entries@ }
    }
}

/// The index-buffer range `[start, end)` that bone `bone` selects, if it has an entry.
pub open spec fn bone_range(info: BoneInfoView, bone: int) -> Option<(int, int)> {
    if 0 <= bone < info.bone_remap.len() && info.bone_remap[bone] != NO_ACCEL
        && info.bone_remap[bone] < info.accel_entries.len() {
        let e = info.accel_entries[info.bone_remap[bone] as int];
        Some((e.offset as int, e.offset + e.num_indices))
    } else {
        None
    }
}

/// Every remap entry other than [`NO_ACCEL`] names an existing acceleration
/// entry, and that entry lies inside an index buffer of `num_indices` indices.
pub open spec fn accel_coverage(info: BoneInfoView, num_indices: int) -> bool {
    forall|bone: int|
        0 <= bone < info.bone_remap.len() && #[trigger] info.bone_remap[bone] != NO_ACCEL ==> {
            &&& info.bone_remap[bone] < info.accel_entries.len()
            &&& info.accel_entries[info.bone_remap[bone] as int].offset
                + info.accel_entries[info.bone_remap[bone] as int].num_indices <= num_indices
        }
}

impl BoneInfo {
    /// The table can be encoded so that it decodes to itself.
    pub open spec fn wf(&self) -> bool {
        &&& self.bone_remap@.len() == REMAP_LEN
        &&& self.accel_entries@.len() <= u16::MAX
        &&& forall|b: int|
            0 <= b < REMAP_LEN ==> #[trigger] self.bone_remap@[b] == NO_ACCEL
                || self.bone_remap@[b] < self.accel_entries@.len()
    }

    /// The acceleration entry of bone `bone`, if the remap names one that exists.
    pub fn accel_for_bone(&self, bone: usize) -> (r: Option<BoneAccel>)
        ensures
            r is Some <==> bone_range(self@, bone as int) is Some,
            r is Some ==> bone_range(self@, bone as int) == Some::<(int, int)>(
                (r->0.offset as int, r->0.offset + r->0.num_indices),
            ),
            r is Some ==> r->0 == self@.accel_entries[self@.bone_remap[bone as int] as int],
    {
        if bone >= self.bone_remap.len() {
            return None;
        }
        let slot = self.bone_remap[bone];
        if slot == NO_ACCEL || slot as usize >= self.accel_entries.len() {
            None
        } else {
            Some(self.accel_entries[slot as usize])
        }
    }

    /// Whether every bone's acceleration entry exists and lies inside an index
    /// buffer of `num_indices` indices.
    pub fn check_coverage(&self, num_indices: usize) -> (r: bool)
        ensures
            r == accel_coverage(self@, num_indices as int),
    {
        let mut i: usize = 0;
        while i < self.bone_remap.len()
            invariant
                i <= self.bone_remap@.len(),
                forall|bone: int|
                    0 <= bone < i && #[trigger] self.bone_remap@[bone] != NO_ACCEL ==> {
                        &&& self.bone_remap@[bone] < self.accel_entries@.len()
                        &&& self.accel_entries@[self.bone_remap@[bone] as int].offset
                            + self.accel_entries@[self.bone_remap@[bone] as int].num_indices
                            <= num_indices
                    },
            decreases self.bone_remap@.len() - i,
        {
            let slot = self.bone_remap[i];
            if slot != NO_ACCEL {
                if slot as usize >= self.accel_entries.len() {
                    assert(self@.bone_remap[i as int] != NO_ACCEL);
                    return false;
                }
                let e = self.accel_entries[slot as usize];
                if e.offset as u64 + e.num_indices as u64 > num_indices as u64 {
                    assert(self@.bone_remap[i as int] != NO_ACCEL);
                    return false;
                }
            }
            i = i + 1;
        }
        true
    }
}

/// Under coverage, every bone with a remap entry other than [`NO_ACCEL`] selects
/// an acceleration entry whose index range lies inside the index buffer.
pub proof fn lemma_bone_accel_coverage(info: BoneInfoView, num_indices: int, bone: int)
    requires
        accel_coverage(info, num_indices),
        0 <= bone < info.bone_remap.len(),
        info.bone_remap[bone] != NO_ACCEL,
    ensures
        bone_range(info, bone) matches Some((start, end)) && 0 <= start <= end <= num_indices,
{
}

/// The weighted bone table stored at `p`.
pub open spec fn bone_info_at(b: Seq<u8>, p: int) -> Result<BoneInfoView, GeometryError> {
    if !fits(b.len() as int, p, 260) || !fits(b.len() as int, p + 260, 8 * u16_at(b, p + 2)) {
        Err(GeometryError::Malformed(p as u64))
    } else {
        Ok(
            BoneInfoView {
                bone_remap: b.subrange(p + 4, p + 259),
                accel_entries: accels_at(b, p + 260, u16_at(b, p + 2) as nat),
            },
        )
    }
}

/// Decodes the weighted bone table at `p`.
pub fn read_bone_info(b: &Vec<u8>, p: usize) -> (r: Result<BoneInfo, GeometryError>)
    ensures
        match r {
            Ok(x) => bone_info_at(b@, p as int) == Ok::<BoneInfoView, GeometryError>(x@),
            Err(e) => bone_info_at(b@, p as int) == Err::<BoneInfoView, GeometryError>(e),
        },
{
    check_fits(b, p, 260)?;
    let n = read_u16(b, p + 2);
    if check_fits(b, p + 260, 8 * n as u64).is_err() {
        return Err(GeometryError::Malformed(p as u64));
    }
    let bone_remap = read_bytes(b, p + 4, REMAP_LEN);
    let accel_entries = read_accels(b, p + 260, n as usize);
    Ok(BoneInfo { bone_remap, accel_entries })
}

/// The remap table as it is written: 255 entries, each the held entry when
/// it names an existing acceleration entry, [`NO_ACCEL`] otherwise.
pub open spec fn rebuilt_remap(info: BoneInfoView) -> Seq<u8> {
    Seq::new(
        REMAP_LEN as nat,
        |b: int|
            if b < info.bone_remap.len() && info.bone_remap[b] != NO_ACCEL && info.bone_remap[b]
                < info.accel_entries.len() {
                info.bone_remap[b]
            } else {
                NO_ACCEL
            },
    )
}

fn rebuild_remap(x: &BoneInfo) -> (r: Vec<u8>)
    ensures
        r@ == rebuilt_remap(x@),
{
    let n = x.accel_entries.len();
    let mut r: Vec<u8> = Vec::new();
    let mut i: usize = 0;
    while i < REMAP_LEN
        invariant
            i <= REMAP_LEN,
            n == x.accel_entries@.len(),
            r@ == rebuilt_remap(x@).subrange(0, i as int),
        decreases REMAP_LEN - i,
    {
        let v = if i < x.bone_remap.len() && x.bone_remap[i] != NO_ACCEL && (x.bone_remap[i] as usize)
            < n {
            x.bone_remap[i]
        } else {
            NO_ACCEL
        };
        r.push(v);
        i = i + 1;
        assert(r@ =~= rebuilt_remap(x@).subrange(0, i as int));
    }
    assert(r@ =~= rebuilt_remap(x@));
    r
}

/// Appends the weighted bone table with its remap rebuilt from the entry list
/// and its sizes recomputed, then pads to sixteen bytes.
pub fn write_bone_info(buf: &mut Vec<u8>, x: &BoneInfo)
    ensures
        extends(final(buf)@, old(buf)@),
        final(buf)@.len() % 16 == 0,
        old(buf)@.len() % 16 == 0 ==> final(buf)@.len() == old(buf)@.len() + pad16(
            260 + 8 * x.accel_entries@.len() as int,
        ),
        forall|b: int|
            0 <= b < REMAP_LEN ==> #[trigger] rebuilt_remap(x@)[b] == NO_ACCEL || rebuilt_remap(
                x@,
            )[b] < x.accel_entries@.len(),
        x.accel_entries@.len() <= u16::MAX ==> bone_info_at(final(buf)@, old(buf)@.len() as int)
            == Ok::<BoneInfoView, GeometryError>(
            BoneInfoView { bone_remap: rebuilt_remap(x@), accel_entries: x.accel_entries@ },
        ),
        x.wf() ==> bone_info_at(final(buf)@, old(buf)@.len() as int) == Ok::<
            BoneInfoView,
            GeometryError,
        >(x@),
{
    let ghost start = buf@;
    let remap = rebuild_remap(x);
    let total = (260 + (x.accel_entries.len() as u64 % 0x2000) * 8) % 0x10000;
    write_u16(buf, total as u16);
    let ghost b1 = buf@;
    let count: u16 = #[verifier::truncate] (x.accel_entries.len() as u16);
    write_u16(buf, count);
    let ghost b2 = buf@;
    write_bytes(buf, &remap);
    let ghost b3 = buf@;
    write_u8(buf, 0);
    let ghost b4 = buf@;
    write_accels(buf, &x.accel_entries);
    let ghost b5 = buf@;
    align_writer(buf, 16);
    proof {
        if start.len() % 16 == 0 {
            lemma_pad16_from(start.len() as int, 260 + 8 * x.accel_entries@.len() as int);
        }
        lemma_extends_append(b5, zeros(pad_len(b5.len() as int, 16) as nat));
        lemma_extends_trans(start, b1, b2);
        lemma_extends_trans(start, b2, b3);
        lemma_extends_trans(start, b3, b4);
        lemma_extends_trans(start, b4, b5);
        lemma_extends_trans(start, b5, buf@);
        lemma_extends_trans(b4, b5, buf@);
        lemma_extends_trans(b3, b4, buf@);
        lemma_extends_trans(b2, b3, buf@);
        lemma_extends_trans(b1, b2, buf@);
        if x.accel_entries@.len() <= u16::MAX {
            let l = start.len() as int;
            assert(u16_at(buf@, l + 2) == count);
            lemma_subrange_stable(b3, buf@, 0, l + 4, l + 259);
            assert(b3.subrange(l + 4, l + 259) =~= rebuilt_remap(x@));
            assert(accels_at(buf@, l + 260, count as nat) =~= accels_at(b5, l + 260, count as nat));
        }
        if x.wf() {
            assert(rebuilt_remap(x@) =~= x.bone_remap@);
        }
    }
}

/// Decoding the weighted bone table at `p` reads the same in a buffer that agrees with this one from `lo` on.
pub proof fn lemma_bone_info_stable(a: Seq<u8>, b: Seq<u8>, lo: int, p: int)
    requires
        agree_from(b, a, lo),
        0 <= lo <= p,
        bone_info_at(a, p) is Ok,
    ensures
        bone_info_at(b, p) == bone_info_at(a, p),
{
    lemma_subrange_stable(a, b, lo, p + 4, p + 259);
    let n = u16_at(a, p + 2) as nat;
    assert(accels_at(b, p + 260, n) =~= accels_at(a, p + 260, n));
}

/// The list of bones a weighted mesh references.
#[derive(Debug, Clone, PartialEq, Eq)]
pub struct BoneIndices {
    pub indices: Vec<u16>,
}

/// The bone index list stored at `p`: a `u32` count, then that many `u16`.
pub open spec fn bone_indices_at(b: Seq<u8>, p: int) -> Result<Seq<u16>, GeometryError> {
    if !fits(b.len() as int, p, 4) || !fits(b.len() as int, p + 4, 2 * u32_at(b, p)) {
        Err(GeometryError::Malformed(p as u64))
    } else {
        Ok(u16s_at(b, p + 4, u32_at(b, p) as nat))
    }
}

/// Decodes the bone index list at `p`.
pub fn read_bone_indices(b: &Vec<u8>, p: usize) -> (r: Result<BoneIndices, GeometryError>)
    ensures
        match r {
            Ok(x) => bone_indices_at(b@, p as int) == Ok::<Seq<u16>, GeometryError>(x.indices@),
            Err(e) => bone_indices_at(b@, p as int) == Err::<Seq<u16>, GeometryError>(e),
        },
{
    check_fits(b, p, 4)?;
    let n = read_u32(b, p);
    if check_fits(b, p + 4, 2 * n as u64).is_err() {
        return Err(GeometryError::Malformed(p as u64));
    }
    Ok(BoneIndices { indices: read_u16s(b, p + 4, n as usize) })
}

/// Appends the bone index list, then pads to sixteen bytes.
pub fn write_bone_indices(buf: &mut Vec<u8>, x: &BoneIndices)
    ensures
        extends(final(buf)@, old(buf)@),
        final(buf)@.len() % 16 == 0,
        old(buf)@.len() % 16 == 0 ==> final(buf)@.len() == old(buf)@.len() + pad16(
            4 + 2 * x.indices@.len() as int,
        ),
        x.indices@.len() <= u32::MAX ==> bone_indices_at(final(buf)@, old(buf)@.len() as int)
            == Ok::<Seq<u16>, GeometryError>(x.indices@),
{
    let ghost start = buf@;
    let count: u32 = #[verifier::truncate] (x.indices.len() as u32);
    write_u32(buf, count);
    let ghost b1 = buf@;
    write_u16s(buf, &x.indices);
    let ghost b2 = buf@;
    align_writer(buf, 16);
    proof {
        if start.len() % 16 == 0 {
            lemma_pad16_from(start.len() as int, 4 + 2 * x.indices@.len() as int);
        }
        lemma_extends_append(b2, zeros(pad_len(b2.len() as int, 16) as nat));
        lemma_extends_trans(start, b1, b2);
        lemma_extends_trans(start, b2, buf@);
        lemma_extends_trans(b1, b2, buf@);
        if x.indices@.len() <= u32::MAX {
            lemma_u16s_stable(b2, buf@, 0, b1.len() as int, count as nat);
        }
    }
}

/// Decoding the bone index list at `p` reads the same in a buffer that agrees with this one from `lo` on.
pub proof fn lemma_bone_indices_stable(a: Seq<u8>, b: Seq<u8>, lo: int, p: int)
    requires
        agree_from(b, a, lo),
        0 <= lo <= p,
        bone_indices_at(a, p) is Ok,
    ensures
        bone_indices_at(b, p) == bone_indices_at(a, p),
{
    lemma_u16s_stable(a, b, lo, p + 4, u32_at(a, p) as nat);
}

/// Bones copied from other bones: parallel lists of bone indices and offsets.
#[derive(Debug, Clone, PartialEq, Eq, Default)]
pub struct CopyBones {
    pub indices: Vec<u32>,
    pub offsets: Vec<u32>,
}

/// The contents of a [`CopyBones`].
pub ghost struct CopyBonesView {
    pub indices: Seq<u32>,
    pub offsets: Seq<u32>,
}

impl View for CopyBones {
    type V = CopyBonesView;

    open spec fn view(&self) -> CopyBonesView {
        CopyBonesView { indices: self.indices@, offsets: self.offsets@ }
    }
}

impl CopyBones {
    /// Number of copied bones.
    pub fn len(&self) -> (r: u32)
        ensures
            r == self.indices@.len() as u32,
    {
        #[verifier::truncate] (self.indices.len() as u32)
    }

    /// Both lists have one entry per copied bone, and their count fits its field.
    pub open spec fn wf(&self) -> bool {
        &&& self.indices@.len() == self.offsets@.len()
        &&& self.indices@.len() <= u32::MAX
    }
}

/// The copy-bone table of `n` bones stored at `p`.
pub open spec fn copy_bones_at(b: Seq<u8>, p: int, n: u32) -> Result<CopyBonesView, GeometryError> {
    if !fits(b.len() as int, p, 8 * n) {
        Err(GeometryError::Malformed(p as u64))
    } else {
        Ok(
            CopyBonesView {
                indices: u32s_at(b, p, n as nat),
                offsets: u32s_at(b, p + 4 * n, n as nat),
            },
        )
    }
}

/// Decodes the copy-bone table of `n` bones at `p`.
pub fn read_copy_bones(b: &Vec<u8>, p: usize, n: u32) -> (r: Result<CopyBones, GeometryError>)
    ensures
        match r {
            Ok(x) => copy_bones_at(b@, p as int, n) == Ok::<CopyBonesView, GeometryError>(x@),
            Err(e) => copy_bones_at(b@, p as int, n) == Err::<CopyBonesView, GeometryError>(e),
        },
{
    check_fits(b, p, 8 * n as u64)?;
    let indices = read_u32s(b, p, n as usize);
    let offsets = read_u32s(b, p + 4 * n as usize, n as usize);
    Ok(CopyBones { indices, offsets })
}

/// Appends the copy-bone table: all indices, then all offsets, then padding to sixteen bytes.
pub fn write_copy_bones(buf: &mut Vec<u8>, x: &CopyBones)
    ensures
        extends(final(buf)@, old(buf)@),
        final(buf)@.len() % 16 == 0,
        old(buf)@.len() % 16 == 0 ==> final(buf)@.len() == old(buf)@.len() + pad16(
            4 * x.indices@.len() as int + 4 * x.offsets@.len() as int,
        ),
        x.wf() ==> copy_bones_at(final(buf)@, old(buf)@.len() as int, x.indices@.len() as u32)
            == Ok::<CopyBonesView, GeometryError>(x@),
{
    let ghost start = buf@;
    write_u32s(buf, &x.indices);
    let ghost b1 = buf@;
    write_u32s(buf, &x.offsets);
    let ghost b2 = buf@;
    align_writer(buf, 16);
    proof {
        if start.len() % 16 == 0 {
            lemma_pad16_from(start.len() as int, 4 * x.indices@.len() as int + 4 * x.offsets@.len() as int);
        }
        lemma_extends_append(b2, zeros(pad_len(b2.len() as int, 16) as nat));
        lemma_extends_trans(start, b1, b2);
        lemma_extends_trans(start, b2, buf@);
        lemma_extends_trans(b1, b2, buf@);
        if x.wf() {
            let n = x.indices@.len();
            lemma_u32s_stable(b1, buf@, 0, start.len() as int, n);
            lemma_u32s_stable(b2, buf@, 0, b1.len() as int, n);
        }
    }
}

/// Decoding the copy-bone table at `p` reads the same in a buffer that agrees with this one from `lo` on.
pub proof fn lemma_copy_bones_stable(a: Seq<u8>, b: Seq<u8>, lo: int, p: int, n: u32)
    requires
        agree_from(b, a, lo),
        0 <= lo <= p,
        copy_bones_at(a, p, n) is Ok,
    ensures
        copy_bones_at(b, p, n) == copy_bones_at(a, p, n),
{
    lemma_u32s_stable(a, b, lo, p, n as nat);
    lemma_u32s_stable(a, b, lo, p + 4 * n, n as nat);
}

/// A weighted mesh: a mesh with its bone tables.
#[derive(Debug, Clone, PartialEq, Eq)]
pub struct PrimMeshWeighted {
    pub prim_mesh: PrimMesh,
    pub copy_bones: Option<CopyBones>,
    pub bone_indices: BoneIndices,
    pub bone_info: BoneInfo,
}

/// The contents of a [`PrimMeshWeighted`].
pub ghost struct PrimMeshWeightedView {
    pub prim_mesh: PrimMeshView,
    pub copy_bones: Option<CopyBonesView>,
    pub bone_indices: Seq<u16>,
    pub bone_info: BoneInfoView,
}

impl View for PrimMeshWeighted {
    type V = PrimMeshWeightedView;

    open spec fn view(&self) -> PrimMeshWeightedView {
        PrimMeshWeightedView {
            prim_mesh: self.prim_mesh@,
            copy_bones: match self.copy_bones {
                Some(c) => Some(c@),
                None => None,
            },
            bone_indices: self.bone_indices.indices@,
            bone_info: self.bone_info@,
        }
    }
}

impl PrimMeshWeighted {
    /// The mesh can be encoded so that it decodes to itself.
    pub open spec fn wf(&self, global: PrimPropertyFlags) -> bool {
        &&& self.prim_mesh.wf(global)
        &&& self.bone_info.wf()
        &&& self.bone_indices.indices@.len() <= u32::MAX
        &&& match self.copy_bones {
            Some(c) => c.wf(),
            None => true,
        }
    }

    /// The indices that bone `bone` influences: the slice of the index buffer
    /// that its acceleration entry selects, if it has one inside the buffer.
    pub fn get_indices_for_bone(&self, bone: usize) -> (r: Option<Vec<u16>>)
        ensures
            r is Some <==> (bone_range(self.bone_info@, bone as int) matches Some((start, end))
                && end <= self.prim_mesh.sub_mesh.indices@.len()),
            forall|start: int, end: int|
                bone_range(self.bone_info@, bone as int) == Some((start, end)) && r is Some ==> r->0@
                    == self.prim_mesh.sub_mesh.indices@.subrange(start, end),
    {
        let e = match self.bone_info.accel_for_bone(bone) {
            Some(e) => e,
            None => return None,
        };
        let indices = &self.prim_mesh.sub_mesh.indices;
        if e.offset as u64 + e.num_indices as u64 > indices.len() as u64 {
            return None;
        }
        let start = e.offset as usize;
        let end = start + e.num_indices as usize;
        let mut out: Vec<u16> = Vec::new();
        let mut i: usize = start;
        while i < end
            invariant
                start <= i <= end,
                end <= indices@.len(),
                out@ == indices@.subrange(start as int, i as int),
            decreases end - i,
        {
            out.push(indices[i]);
            i = i + 1;
            assert(out@ =~= indices@.subrange(start as int, i as int));
        }
        Some(out)
    }
}

/// The weighted mesh whose record is stored at `p`.
#[verifier::opaque]
pub open spec fn weighted_mesh_at(b: Seq<u8>, p: int, global: PrimPropertyFlags) -> Result<
    PrimMeshWeightedView,
    GeometryError,
> {
    match mesh_at(b, p, global) {
        Err(e) => Err(e),
        Ok(m) => if !fits(b.len() as int, p, 116) {
            Err(GeometryError::Malformed(p as u64))
        } else {
            let cb = u32_at(b, p + 104);
            let copy = if cb == 0 {
                Ok(None)
            } else {
                match copy_bones_at(b, cb as int, u32_at(b, p + 100)) {
                    Err(e) => Err(e),
                    Ok(c) => Ok(Some(c)),
                }
            };
            match copy {
                Err(e) => Err(e),
                Ok(c) => match bone_indices_at(b, u32_at(b, p + 108) as int) {
                    Err(e) => Err(e),
                    Ok(idx) => {
                        let info = u32_at(b, p + 112);
                        if info == 0 {
                            Err(GeometryError::Malformed((p + 112) as u64))
                        } else {
                            match bone_info_at(b, info as int) {
                                Err(e) => Err(e),
                                Ok(bi) => Ok(
                                    PrimMeshWeightedView {
                                        prim_mesh: m,
                                        copy_bones: c,
                                        bone_indices: idx,
                                        bone_info: bi,
                                    },
                                ),
                            }
                        }
                    },
                },
            }
        },
    }
}

/// Every offset that the weighted mesh at `p` follows points at or after `lo`.
pub open spec fn weighted_reads_from(b: Seq<u8>, p: int, lo: int) -> bool {
    &&& mesh_reads_from(b, p, lo)
    &&& (u32_at(b, p + 104) == 0 || lo <= u32_at(b, p + 104))
    &&& lo <= u32_at(b, p + 108)
    &&& lo <= u32_at(b, p + 112)
}

/// The weighted mesh at `p` and every table it points at start on sixteen-byte boundaries.
pub open spec fn weighted_aligned(b: Seq<u8>, p: int) -> bool {
    &&& mesh_aligned(b, p)
    &&& u32_at(b, p + 104) % 16 == 0
    &&& u32_at(b, p + 108) % 16 == 0
    &&& u32_at(b, p + 112) % 16 == 0
}

/// Decodes the weighted mesh whose record is at `p`.
pub fn read_weighted_mesh(b: &Vec<u8>, p: usize, global: PrimPropertyFlags) -> (r: Result<
    PrimMeshWeighted,
    GeometryError,
>)
    ensures
        match r {
            Ok(x) => weighted_mesh_at(b@, p as int, global) == Ok::<
                PrimMeshWeightedView,
                GeometryError,
            >(x@),
            Err(e) => weighted_mesh_at(b@, p as int, global) == Err::<
                PrimMeshWeightedView,
                GeometryError,
            >(e),
        },
{
    proof {
        reveal(weighted_mesh_at);
    }
    let prim_mesh = read_mesh(b, p, global)?;
    check_fits(b, p, 116)?;
    let cb = read_u32(b, p + 104);
    let copy_bones = if cb == 0 {
        None
    } else {
        Some(read_copy_bones(b, cb as usize, read_u32(b, p + 100))?)
    };
    let bone_indices = read_bone_indices(b, read_u32(b, p + 108) as usize)?;
    let info = read_u32(b, p + 112);
    if info == 0 {
        return Err(GeometryError::Malformed((p + 112) as u64));
    }
    let bone_info = read_bone_info(b, info as usize)?;
    Ok(PrimMeshWeighted { prim_mesh, copy_bones, bone_indices, bone_info })
}

/// Decoding the weighted mesh at `p` reads the same in a buffer that agrees
/// with this one from `lo` on, when every offset it follows is at or after `lo`.
pub proof fn lemma_weighted_mesh_stable(
    a: Seq<u8>,
    b: Seq<u8>,
    lo: int,
    p: int,
    global: PrimPropertyFlags,
)
    requires
        agree_from(b, a, lo),
        0 <= lo,
        weighted_reads_from(a, p, lo),
        weighted_mesh_at(a, p, global) is Ok,
    ensures
        weighted_mesh_at(b, p, global) == weighted_mesh_at(a, p, global),
        weighted_reads_from(b, p, lo),
        weighted_aligned(b, p) == weighted_aligned(a, p),
{
    reveal(weighted_mesh_at);
    lemma_mesh_stable(a, b, lo, p, global);
    let cb = u32_at(a, p + 104);
    if cb != 0 {
        lemma_copy_bones_stable(a, b, lo, cb as int, u32_at(a, p + 100));
    }
    lemma_bone_indices_stable(a, b, lo, u32_at(a, p + 108) as int);
    lemma_bone_info_stable(a, b, lo, u32_at(a, p + 112) as int);
}

/// Where the tables of a weighted mesh were written.
pub struct WeightedPositions {
    pub sub_ptr: u32,
    pub info_ptr: u32,
    pub indices_ptr: u32,
    pub copy_ptr: u32,
    pub copy_count: u32,
}

/// The tables at the positions `o` decode to those of `x`.
pub open spec fn weighted_tables_hold(b: Seq<u8>, o: WeightedPositions, x: PrimMeshWeighted) -> bool {
    &&& bone_info_at(b, o.info_ptr as int) == Ok::<BoneInfoView, GeometryError>(x.bone_info@)
    &&& bone_indices_at(b, o.indices_ptr as int) == Ok::<Seq<u16>, GeometryError>(
        x.bone_indices.indices@,
    )
    &&& match x.copy_bones {
        Some(c) => o.copy_ptr != 0 && copy_bones_at(b, o.copy_ptr as int, o.copy_count) == Ok::<
            CopyBonesView,
            GeometryError,
        >(c@),
        None => o.copy_ptr == 0,
    }
}

proof fn lemma_weighted_tables_stable(
    a: Seq<u8>,
    b: Seq<u8>,
    o: WeightedPositions,
    x: PrimMeshWeighted,
)
    requires
        extends(b, a),
        weighted_tables_hold(a, o, x),
    ensures
        weighted_tables_hold(b, o, x),
{
    lemma_bone_info_stable(a, b, 0, o.info_ptr as int);
    lemma_bone_indices_stable(a, b, 0, o.indices_ptr as int);
    if x.copy_bones is Some {
        lemma_copy_bones_stable(a, b, 0, o.copy_ptr as int, o.copy_count);
    }
}

/// Number of bytes the submesh and bone tables of `x` take when written from
/// a sixteen-byte boundary.
#[verifier::opaque]
pub open spec fn weighted_payload_len(x: PrimMeshWeighted) -> int {
    submesh_len(x.prim_mesh.sub_mesh) + pad16(260 + 8 * x.bone_info.accel_entries@.len() as int)
        + pad16(4 + 2 * x.bone_indices.indices@.len() as int) + match x.copy_bones {
        Some(c) => pad16(4 * c.indices@.len() as int + 4 * c.offsets@.len() as int),
        None => 0,
    }
}

pub proof fn lemma_weighted_payload_len_nonneg(x: PrimMeshWeighted)
    ensures
        weighted_payload_len(x) >= 0,
{
    reveal(weighted_payload_len);
    crate::prim_sub_mesh::lemma_submesh_len_nonneg(x.prim_mesh.sub_mesh);
}

/// Number of bytes a weighted mesh takes when written from a sixteen-byte boundary.
pub open spec fn weighted_len(x: PrimMeshWeighted) -> int {
    weighted_payload_len(x) + 128
}

/// Appends the submesh and bone tables of `x`, returning where each starts.
#[verifier::rlimit(60)]
pub fn write_weighted_payload(buf: &mut Vec<u8>, x: &PrimMeshWeighted, global: PrimPropertyFlags, bb: &BoundingBox) -> (r: Result<
    WeightedPositions,
    GeometryError,
>)
    ensures
        extends(final(buf)@, old(buf)@),
        r is Err ==> r == Err::<WeightedPositions, GeometryError>(GeometryError::TooLarge),
        r is Err ==> final(buf)@.len() > u32::MAX,
        old(buf)@.len() % 16 == 0 ==> final(buf)@.len() <= old(buf)@.len() + weighted_payload_len(*x),
        r is Ok && old(buf)@.len() % 16 == 0 ==> final(buf)@.len() == old(buf)@.len()
            + weighted_payload_len(*x),
        r is Ok ==> {
            let o = r->Ok_0;
            let f = final(buf)@;
            &&& f.len() % 16 == 0
            &&& old(buf)@.len() <= o.sub_ptr
            &&& o.sub_ptr + 16 <= f.len()
            &&& old(buf)@.len() <= u32_at(f, o.sub_ptr as int)
            &&& u32_at(f, o.sub_ptr as int) + 76 <= o.sub_ptr
            &&& crate::prim_sub_mesh::submesh_reads_from(f, u32_at(f, o.sub_ptr as int) as int, old(buf)@.len() as int)
            &&& old(buf)@.len() <= o.info_ptr
            &&& old(buf)@.len() <= o.indices_ptr
            &&& (o.copy_ptr == 0 || old(buf)@.len() <= o.copy_ptr)
            &&& (old(buf)@.len() % 16 == 0 ==> {
                &&& o.sub_ptr % 16 == 0
                &&& crate::prim_sub_mesh::submesh_aligned(f, u32_at(f, o.sub_ptr as int) as int)
                &&& o.info_ptr % 16 == 0
                &&& o.indices_ptr % 16 == 0
                &&& o.copy_ptr % 16 == 0
            })
            &&& (x.wf(global) && old(buf)@.len() > 0) ==> {
                &&& crate::prim_sub_mesh::submesh_at(
                    f,
                    u32_at(f, o.sub_ptr as int) as int,
                    global,
                    x.prim_mesh.prim_object.properties,
                    x.prim_mesh.cloth_id,
                ) == Ok::<crate::prim_sub_mesh::PrimSubMeshView, GeometryError>(x.prim_mesh.sub_mesh@)
                &&& weighted_tables_hold(f, o, *x)
            }
        },
{
    proof {
        reveal(weighted_payload_len);
    }
    let ghost b0 = buf@;
    let sub_ptr = write_mesh_payload(buf, &x.prim_mesh, global, bb)?;
    let ghost b1 = buf@;
    let info_ptr = stream_position(buf)?;
    write_bone_info(buf, &x.bone_info);
    let ghost b2 = buf@;
    let indices_ptr = stream_position(buf)?;
    write_bone_indices(buf, &x.bone_indices);
    let ghost b3 = buf@;
    let mut copy_ptr: u32 = 0;
    let mut copy_count: u32 = 0;
    match &x.copy_bones {
        Some(c) => {
            copy_ptr = stream_position(buf)?;
            copy_count = c.len();
            write_copy_bones(buf, c);
        },
        None => {},
    }
    let o = WeightedPositions { sub_ptr, info_ptr, indices_ptr, copy_ptr, copy_count };
    proof {
        let f = buf@;
        lemma_extends_trans(b2, b3, f);
        lemma_extends_trans(b1, b2, f);
        lemma_extends_trans(b0, b1, f);
        crate::prim_sub_mesh::lemma_submesh_reads_from_stable(
            b1,
            f,
            u32_at(b1, sub_ptr as int) as int,
            b0.len() as int,
        );
        if b1.len() % 16 == 0 {
            assert(b1.len() == b2.len() || b2.len() % 16 == 0);
        }
        if x.wf(global) && b0.len() > 0 {
            crate::prim_sub_mesh::lemma_submesh_stable(
                b1,
                f,
                0,
                u32_at(b1, sub_ptr as int) as int,
                global,
                x.prim_mesh.prim_object.properties,
                x.prim_mesh.cloth_id,
            );
            lemma_bone_info_stable(b2, f, 0, info_ptr as int);
            lemma_bone_indices_stable(b3, f, 0, indices_ptr as int);
        }
    }
    Ok(o)
}

/// Appends a weighted mesh: submesh, bone table, bone indices and copy bones,
/// then the mesh record with its table offsets, padded to sixteen bytes;
/// returns where the record starts.
#[verifier::rlimit(60)]
pub fn write_weighted_mesh(buf: &mut Vec<u8>, x: &PrimMeshWeighted, global: PrimPropertyFlags, bb: &BoundingBox) -> (r: Result<
    u32,
    GeometryError,
>)
    ensures
        extends(final(buf)@, old(buf)@),
        r is Err ==> r == Err::<u32, GeometryError>(GeometryError::TooLarge),
        r is Err ==> final(buf)@.len() > u32::MAX,
        old(buf)@.len() % 16 == 0 ==> final(buf)@.len() <= old(buf)@.len() + weighted_len(*x),
        r is Ok && old(buf)@.len() % 16 == 0 ==> final(buf)@.len() == old(buf)@.len() + weighted_len(*x),
        r is Ok ==> {
            let h = r->Ok_0 as int;
            let f = final(buf)@;
            &&& old(buf)@.len() <= h
            &&& h + 44 <= f.len()
            &&& crate::math::bounding_box_at(f, h + 20) == *bb
            &&& f.len() % 16 == 0
            &&& weighted_reads_from(f, h, old(buf)@.len() as int)
            &&& (old(buf)@.len() % 16 == 0 ==> weighted_aligned(f, h))
            &&& (x.wf(global) && old(buf)@.len() > 0) ==> weighted_mesh_at(f, h, global) == Ok::<
                PrimMeshWeightedView,
                GeometryError,
            >(x@)
        },
{
    let ghost b0 = buf@;
    let o = write_weighted_payload(buf, x, global, bb)?;
    let ghost b1 = buf@;
    let h = stream_position(buf)?;
    write_mesh_record(buf, &x.prim_mesh, global, o.sub_ptr, bb);
    let ghost b2 = buf@;
    write_u32(buf, o.copy_count);
    let ghost b3 = buf@;
    write_u32(buf, o.copy_ptr);
    let ghost b4 = buf@;
    write_u32(buf, o.indices_ptr);
    let ghost b5 = buf@;
    write_u32(buf, o.info_ptr);
    let ghost b6 = buf@;
    align16(buf);
    proof {
        let f = buf@;
        if b1.len() % 16 == 0 {
            lemma_pad16_from(b1.len() as int, 116);
        }
        crate::bytes::lemma_extends_trans(b5, b6, f);
        crate::bytes::lemma_extends_trans(b4, b5, f);
        crate::bytes::lemma_extends_trans(b3, b4, f);
        crate::bytes::lemma_extends_trans(b2, b3, f);
        crate::bytes::lemma_extends_trans(b1, b2, f);
        lemma_extends_trans(b0, b1, f);
        lemma_mesh_record_stable(b2, f, h as int, x.prim_mesh, global, o.sub_ptr);
        lemma_mesh_written(x.wf(global) && b0.len() > 0, b0, b1, f, h as int, x.prim_mesh, global, o.sub_ptr);
        assert(u32_at(f, h + 100) == o.copy_count);
        assert(u32_at(f, h + 104) == o.copy_ptr);
        assert(u32_at(f, h + 108) == o.indices_ptr);
        assert(u32_at(f, h + 112) == o.info_ptr);
        if x.wf(global) && b0.len() > 0 {
            lemma_weighted_tables_stable(b1, f, o, *x);
            lemma_weighted_decodes(f, h as int, o, *x, global);
        }
    }
    Ok(h)
}

proof fn lemma_weighted_decodes(
    f: Seq<u8>,
    h: int,
    o: WeightedPositions,
    x: PrimMeshWeighted,
    global: PrimPropertyFlags,
)
    requires
        0 < o.info_ptr,
        0 <= h,
        h + 116 <= f.len(),
        mesh_at(f, h, global) == Ok::<PrimMeshView, GeometryError>(x.prim_mesh@),
        u32_at(f, h + 100) == o.copy_count,
        u32_at(f, h + 104) == o.copy_ptr,
        u32_at(f, h + 108) == o.indices_ptr,
        u32_at(f, h + 112) == o.info_ptr,
        weighted_tables_hold(f, o, x),
        x.wf(global),
    ensures
        weighted_mesh_at(f, h, global) == Ok::<PrimMeshWeightedView, GeometryError>(x@),
{
    reveal(weighted_mesh_at);
    let m = mesh_at(f, h, global)->Ok_0;
    let copy: Result<Option<CopyBonesView>, GeometryError> = if o.copy_ptr == 0 {
        Ok(None)
    } else {
        match copy_bones_at(f, o.copy_ptr as int, o.copy_count) {
            Err(e) => Err(e),
            Ok(c) => Ok(Some(c)),
        }
    };
    match x.copy_bones {
        Some(c) => assert(copy == Ok::<Option<CopyBonesView>, GeometryError>(Some(c@))),
        None => assert(copy == Ok::<Option<CopyBonesView>, GeometryError>(None)),
    }
    assert(fits(f.len() as int, h, 116));
    assert(bone_indices_at(f, u32_at(f, h + 108) as int) == Ok::<Seq<u16>, GeometryError>(x.bone_indices.indices@));
    assert(bone_info_at(f, u32_at(f, h + 112) as int) == Ok::<BoneInfoView, GeometryError>(x.bone_info@));
    assert(weighted_mesh_at(f, h, global) == Ok::<PrimMeshWeightedView, GeometryError>(
        PrimMeshWeightedView {
            prim_mesh: m,
            copy_bones: copy->Ok_0,
            bone_indices: x.bone_indices.indices@,
            bone_info: x.bone_info@,
        },
    ));
}

} // verus!
