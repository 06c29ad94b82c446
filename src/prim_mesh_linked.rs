//! Bone table of linked meshes: a dense bit-presence table with acceleration
//! entries assigned to the set bits in ascending order.
use vstd::prelude::*;

use crate::bytes::{
    agree_from, align16, align_writer, stream_position, check_fits, extends, fits, lemma_extends_append, lemma_extends_trans,
    lemma_u64s_stable, pad_len, read_u16, read_u32, read_u64s, u16_at, u32_at, u64s_at, write_u16,
    write_u32, write_u64s, zeros,
};
use crate::error::GeometryError;
use crate::prim_mesh::{
    lemma_mesh_record_stable, lemma_mesh_stable, lemma_mesh_written, mesh_aligned, mesh_at,
    mesh_reads_from, read_mesh, write_mesh_payload, write_mesh_record, PrimMesh, PrimMeshView,
};
use crate::math::BoundingBox;
use crate::render_primitive::PrimPropertyFlags;
use crate::prim_mesh_weighted::{accels_at, read_accels, write_accels, BoneAccel};

verus! {

broadcast use vstd::std_specs::vec::axiom_spec_len;

/// Bit `i` of the presence table: bit `i % 64` of word `i / 64`.
pub open spec fn bit_of(words: Seq<u64>, i: int) -> bool {
    (words[i / 64] >> ((i % 64) as u64)) & 1u64 == 1u64
}

/// Number of set bits among the first `n` bits of the presence table.
pub open spec fn set_bits_below(words: Seq<u64>, n: int) -> nat
    decreases n,
{
    if n <= 0 {
        0
    } else {
        set_bits_below(words, n - 1) + if bit_of(words, n - 1) {
            1nat
        } else {
            0nat
        }
    }
}

pub proof fn lemma_set_bits_monotone(words: Seq<u64>, m: int, n: int)
    requires
        m <= n,
    ensures
        set_bits_below(words, m) <= set_bits_below(words, n),
    decreases n - m,
{
    if m < n {
        lemma_set_bits_monotone(words, m, n - 1);
    }
}

/// Number of words that hold `total_chunks_align` presence bits.
pub open spec fn remap_words(total_chunks_align: u32) -> int {
    (total_chunks_align as int + 63) / 64
}

/// The linked bone table.
#[derive(Debug, Clone, PartialEq, Eq)]
pub struct BoneInfo {
    pub total_chunks_align: u32,
    pub bone_remap: Vec<u64>,
    pub accel_entries: Vec<BoneAccel>,
}

/// The contents of a linked [`BoneInfo`].
pub ghost struct BoneInfoView {
    pub total_chunks_align: u32,
    pub bone_remap: Seq<u64>,
    pub accel_entries: Seq<BoneAccel>,
}

impl View for BoneInfo {
    type V = BoneInfoView;

    open spec fn view(&self) -> BoneInfoView {
        BoneInfoView {
            total_chunks_align: self.total_chunks_align,
            bone_remap: self.bone_remap@,
            accel_entries: self.accel_entries@,
        }
    }
}

/// The acceleration entry index of bone `bone`: the number of set bits below
/// its own, if its bit is set.
pub open spec fn linked_entry(info: BoneInfoView, bone: int) -> Option<int> {
    if 0 <= bone < 64 * info.bone_remap.len() && bit_of(info.bone_remap, bone) {
        Some(set_bits_below(info.bone_remap, bone) as int)
    } else {
        None
    }
}

/// The table has no more acceleration entries than set bits.
pub open spec fn linked_consistent(info: BoneInfoView) -> bool {
    info.accel_entries.len() <= set_bits_below(info.bone_remap, 64 * info.bone_remap.len() as int)
}

impl BoneInfo {
    /// The table can be encoded so that it decodes to itself.
    pub open spec fn wf(&self) -> bool {
        &&& self.bone_remap@.len() == remap_words(self.total_chunks_align)
        &&& self.accel_entries@.len() <= u16::MAX
        &&& linked_consistent(self@)
    }

    /// The acceleration entry of bone `bone`, if its bit is set and the entry exists.
    pub fn accel_for_bone(&self, bone: usize) -> (r: Option<BoneAccel>)
        ensures
            r is Some <==> (linked_entry(self@, bone as int) matches Some(k) && k
                < self@.accel_entries.len()),
            r is Some ==> r == Some(self@.accel_entries[linked_entry(self@, bone as int)->0]),
    {
        if bone / 64 >= self.bone_remap.len() {
            return None;
        }
        if (self.bone_remap[bone / 64] >> (bone % 64) as u64) & 1 != 1 {
            return None;
        }
        let mut count: usize = 0;
        let mut i: usize = 0;
        while i < bone
            invariant
                i <= bone,
                bone / 64 < self.bone_remap@.len(),
                count == set_bits_below(self.bone_remap@, i as int),
                count <= i,
            decreases bone - i,
        {
            if (self.bone_remap[i / 64] >> (i % 64) as u64) & 1 == 1 {
                count = count + 1;
            }
            i = i + 1;
        }
        if count < self.accel_entries.len() {
            Some(self.accel_entries[count])
        } else {
            None
        }
    }

    /// Fails with [`GeometryError::Consistency`] when the table holds more
    /// acceleration entries than set bits.
    pub fn check_consistency(&self) -> (r: Result<(), GeometryError>)
        ensures
            r is Ok <==> linked_consistent(self@),
            r is Err ==> r == Err::<(), GeometryError>(GeometryError::Consistency),
    {
        if capped_set_bits(&self.bone_remap, self.accel_entries.len()) == self.accel_entries.len() {
            Ok(())
        } else {
            Err(GeometryError::Consistency)
        }
    }
}

/// The number of set bits in `words`, but at most `cap`.
pub fn capped_set_bits(words: &Vec<u64>, cap: usize) -> (r: usize)
    ensures
        r as int == if set_bits_below(words@, 64 * words@.len() as int) < cap {
            set_bits_below(words@, 64 * words@.len() as int) as int
        } else {
            cap as int
        },
{
    let mut count: usize = 0;
    let mut w: usize = 0;
    while w < words.len()
        invariant
            w <= words@.len(),
            count == set_bits_below(words@, 64 * w),
            count <= cap,
        decreases words@.len() - w,
    {
        let word = words[w];
        let mut j: u64 = 0;
        while j < 64
            invariant
                j <= 64,
                w < words@.len(),
                word == words@[w as int],
                count == set_bits_below(words@, 64 * w + j),
                count <= cap,
            decreases 64 - j,
        {
            proof {
                let i = 64 * w + j;
                assert(i / 64 == w as int && i % 64 == j as int) by (nonlinear_arith)
                    requires i == 64 * w + j, 0 <= j < 64;
            }
            if (word >> j) & 1 == 1 {
                if count >= cap {
                    proof {
                        lemma_set_bits_monotone(words@, 64 * w + j + 1, 64 * words@.len() as int);
                    }
                    return cap;
                }
                count = count + 1;
            }
            j = j + 1;
        }
        w = w + 1;
    }
    count
}

/// The presence words as they are written: exactly as many as
/// `total_chunks_align` needs, missing ones zero.
pub open spec fn rebuilt_words(info: BoneInfoView) -> Seq<u64> {
    Seq::new(
        remap_words(info.total_chunks_align) as nat,
        |i: int|
            if i < info.bone_remap.len() {
                info.bone_remap[i]
            } else {
                0u64
            },
    )
}

/// How many acceleration entries are written: no more than the written
/// presence table has set bits, nor than a 16-bit count can hold.
pub open spec fn kept_entries(info: BoneInfoView) -> int {
    let bits = set_bits_below(rebuilt_words(info), 64 * rebuilt_words(info).len() as int);
    let n = info.accel_entries.len() as int;
    let m = if n <= u16::MAX {
        n
    } else {
        u16::MAX as int
    };
    if bits < m {
        bits as int
    } else {
        m
    }
}

/// The linked table as it is written: rebuilt presence words and the entries they can own.
pub open spec fn rebuilt_linked(info: BoneInfoView) -> BoneInfoView {
    BoneInfoView {
        total_chunks_align: info.total_chunks_align,
        bone_remap: rebuilt_words(info),
        accel_entries: info.accel_entries.subrange(0, kept_entries(info)),
    }
}

/// The linked bone table stored at `p`.
#[verifier::opaque]
pub open spec fn linked_bone_info_at(b: Seq<u8>, p: int) -> Result<BoneInfoView, GeometryError> {
    let words = remap_words(u32_at(b, p + 4));
    let n = u16_at(b, p + 2);
    if !fits(b.len() as int, p, 8) || !fits(b.len() as int, p + 8, 8 * words + 8 * n) {
        Err(GeometryError::Malformed(p as u64))
    } else {
        Ok(
            BoneInfoView {
                total_chunks_align: u32_at(b, p + 4),
                bone_remap: u64s_at(b, p + 8, words as nat),
                accel_entries: accels_at(b, p + 8 + 8 * words, n as nat),
            },
        )
    }
}

/// Decodes the linked bone table at `p`.
pub fn read_linked_bone_info(b: &Vec<u8>, p: usize) -> (r: Result<BoneInfo, GeometryError>)
    ensures
        match r {
            Ok(x) => linked_bone_info_at(b@, p as int) == Ok::<BoneInfoView, GeometryError>(x@),
            Err(e) => linked_bone_info_at(b@, p as int) == Err::<BoneInfoView, GeometryError>(e),
        },
{
    proof {
        reveal(linked_bone_info_at);
    }
    check_fits(b, p, 8)?;
    let n = read_u16(b, p + 2);
    let total_chunks_align = read_u32(b, p + 4);
    let words: u64 = (total_chunks_align as u64 + 63) / 64;
    if check_fits(b, p + 8, 8 * words + 8 * n as u64).is_err() {
        return Err(GeometryError::Malformed(p as u64));
    }
    let bone_remap = read_u64s(b, p + 8, words as usize);
    let accel_entries = read_accels(b, p + 8 + 8 * words as usize, n as usize);
    Ok(BoneInfo { total_chunks_align, bone_remap, accel_entries })
}

/// Number of bytes the rebuilt linked table takes when written from a sixteen-byte boundary.
pub open spec fn linked_table_len(x: BoneInfo) -> int {
    crate::bytes::pad16(8 + 8 * remap_words(x.total_chunks_align) + 8 * kept_entries(x@))
}

/// Appends the linked bone table rebuilt to be consistent: as many presence
/// words as `total_chunks_align` needs, and no more acceleration entries than
/// those words have set bits; sizes recomputed, then padded to sixteen bytes.
pub fn write_linked_bone_info(buf: &mut Vec<u8>, x: &BoneInfo)
    ensures
        extends(final(buf)@, old(buf)@),
        final(buf)@.len() % 16 == 0,
        old(buf)@.len() % 16 == 0 ==> final(buf)@.len() == old(buf)@.len() + linked_table_len(*x),
        linked_bone_info_at(final(buf)@, old(buf)@.len() as int) == Ok::<BoneInfoView, GeometryError>(
            rebuilt_linked(x@),
        ),
        linked_consistent(rebuilt_linked(x@)),
        x.wf() ==> rebuilt_linked(x@) == x@,
{
    let ghost start = buf@;
    let nw: usize = ((x.total_chunks_align as u64 + 63) / 64) as usize;
    let mut words: Vec<u64> = Vec::new();
    let mut i: usize = 0;
    while i < nw
        invariant
            i <= nw,
            nw == remap_words(x.total_chunks_align),
            words@ == rebuilt_words(x@).subrange(0, i as int),
        decreases nw - i,
    {
        let v = if i < x.bone_remap.len() {
            x.bone_remap[i]
        } else {
            0
        };
        words.push(v);
        i = i + 1;
        assert(words@ =~= rebuilt_words(x@).subrange(0, i as int));
    }
    assert(words@ =~= rebuilt_words(x@));
    let cap: usize = if x.accel_entries.len() <= 0xFFFF {
        x.accel_entries.len()
    } else {
        0xFFFF
    };
    let kept = capped_set_bits(&words, cap);
    let mut entries: Vec<BoneAccel> = Vec::new();
    let mut k: usize = 0;
    while k < kept
        invariant
            k <= kept,
            kept <= x.accel_entries@.len(),
            entries@ == x.accel_entries@.subrange(0, k as int),
        decreases kept - k,
    {
        entries.push(x.accel_entries[k]);
        k = k + 1;
        assert(entries@ =~= x.accel_entries@.subrange(0, k as int));
    }
    let total = (8 + (nw as u64) * 8 + (kept as u64) * 8) % 0x10000;
    write_u16(buf, total as u16);
    let ghost b1 = buf@;
    write_u16(buf, kept as u16);
    let ghost b2 = buf@;
    write_u32(buf, x.total_chunks_align);
    let ghost b3 = buf@;
    write_u64s(buf, &words);
    let ghost b4 = buf@;
    write_accels(buf, &entries);
    let ghost b5 = buf@;
    align_writer(buf, 16);
    proof {
        reveal(linked_bone_info_at);
        assert(kept as int == kept_entries(x@));
        if start.len() % 16 == 0 {
            crate::bytes::lemma_pad16_from(start.len() as int, 8 + 8 * nw + 8 * kept);
        }
        lemma_extends_append(b5, zeros(pad_len(b5.len() as int, 16) as nat));
        lemma_extends_trans(start, b1, b2);
        lemma_extends_trans(start, b2, b3);
        lemma_extends_trans(start, b3, b4);
        lemma_extends_trans(start, b4, b5);
        lemma_extends_trans(start, b5, buf@);
        lemma_extends_trans(b4, b5, buf@);
        lemma_extends_trans(b3, b4, buf@);
        lemma_extends_trans(b2, b3, buf@);
        lemma_extends_trans(b1, b2, buf@);
        let l = start.len() as int;
        let nwi = nw as int;
        assert(kept as int == kept_entries(x@));
        assert(u16_at(buf@, l + 2) == kept as u16);
        assert(u32_at(buf@, l + 4) == x.total_chunks_align);
        lemma_u64s_stable(b4, buf@, 0, l + 8, nw as nat);
        assert(accels_at(buf@, l + 8 + 8 * nwi, kept as nat) =~= accels_at(
            b5,
            l + 8 + 8 * nwi,
            kept as nat,
        ));
        assert(linked_bone_info_at(buf@, l) =~= Ok::<BoneInfoView, GeometryError>(
            rebuilt_linked(x@),
        ));
        if x.wf() {
            assert(rebuilt_words(x@) =~= x.bone_remap@);
            assert(x.accel_entries@.subrange(0, kept_entries(x@)) =~= x.accel_entries@);
        }
    }
}

/// Decoding the linked bone table at `p` reads the same in a buffer that agrees with this one from `lo` on.
pub proof fn lemma_linked_bone_info_stable(a: Seq<u8>, b: Seq<u8>, lo: int, p: int)
    requires
        agree_from(b, a, lo),
        0 <= lo <= p,
        linked_bone_info_at(a, p) is Ok,
    ensures
        linked_bone_info_at(b, p) == linked_bone_info_at(a, p),
{
    reveal(linked_bone_info_at);
    let words = remap_words(u32_at(a, p + 4));
    let n = u16_at(a, p + 2) as nat;
    lemma_u64s_stable(a, b, lo, p + 8, words as nat);
    assert(accels_at(b, p + 8 + 8 * words, n) =~= accels_at(a, p + 8 + 8 * words, n));
}

proof fn lemma_shift_in_low(r: u64, x: u64)
    ensures
        ((r << 1u64) | (x & 1u64)) & 1u64 == x & 1u64,
{
    assert(((r << 1u64) | (x & 1u64)) & 1u64 == x & 1u64) by (bit_vector);
}

proof fn lemma_shift_in_high(r: u64, x: u64, k: u64)
    requires
        1 <= k < 64,
    ensures
        (((r << 1u64) | (x & 1u64)) >> k) & 1u64 == (r >> (k - 1) as u64) & 1u64,
{
    assert((((r << 1u64) | (x & 1u64)) >> k) & 1u64 == (r >> (k - 1) as u64) & 1u64) by (bit_vector)
        requires
            1 <= k < 64,
    ;
}

proof fn lemma_shift_twice(v: u64, i: u64)
    requires
        i < 64,
    ensures
        (v >> i) >> 1u64 == v >> (i + 1) as u64,
{
    assert((v >> i) >> 1u64 == v >> (i + 1) as u64) by (bit_vector)
        requires
            i < 64,
    ;
}

/// The 64 bits of `value` in reverse order.
pub fn reverse_u64_bits(value: u64) -> (r: u64)
    ensures
        forall|k: u64| k < 64 ==> (#[trigger] (r >> k)) & 1u64 == (value >> (63 - k) as u64) & 1u64,
{
    let mut reversed: u64 = 0;
    let mut rest: u64 = value;
    let mut i: u64 = 0;
    assert(value >> 0u64 == value) by (bit_vector);
    while i < 64
        invariant
            i <= 64,
            i < 64 ==> rest == value >> i,
            forall|k: u64| k < i ==> (#[trigger] (reversed >> k)) & 1u64 == (value >> (i - 1 - k) as u64) & 1u64,
        decreases 64 - i,
    {
        let ghost prev = reversed;
        proof {
            lemma_shift_in_low(prev, rest);
            assert forall|k: u64| k < i + 1 implies (#[trigger] (((prev << 1u64) | (rest & 1u64)) >> k))
                & 1u64 == (value >> (i - k) as u64) & 1u64 by {
                if k == 0 {
                    assert(((prev << 1u64) | (rest & 1u64)) >> 0u64 == ((prev << 1u64) | (rest & 1u64)))
                        by (bit_vector);
                } else {
                    lemma_shift_in_high(prev, rest, k);
                    assert(prev >> (k - 1) as u64 == #[trigger] (prev >> (k - 1) as u64));
                }
            }
            if i + 1 < 64 {
                lemma_shift_twice(value, i);
            }
        }
        reversed = (reversed << 1u64) | (rest & 1u64);
        rest = rest >> 1u64;
        i = i + 1;
    }
    reversed
}

/// A linked mesh: a mesh with its bone presence table.
#[derive(Debug, Clone, PartialEq, Eq)]
pub struct PrimMeshLinked {
    pub prim_mesh: PrimMesh,
    pub bone_info: BoneInfo,
}

/// The contents of a [`PrimMeshLinked`].
pub ghost struct PrimMeshLinkedView {
    pub prim_mesh: PrimMeshView,
    pub bone_info: BoneInfoView,
}

impl View for PrimMeshLinked {
    type V = PrimMeshLinkedView;

    open spec fn view(&self) -> PrimMeshLinkedView {
        PrimMeshLinkedView { prim_mesh: self.prim_mesh@, bone_info: self.bone_info@ }
    }
}

impl PrimMeshLinked {
    /// The mesh can be encoded so that it decodes to itself.
    pub open spec fn wf(&self, global: PrimPropertyFlags) -> bool {
        self.prim_mesh.wf(global) && self.bone_info.wf()
    }
}

/// The linked mesh whose record is stored at `p`; its bone table pointer must not be null.
#[verifier::opaque]
pub open spec fn linked_mesh_at(b: Seq<u8>, p: int, global: PrimPropertyFlags) -> Result<
    PrimMeshLinkedView,
    GeometryError,
> {
    match mesh_at(b, p, global) {
        Err(e) => Err(e),
        Ok(m) => if !fits(b.len() as int, p, 116) {
            Err(GeometryError::Malformed(p as u64))
        } else {
            let info = u32_at(b, p + 112);
            if info == 0 {
                Err(GeometryError::Malformed((p + 112) as u64))
            } else {
                match linked_bone_info_at(b, info as int) {
                    Err(e) => Err(e),
                    Ok(bi) => Ok(PrimMeshLinkedView { prim_mesh: m, bone_info: bi }),
                }
            }
        },
    }
}

/// Every offset that the linked mesh at `p` follows points at or after `lo`.
pub open spec fn linked_reads_from(b: Seq<u8>, p: int, lo: int) -> bool {
    mesh_reads_from(b, p, lo) && lo <= u32_at(b, p + 112)
}

/// The linked mesh at `p` and its bone table start on sixteen-byte boundaries.
pub open spec fn linked_aligned(b: Seq<u8>, p: int) -> bool {
    mesh_aligned(b, p) && u32_at(b, p + 112) % 16 == 0
}

/// Decodes the linked mesh whose record is at `p`.
pub fn read_linked_mesh(b: &Vec<u8>, p: usize, global: PrimPropertyFlags) -> (r: Result<
    PrimMeshLinked,
    GeometryError,
>)
    ensures
        match r {
            Ok(x) => linked_mesh_at(b@, p as int, global) == Ok::<PrimMeshLinkedView, GeometryError>(
                x@,
            ),
            Err(e) => linked_mesh_at(b@, p as int, global) == Err::<
                PrimMeshLinkedView,
                GeometryError,
            >(e),
        },
{
    proof {
        reveal(linked_mesh_at);
    }
    let prim_mesh = read_mesh(b, p, global)?;
    check_fits(b, p, 116)?;
    let info = read_u32(b, p + 112);
    if info == 0 {
        return Err(GeometryError::Malformed((p + 112) as u64));
    }
    let bone_info = read_linked_bone_info(b, info as usize)?;
    Ok(PrimMeshLinked { prim_mesh, bone_info })
}

/// Decoding the linked mesh at `p` reads the same in a buffer that agrees
/// with this one from `lo` on, when every offset it follows is at or after `lo`.
pub proof fn lemma_linked_mesh_stable(
    a: Seq<u8>,
    b: Seq<u8>,
    lo: int,
    p: int,
    global: PrimPropertyFlags,
)
    requires
        agree_from(b, a, lo),
        0 <= lo,
        linked_reads_from(a, p, lo),
        linked_mesh_at(a, p, global) is Ok,
    ensures
        linked_mesh_at(b, p, global) == linked_mesh_at(a, p, global),
        linked_reads_from(b, p, lo),
        linked_aligned(b, p) == linked_aligned(a, p),
{
    reveal(linked_mesh_at);
    lemma_mesh_stable(a, b, lo, p, global);
    lemma_linked_bone_info_stable(a, b, lo, u32_at(a, p + 112) as int);
}

/// Number of bytes the submesh and bone table of `x` take when written from a sixteen-byte boundary.
pub open spec fn linked_payload_len(x: PrimMeshLinked) -> int {
    crate::prim_sub_mesh::submesh_len(x.prim_mesh.sub_mesh) + linked_table_len(x.bone_info)
}

/// Number of bytes a linked mesh takes when written from a sixteen-byte boundary.
pub open spec fn linked_len(x: PrimMeshLinked) -> int {
    linked_payload_len(x) + 128
}

/// Appends the submesh and the bone table of `x`; returns the submesh pointer
/// record, the table position and (as a ghost) the buffer between the two.
fn write_linked_payload(buf: &mut Vec<u8>, x: &PrimMeshLinked, global: PrimPropertyFlags, bb: &BoundingBox) -> (r: Result<
    (u32, u32, Ghost<Seq<u8>>),
    GeometryError,
>)
    ensures
        extends(final(buf)@, old(buf)@),
        r is Err ==> r == Err::<(u32, u32, Ghost<Seq<u8>>), GeometryError>(GeometryError::TooLarge),
        r is Err ==> final(buf)@.len() > u32::MAX,
        old(buf)@.len() % 16 == 0 ==> final(buf)@.len() <= old(buf)@.len() + linked_payload_len(*x),
        r is Ok && old(buf)@.len() % 16 == 0 ==> final(buf)@.len() == old(buf)@.len()
            + linked_payload_len(*x),
        r is Ok ==> {
            let (sub_ptr, info_ptr, b1) = r->Ok_0;
            let b0 = old(buf)@;
            let b1 = b1@;
            &&& extends(b1, b0)
            &&& extends(final(buf)@, b1)
            &&& final(buf)@.len() % 16 == 0
            &&& b1.len() == info_ptr
            &&& b0.len() <= sub_ptr
            &&& sub_ptr + 16 <= b1.len()
            &&& b0.len() <= u32_at(b1, sub_ptr as int)
            &&& u32_at(b1, sub_ptr as int) + 76 <= sub_ptr
            &&& crate::prim_sub_mesh::submesh_reads_from(b1, u32_at(b1, sub_ptr as int) as int, b0.len() as int)
            &&& (b0.len() % 16 == 0 ==> sub_ptr % 16 == 0 && info_ptr % 16 == 0
                && crate::prim_sub_mesh::submesh_aligned(b1, u32_at(b1, sub_ptr as int) as int))
            &&& ((x.wf(global) && b0.len() > 0) ==> crate::prim_sub_mesh::submesh_at(
                b1,
                u32_at(b1, sub_ptr as int) as int,
                global,
                x.prim_mesh.prim_object.properties,
                x.prim_mesh.cloth_id,
            ) == Ok::<crate::prim_sub_mesh::PrimSubMeshView, GeometryError>(x.prim_mesh.sub_mesh@))
            &&& (x.bone_info.wf() ==> linked_bone_info_at(final(buf)@, info_ptr as int) == Ok::<
                BoneInfoView,
                GeometryError,
            >(x.bone_info@))
        },
{
    let sub_ptr = write_mesh_payload(buf, &x.prim_mesh, global, bb)?;
    let ghost b1 = buf@;
    let info_ptr = stream_position(buf)?;
    write_linked_bone_info(buf, &x.bone_info);
    Ok((sub_ptr, info_ptr, Ghost(b1)))
}

proof fn lemma_linked_written(
    b0: Seq<u8>,
    b1: Seq<u8>,
    b2: Seq<u8>,
    f: Seq<u8>,
    h: int,
    x: PrimMeshLinked,
    global: PrimPropertyFlags,
    sub_ptr: u32,
    info_ptr: u32,
)
    requires
        extends(b1, b0),
        extends(b2, b1),
        extends(f, b2),
        b2.len() <= h,
        h + 116 <= f.len(),
        b1.len() == info_ptr,
        crate::prim_mesh::mesh_record_holds(f, h, x.prim_mesh, global, sub_ptr),
        u32_at(f, h + 112) == info_ptr,
        b0.len() <= sub_ptr,
        sub_ptr + 16 <= b1.len(),
        b0.len() <= u32_at(b1, sub_ptr as int),
        u32_at(b1, sub_ptr as int) + 76 <= sub_ptr,
        crate::prim_sub_mesh::submesh_reads_from(b1, u32_at(b1, sub_ptr as int) as int, b0.len() as int),
        b0.len() % 16 == 0 ==> h % 16 == 0 && sub_ptr % 16 == 0 && info_ptr % 16 == 0
            && crate::prim_sub_mesh::submesh_aligned(b1, u32_at(b1, sub_ptr as int) as int),
        (x.wf(global) && b0.len() > 0) ==> crate::prim_sub_mesh::submesh_at(
            b1,
            u32_at(b1, sub_ptr as int) as int,
            global,
            x.prim_mesh.prim_object.properties,
            x.prim_mesh.cloth_id,
        ) == Ok::<crate::prim_sub_mesh::PrimSubMeshView, GeometryError>(x.prim_mesh.sub_mesh@),
        x.bone_info.wf() ==> linked_bone_info_at(b2, info_ptr as int) == Ok::<BoneInfoView, GeometryError>(
            x.bone_info@,
        ),
    ensures
        linked_reads_from(f, h, b0.len() as int),
        b0.len() % 16 == 0 ==> linked_aligned(f, h),
        (x.wf(global) && b0.len() > 0) ==> linked_mesh_at(f, h, global) == Ok::<
            PrimMeshLinkedView,
            GeometryError,
        >(x@),
{
    let sp = u32_at(b1, sub_ptr as int) as int;
    crate::prim_sub_mesh::lemma_submesh_reads_from_stable(b1, b2, sp, b0.len() as int);
    if x.wf(global) && b0.len() > 0 {
        crate::prim_sub_mesh::lemma_submesh_stable(
            b1,
            b2,
            0,
            sp,
            global,
            x.prim_mesh.prim_object.properties,
            x.prim_mesh.cloth_id,
        );
    }
    lemma_mesh_written(x.wf(global) && b0.len() > 0, b0, b2, f, h, x.prim_mesh, global, sub_ptr);
    if x.wf(global) && b0.len() > 0 {
        lemma_linked_bone_info_stable(b2, f, 0, info_ptr as int);
        reveal(linked_mesh_at);
        assert(fits(f.len() as int, h, 116));
    }
}

/// Appends a linked mesh: submesh, bone table, then the mesh record with three
/// reserved words and the table offset, padded to sixteen bytes; returns where the record starts.
#[verifier::rlimit(60)]
pub fn write_linked_mesh(buf: &mut Vec<u8>, x: &PrimMeshLinked, global: PrimPropertyFlags, bb: &BoundingBox) -> (r: Result<
    u32,
    GeometryError,
>)
    ensures
        extends(final(buf)@, old(buf)@),
        r is Err ==> r == Err::<u32, GeometryError>(GeometryError::TooLarge),
        r is Err ==> final(buf)@.len() > u32::MAX,
        old(buf)@.len() % 16 == 0 ==> final(buf)@.len() <= old(buf)@.len() + linked_len(*x),
        r is Ok && old(buf)@.len() % 16 == 0 ==> final(buf)@.len() == old(buf)@.len() + linked_len(*x),
        r is Ok ==> {
            let h = r->Ok_0 as int;
            let f = final(buf)@;
            &&& old(buf)@.len() <= h
            &&& h + 44 <= f.len()
            &&& crate::math::bounding_box_at(f, h + 20) == *bb
            &&& f.len() % 16 == 0
            &&& linked_reads_from(f, h, old(buf)@.len() as int)
            &&& (old(buf)@.len() % 16 == 0 ==> linked_aligned(f, h))
            &&& (x.wf(global) && old(buf)@.len() > 0) ==> linked_mesh_at(f, h, global) == Ok::<
                PrimMeshLinkedView,
                GeometryError,
            >(x@)
        },
{
    let ghost b0 = buf@;
    let (sub_ptr, info_ptr, b1) = write_linked_payload(buf, x, global, bb)?;
    let ghost b2 = buf@;
    let h = stream_position(buf)?;
    write_mesh_record(buf, &x.prim_mesh, global, sub_ptr, bb);
    let ghost b3 = buf@;
    write_u32(buf, 0);
    let ghost b4 = buf@;
    write_u32(buf, 0);
    let ghost b5 = buf@;
    write_u32(buf, 0);
    let ghost b6 = buf@;
    write_u32(buf, info_ptr);
    let ghost b7 = buf@;
    align16(buf);
    proof {
        let f = buf@;
        if b2.len() % 16 == 0 {
            crate::bytes::lemma_pad16_from(b2.len() as int, 116);
        }
        crate::bytes::lemma_extends_trans(b6, b7, f);
        crate::bytes::lemma_extends_trans(b5, b6, f);
        crate::bytes::lemma_extends_trans(b4, b5, f);
        crate::bytes::lemma_extends_trans(b3, b4, f);
        crate::bytes::lemma_extends_trans(b2, b3, f);
        assert(u32_at(f, h + 112) == info_ptr);
        lemma_mesh_record_stable(b3, f, h as int, x.prim_mesh, global, sub_ptr);
        lemma_linked_written(b0, b1@, b2, f, h as int, *x, global, sub_ptr, info_ptr);
    }
    Ok(h)
}

} // verus!
