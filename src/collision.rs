//! Collision data of a submesh: quantised hit boxes, or an opaque bone-collision blob.
use vstd::prelude::*;

use crate::bytes::{
    agree_from, align_writer, check_fits, extends, fits, lemma_extends_append, lemma_extends_trans,
    lemma_subrange_stable, read_bytes, read_u16, u16_at, write_bytes, write_u16, write_u8, zeros,
};
use crate::error::GeometryError;

verus! {

broadcast use vstd::std_specs::vec::axiom_spec_len;

/// An axis-aligned box relative to the unit cube, each bound stored as a byte
/// where 0 stands for 0.0 and 255 for 1.0.
#[derive(Debug, Clone, Copy, PartialEq, Eq)]
pub struct QuantizedBox {
    pub min_x: u8,
    pub min_y: u8,
    pub min_z: u8,
    pub max_x: u8,
    pub max_y: u8,
    pub max_z: u8,
}

/// The box stored at `p` (six bytes).
pub open spec fn box_at(b: Seq<u8>, p: int) -> QuantizedBox {
    QuantizedBox {
        min_x: b[p],
        min_y: b[p + 1],
        min_z: b[p + 2],
        max_x: b[p + 3],
        max_y: b[p + 4],
        max_z: b[p + 5],
    }
}

/// Decodes `n` consecutive boxes starting at `p`.
pub open spec fn boxes_at(b: Seq<u8>, p: int, n: nat) -> Seq<QuantizedBox> {
    Seq::new(n, |i: int| box_at(b, p + 6 * i))
}

/// Hit boxes, one per chunk of triangles.
#[derive(Debug, Clone, PartialEq, Eq)]
pub struct BoxColi {
    pub tri_per_chunk: u16,
    pub box_entries: Vec<QuantizedBox>,
}

/// Bone collision data, opaque to this codec.
#[derive(Debug, Clone, PartialEq, Eq)]
pub struct BoneColi {
    pub total_size: u16,
    pub num_blocks: u16,
    pub total_chunks_align: u16,
    pub data: Vec<u8>,
}

/// Collision data; which form is stored is decided by the resource's linked flag.
#[derive(Debug, Clone, PartialEq, Eq)]
pub enum Collision {
    Box(BoxColi),
    Bone(BoneColi),
}

/// The contents of a [`Collision`].
pub ghost enum CollisionView {
    Box { tri_per_chunk: u16, box_entries: Seq<QuantizedBox> },
    Bone { total_size: u16, num_blocks: u16, total_chunks_align: u16, data: Seq<u8> },
}

impl View for Collision {
    type V = CollisionView;

    open spec fn view(&self) -> CollisionView {
        match self {
            Collision::Box(c) => CollisionView::Box {
                tri_per_chunk: c.tri_per_chunk,
                box_entries: c.box_entries@,
            },
            Collision::Bone(c) => CollisionView::Bone {
                total_size: c.total_size,
                num_blocks: c.num_blocks,
                total_chunks_align: c.total_chunks_align,
                data: c.data@,
            },
        }
    }
}

impl Collision {
    /// The collision data is the form that `is_linked` selects, and its sizes fit their fields.
    pub open spec fn wf(&self, is_linked: bool) -> bool {
        match self {
            Collision::Box(c) => !is_linked && c.box_entries@.len() <= u16::MAX,
            Collision::Bone(c) => is_linked && c.total_size >= 6 && c.data@.len() == c.total_size
                - 6,
        }
    }
}

/// Number of bytes the collision data takes when written from a sixteen-byte
/// boundary: hit boxes are padded to a multiple of four.
pub open spec fn collision_len(x: Collision) -> int {
    match x {
        Collision::Box(c) => {
            let k = 4 + 6 * c.box_entries@.len() as int;
            k + crate::bytes::pad_len(k, 4)
        },
        Collision::Bone(c) => 6 + c.data@.len() as int,
    }
}

/// The collision data stored at `p`, in the form that `is_linked` selects.
pub open spec fn collision_at(b: Seq<u8>, p: int, is_linked: bool) -> Result<
    CollisionView,
    GeometryError,
> {
    if !is_linked {
        let n = u16_at(b, p);
        if !fits(b.len() as int, p, 4) || !fits(b.len() as int, p + 4, 6 * n) {
            Err(GeometryError::Malformed(p as u64))
        } else {
            Ok(
                CollisionView::Box {
                    tri_per_chunk: u16_at(b, p + 2),
                    box_entries: boxes_at(b, p + 4, n as nat),
                },
            )
        }
    } else {
        let total = u16_at(b, p);
        if !fits(b.len() as int, p, 6) || total < 6 || !fits(b.len() as int, p + 6, total - 6) {
            Err(GeometryError::Malformed(p as u64))
        } else {
            Ok(
                CollisionView::Bone {
                    total_size: total,
                    num_blocks: u16_at(b, p + 2),
                    total_chunks_align: u16_at(b, p + 4),
                    data: b.subrange(p + 6, p + total),
                },
            )
        }
    }
}

/// Decodes the collision data at `p`, in the form that `is_linked` selects.
pub fn read_collision(b: &Vec<u8>, p: usize, is_linked: bool) -> (r: Result<
    Collision,
    GeometryError,
>)
    ensures
        match r {
            Ok(x) => collision_at(b@, p as int, is_linked) == Ok::<CollisionView, GeometryError>(
                x@,
            ),
            Err(e) => collision_at(b@, p as int, is_linked) == Err::<CollisionView, GeometryError>(
                e,
            ),
        },
{
    if !is_linked {
        check_fits(b, p, 4)?;
        let n = read_u16(b, p);
        let tri_per_chunk = read_u16(b, p + 2);
        if check_fits(b, p + 4, 6 * n as u64).is_err() {
            return Err(GeometryError::Malformed(p as u64));
        }
        let mut box_entries: Vec<QuantizedBox> = Vec::new();
        let mut i: usize = 0;
        while i < n as usize
            invariant
                i <= n,
                p + 4 + 6 * n <= b@.len(),
                b@.len() <= usize::MAX,
                box_entries@ == boxes_at(b@, p + 4, i as nat),
            decreases n - i,
        {
            let q = p + 4 + 6 * i;
            box_entries.push(
                QuantizedBox {
                    min_x: b[q],
                    min_y: b[q + 1],
                    min_z: b[q + 2],
                    max_x: b[q + 3],
                    max_y: b[q + 4],
                    max_z: b[q + 5],
                },
            );
            i = i + 1;
            assert(box_entries@ =~= boxes_at(b@, p + 4, i as nat));
        }
        Ok(Collision::Box(BoxColi { tri_per_chunk, box_entries }))
    } else {
        check_fits(b, p, 6)?;
        let total_size = read_u16(b, p);
        let num_blocks = read_u16(b, p + 2);
        let total_chunks_align = read_u16(b, p + 4);
        if total_size < 6 || check_fits(b, p + 6, total_size as u64 - 6).is_err() {
            return Err(GeometryError::Malformed(p as u64));
        }
        let data = read_bytes(b, p + 6, total_size as usize - 6);
        Ok(Collision::Bone(BoneColi { total_size, num_blocks, total_chunks_align, data }))
    }
}

/// Appends the collision data; hit boxes are followed by padding to a multiple of four bytes.
pub fn write_collision(buf: &mut Vec<u8>, x: &Collision, is_linked: bool)
    ensures
        extends(final(buf)@, old(buf)@),
        final(buf)@.len() >= old(buf)@.len() + 4,
        old(buf)@.len() % 16 == 0 ==> final(buf)@.len() == old(buf)@.len() + collision_len(*x),
        x.wf(is_linked) ==> collision_at(final(buf)@, old(buf)@.len() as int, is_linked) == Ok::<
            CollisionView,
            GeometryError,
        >(x@),
{
    let ghost start = buf@;
    match x {
        Collision::Box(c) => {
            let n: u16 = #[verifier::truncate] (c.box_entries.len() as u16);
            write_u16(buf, n);
            let ghost b1 = buf@;
            write_u16(buf, c.tri_per_chunk);
            let ghost b2 = buf@;
            proof {
                lemma_extends_trans(start, b1, b2);
            }
            let mut i: usize = 0;
            while i < c.box_entries.len()
                invariant
                    i <= c.box_entries@.len(),
                    extends(buf@, b2),
                    extends(b2, start),
                    b2.len() == start.len() + 4,
                    buf@.len() == b2.len() + 6 * i,
                    forall|k: int|
                        0 <= k < i ==> box_at(buf@, b2.len() + 6 * k) == #[trigger] c.box_entries@[k],
                decreases c.box_entries@.len() - i,
            {
                let e = c.box_entries[i];
                let ghost before = buf@;
                write_u8(buf, e.min_x);
                let ghost s1 = buf@;
                write_u8(buf, e.min_y);
                let ghost s2 = buf@;
                write_u8(buf, e.min_z);
                let ghost s3 = buf@;
                write_u8(buf, e.max_x);
                let ghost s4 = buf@;
                write_u8(buf, e.max_y);
                let ghost s5 = buf@;
                write_u8(buf, e.max_z);
                proof {
                    lemma_extends_trans(before, s1, s2);
                    lemma_extends_trans(before, s2, s3);
                    lemma_extends_trans(before, s3, s4);
                    lemma_extends_trans(before, s4, s5);
                    lemma_extends_trans(before, s5, buf@);
                    lemma_extends_trans(s1, s2, buf@);
                    lemma_extends_trans(s2, s3, buf@);
                    lemma_extends_trans(s3, s4, buf@);
                    lemma_extends_trans(s4, s5, buf@);
                    lemma_extends_trans(b2, before, buf@);
                }
                i = i + 1;
            }
            let ghost b3 = buf@;
            align_writer(buf, 4);
            proof {
                lemma_extends_append(b3, zeros(crate::bytes::pad_len(b3.len() as int, 4) as nat));
                lemma_extends_trans(b2, b3, buf@);
                lemma_extends_trans(start, b2, buf@);
                lemma_extends_trans(b1, b2, buf@);
                if start.len() % 16 == 0 {
                    let k = 4 + 6 * c.box_entries@.len() as int;
                    let s0 = start.len() as int;
                    assert((s0 + k) % 4 == k % 4) by (nonlinear_arith)
                        requires s0 % 16 == 0, 0 <= s0, 0 <= k;
                    assert(crate::bytes::pad_len(s0 + k, 4) == crate::bytes::pad_len(k, 4));
                }
                if x.wf(is_linked) {
                    let l = start.len() as int;
                    assert(n == c.box_entries@.len());
                    assert(u16_at(buf@, l) == n);
                    assert(u16_at(buf@, l + 2) == c.tri_per_chunk);
                    assert forall|k: int| 0 <= k < n implies box_at(buf@, b2.len() + 6 * k)
                        == c.box_entries@[k] by {
                        assert(box_at(b3, b2.len() + 6 * k) == c.box_entries@[k]);
                    }
                    assert(boxes_at(buf@, b2.len() as int, n as nat) =~= c.box_entries@);
                    assert(fits(buf@.len() as int, l + 4, 6 * n));
                }
            }
        },
        Collision::Bone(c) => {
            write_u16(buf, c.total_size);
            let ghost b1 = buf@;
            write_u16(buf, c.num_blocks);
            let ghost b2 = buf@;
            write_u16(buf, c.total_chunks_align);
            let ghost b3 = buf@;
            write_bytes(buf, &c.data);
            proof {
                lemma_extends_trans(start, b1, b2);
                lemma_extends_trans(start, b2, b3);
                lemma_extends_trans(start, b3, buf@);
                lemma_extends_trans(b1, b2, buf@);
                lemma_extends_trans(b2, b3, buf@);
                if x.wf(is_linked) {
                    let l = start.len() as int;
                    assert(buf@.subrange(l + 6, l + c.total_size) =~= c.data@);
                }
            }
        },
    }
}

/// Decoding the collision data at `p` reads the same in a buffer that agrees with this one from `lo` on.
pub proof fn lemma_collision_stable(a: Seq<u8>, b: Seq<u8>, lo: int, p: int, is_linked: bool)
    requires
        agree_from(b, a, lo),
        0 <= lo <= p,
        collision_at(a, p, is_linked) is Ok,
    ensures
        collision_at(b, p, is_linked) == collision_at(a, p, is_linked),
{
    if !is_linked {
        let n = u16_at(a, p);
        assert(boxes_at(b, p + 4, n as nat) =~= boxes_at(a, p + 4, n as nat));
    } else {
        lemma_subrange_stable(a, b, lo, p + 6, p + u16_at(a, p));
    }
}

} // verus!
