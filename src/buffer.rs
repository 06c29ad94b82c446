//! The four vertex regions of a submesh, whose strides and presence follow from flags.
use vstd::prelude::*;

use crate::bytes::{
    agree_from, check_fits, extends, fits, lemma_extends_trans, lemma_subrange_stable,
    read_bytes, write_bytes,
};
use crate::error::GeometryError;

verus! {

broadcast use vstd::std_specs::vec::axiom_spec_len;

/// The flags and counts that fix the size of each vertex region.
#[derive(Debug, Clone, Copy, PartialEq, Eq)]
pub struct VertexLayout {
    pub num_vertices: u32,
    /// Positions are three raw floats rather than four quantised `i16`.
    pub has_highres: bool,
    /// The resource is weighted: a weight region is present.
    pub is_weighted: bool,
    pub num_uv_channels: u8,
    /// The submesh's own constant-colour flag.
    pub has_const_color: bool,
    /// The mesh's constant-colour flag.
    pub has_global_const_color: bool,
}

impl VertexLayout {
    /// Bytes per vertex of the position region.
    pub open spec fn position_stride(&self) -> int {
        if self.has_highres {
            12
        } else {
            8
        }
    }

    /// Bytes per vertex of the normal/tangent/bitangent and UV region.
    pub open spec fn main_stride(&self) -> int {
        12 + 4 * self.num_uv_channels
    }

    /// Whether a colour region is present.
    pub open spec fn has_color_buffer(&self) -> bool {
        (self.is_weighted || !self.has_const_color) && !self.has_global_const_color
    }

    pub open spec fn position_size(&self) -> int {
        self.position_stride() * self.num_vertices
    }

    pub open spec fn weights_size(&self) -> int {
        if self.is_weighted {
            12 * self.num_vertices
        } else {
            0
        }
    }

    pub open spec fn main_size(&self) -> int {
        self.main_stride() * self.num_vertices
    }

    pub open spec fn colors_size(&self) -> int {
        if self.has_color_buffer() {
            4 * self.num_vertices
        } else {
            0
        }
    }

    /// Total bytes of the four regions.
    pub open spec fn total_size(&self) -> int {
        self.position_size() + self.weights_size() + self.main_size() + self.colors_size()
    }
}

/// Raw vertex regions: positions, optional weights (twelve bytes per vertex),
/// normals/tangents/bitangents with UVs, and optional RGBA colours.
#[derive(Debug, Clone, PartialEq, Eq, Default)]
pub struct VertexBuffers {
    pub position: Vec<u8>,
    pub weights: Option<Vec<u8>>,
    pub main: Vec<u8>,
    pub colors: Option<Vec<u8>>,
}

/// The contents of [`VertexBuffers`].
pub ghost struct VertexBuffersView {
    pub position: Seq<u8>,
    pub weights: Option<Seq<u8>>,
    pub main: Seq<u8>,
    pub colors: Option<Seq<u8>>,
}

/// The contents of an optional byte region.
pub open spec fn opt_bytes(v: Option<Vec<u8>>) -> Option<Seq<u8>> {
    match v {
        Some(x) => Some(x@),
        None => None,
    }
}

impl View for VertexBuffers {
    type V = VertexBuffersView;

    open spec fn view(&self) -> VertexBuffersView {
        VertexBuffersView {
            position: self.position@,
            weights: opt_bytes(self.weights),
            main: self.main@,
            colors: opt_bytes(self.colors),
        }
    }
}

impl VertexBuffers {
    /// Each region has the size and presence that `layout` prescribes, so all
    /// of them describe the same number of vertices.
    pub open spec fn wf(&self, layout: VertexLayout) -> bool {
        &&& self.position@.len() == layout.position_size()
        &&& match self.weights {
            Some(w) => layout.is_weighted && w@.len() == layout.weights_size(),
            None => !layout.is_weighted,
        }
        &&& self.main@.len() == layout.main_size()
        &&& match self.colors {
            Some(c) => layout.has_color_buffer() && c@.len() == layout.colors_size(),
            None => !layout.has_color_buffer(),
        }
    }
}

/// The vertex regions stored back to back from `p`.
pub open spec fn vertex_buffers_at(b: Seq<u8>, p: int, layout: VertexLayout) -> Result<
    VertexBuffersView,
    GeometryError,
> {
    if !fits(b.len() as int, p, layout.total_size()) {
        Err(GeometryError::Malformed(p as u64))
    } else {
        let q1 = p + layout.position_size();
        let q2 = q1 + layout.weights_size();
        let q3 = q2 + layout.main_size();
        Ok(
            VertexBuffersView {
                position: b.subrange(p, q1),
                weights: if layout.is_weighted {
                    Some(b.subrange(q1, q2))
                } else {
                    None
                },
                main: b.subrange(q2, q3),
                colors: if layout.has_color_buffer() {
                    Some(b.subrange(q3, q3 + layout.colors_size()))
                } else {
                    None
                },
            },
        )
    }
}

/// Decodes the vertex regions at `p`.
pub fn parse_vertices(b: &Vec<u8>, p: usize, layout: VertexLayout) -> (r: Result<
    VertexBuffers,
    GeometryError,
>)
    ensures
        match r {
            Ok(x) => vertex_buffers_at(b@, p as int, layout) == Ok::<
                VertexBuffersView,
                GeometryError,
            >(x@),
            Err(e) => vertex_buffers_at(b@, p as int, layout) == Err::<
                VertexBuffersView,
                GeometryError,
            >(e),
        },
{
    let n = layout.num_vertices as u64;
    let position_stride: u64 = if layout.has_highres {
        12
    } else {
        8
    };
    let main_stride: u64 = 12 + 4 * layout.num_uv_channels as u64;
    let has_color_buffer = (layout.is_weighted || !layout.has_const_color)
        && !layout.has_global_const_color;
    assert(position_stride * n <= 12 * 0xFFFF_FFFF) by (nonlinear_arith)
        requires position_stride <= 12, n <= 0xFFFF_FFFF;
    assert(main_stride * n <= 1032 * 0xFFFF_FFFF) by (nonlinear_arith)
        requires main_stride <= 1032, n <= 0xFFFF_FFFF;
    let position_size = position_stride * n;
    let weights_size: u64 = if layout.is_weighted {
        12 * n
    } else {
        0
    };
    let main_size = main_stride * n;
    let colors_size: u64 = if has_color_buffer {
        4 * n
    } else {
        0
    };
    check_fits(b, p, position_size + weights_size + main_size + colors_size)?;
    let q1 = p + position_size as usize;
    let q2 = q1 + weights_size as usize;
    let q3 = q2 + main_size as usize;
    let position = read_bytes(b, p, position_size as usize);
    let weights = if layout.is_weighted {
        Some(read_bytes(b, q1, weights_size as usize))
    } else {
        None
    };
    let main = read_bytes(b, q2, main_size as usize);
    let colors = if has_color_buffer {
        Some(read_bytes(b, q3, colors_size as usize))
    } else {
        None
    };
    Ok(VertexBuffers { position, weights, main, colors })
}

/// The bytes of an optional region: none when it is absent.
pub open spec fn opt_region(r: Option<Seq<u8>>) -> Seq<u8> {
    match r {
        Some(s) => s,
        None => Seq::empty(),
    }
}

/// The regions that are present, back to back: positions, weights, main, colours.
pub open spec fn vertex_bytes(v: VertexBuffersView) -> Seq<u8> {
    v.position + opt_region(v.weights) + v.main + opt_region(v.colors)
}

/// Appends the regions that are present, in order.
pub fn write_vertex_buffers(buf: &mut Vec<u8>, x: &VertexBuffers, layout: VertexLayout)
    ensures
        extends(final(buf)@, old(buf)@),
        final(buf)@ == old(buf)@ + vertex_bytes(x@),
        x.wf(layout) ==> vertex_buffers_at(final(buf)@, old(buf)@.len() as int, layout) == Ok::<
            VertexBuffersView,
            GeometryError,
        >(x@),
{
    let ghost b0 = buf@;
    write_bytes(buf, &x.position);
    let ghost b1 = buf@;
    match &x.weights {
        Some(w) => write_bytes(buf, w),
        None => {},
    }
    let ghost b2 = buf@;
    write_bytes(buf, &x.main);
    let ghost b3 = buf@;
    match &x.colors {
        Some(c) => write_bytes(buf, c),
        None => {},
    }
    proof {
        assert(b2 =~= b1 + opt_region(opt_bytes(x.weights)));
        assert(buf@ =~= b3 + opt_region(opt_bytes(x.colors)));
        assert(buf@ =~= b0 + vertex_bytes(x@));
        lemma_extends_trans(b0, b1, b2);
        lemma_extends_trans(b0, b2, b3);
        lemma_extends_trans(b0, b3, buf@);
        lemma_extends_trans(b1, b2, buf@);
        lemma_extends_trans(b2, b3, buf@);
        if x.wf(layout) {
            let l = b0.len() as int;
            lemma_subrange_stable(b1, buf@, 0, l, b1.len() as int);
            assert(b1.subrange(l, b1.len() as int) =~= x.position@);
            lemma_subrange_stable(b2, buf@, 0, b1.len() as int, b2.len() as int);
            match &x.weights {
                Some(w) => assert(b2.subrange(b1.len() as int, b2.len() as int) =~= w@),
                None => {},
            }
            lemma_subrange_stable(b3, buf@, 0, b2.len() as int, b3.len() as int);
            assert(b3.subrange(b2.len() as int, b3.len() as int) =~= x.main@);
            match &x.colors {
                Some(c) => assert(buf@.subrange(b3.len() as int, buf@.len() as int) =~= c@),
                None => {},
            }
        }
    }
}

/// Decoding the vertex regions at `p` reads the same in a buffer that agrees with this one from `lo` on.
pub proof fn lemma_vertex_buffers_stable(
    a: Seq<u8>,
    b: Seq<u8>,
    lo: int,
    p: int,
    layout: VertexLayout,
)
    requires
        agree_from(b, a, lo),
        0 <= lo <= p,
        vertex_buffers_at(a, p, layout) is Ok,
    ensures
        vertex_buffers_at(b, p, layout) == vertex_buffers_at(a, p, layout),
{
    let q1 = p + layout.position_size();
    let q2 = q1 + layout.weights_size();
    let q3 = q2 + layout.main_size();
    lemma_subrange_stable(a, b, lo, p, q1);
    lemma_subrange_stable(a, b, lo, q1, q2);
    lemma_subrange_stable(a, b, lo, q2, q3);
    lemma_subrange_stable(a, b, lo, q3, q3 + layout.colors_size());
}

} // verus!
