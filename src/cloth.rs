//! Cloth data hanging off a submesh: per-vertex skinning followers, or a
//! simulation pack with its properties, grid adjacency and auxiliary records.
use vstd::prelude::*;

use crate::bytes::{
    agree_from, check_fits, extends, fits, lemma_extends_trans, lemma_u32s_stable, read_u16,
    read_u32, read_u32s, u16_at, u32_at, u32s_at, write_u16, write_u32, write_u32s, write_u8,
};
use crate::error::GeometryError;
use crate::math::Vector3;

verus! {

broadcast use vstd::std_specs::vec::axiom_spec_len;

/// A grid neighbour slot: `0xFFFF` marks "no neighbour in that direction".
pub open spec fn neighbor(v: u16) -> Option<u16> {
    if v == 0xFFFF {
        None
    } else {
        Some(v)
    }
}

/// The stored form of a neighbour slot.
pub open spec fn neighbor_raw(n: Option<u16>) -> u16 {
    match n {
        Some(v) => v,
        None => 0xFFFF,
    }
}

/// Adjacency of one cloth grid vertex: up to eight neighbouring vertex indices.
#[derive(Debug, Clone, Copy, PartialEq, Eq)]
pub struct GridPoint {
    pub down: Option<u16>,
    pub down_right: Option<u16>,
    pub right: Option<u16>,
    pub up_right: Option<u16>,
    pub up: Option<u16>,
    pub up_left: Option<u16>,
    pub left: Option<u16>,
    pub down_left: Option<u16>,
}

/// A direction from a grid vertex to one of its neighbours.
#[derive(Debug, Clone, Copy, PartialEq, Eq)]
pub enum Neighbor {
    Down,
    DownRight,
    Right,
    UpRight,
    Up,
    UpLeft,
    Left,
    DownLeft,
}

impl GridPoint {
    /// The neighbour in direction `n`, if there is one.
    pub fn index(&self, n: Neighbor) -> (r: Option<u16>)
        ensures
            r == match n {
                Neighbor::Down => self.down,
                Neighbor::DownRight => self.down_right,
                Neighbor::Right => self.right,
                Neighbor::UpRight => self.up_right,
                Neighbor::Up => self.up,
                Neighbor::UpLeft => self.up_left,
                Neighbor::Left => self.left,
                Neighbor::DownLeft => self.down_left,
            },
    {
        match n {
            Neighbor::Down => self.down,
            Neighbor::DownRight => self.down_right,
            Neighbor::Right => self.right,
            Neighbor::UpRight => self.up_right,
            Neighbor::Up => self.up,
            Neighbor::UpLeft => self.up_left,
            Neighbor::Left => self.left,
            Neighbor::DownLeft => self.down_left,
        }
    }
}

/// The grid point stored at `p` (sixteen bytes).
pub open spec fn grid_point_at(b: Seq<u8>, p: int) -> GridPoint {
    GridPoint {
        down: neighbor(u16_at(b, p)),
        down_right: neighbor(u16_at(b, p + 2)),
        right: neighbor(u16_at(b, p + 4)),
        up_right: neighbor(u16_at(b, p + 6)),
        up: neighbor(u16_at(b, p + 8)),
        up_left: neighbor(u16_at(b, p + 10)),
        left: neighbor(u16_at(b, p + 12)),
        down_left: neighbor(u16_at(b, p + 14)),
    }
}

impl GridPoint {
    /// No slot holds the sentinel itself as a neighbour index.
    pub open spec fn wf(&self) -> bool {
        &&& self.down != Some(0xFFFFu16)
        &&& self.down_right != Some(0xFFFFu16)
        &&& self.right != Some(0xFFFFu16)
        &&& self.up_right != Some(0xFFFFu16)
        &&& self.up != Some(0xFFFFu16)
        &&& self.up_left != Some(0xFFFFu16)
        &&& self.left != Some(0xFFFFu16)
        &&& self.down_left != Some(0xFFFFu16)
    }
}

fn read_neighbor(b: &Vec<u8>, p: usize) -> (r: Option<u16>)
    requires
        p + 2 <= b@.len(),
    ensures
        r == neighbor(u16_at(b@, p as int)),
{
    let v = read_u16(b, p);
    if v == 0xFFFF {
        None
    } else {
        Some(v)
    }
}

/// Decodes the grid point at `p`.
pub fn read_grid_point(b: &Vec<u8>, p: usize) -> (r: GridPoint)
    requires
        p + 16 <= b.len(),
    ensures
        r == grid_point_at(b@, p as int),
{
    GridPoint {
        down: read_neighbor(b, p),
        down_right: read_neighbor(b, p + 2),
        right: read_neighbor(b, p + 4),
        up_right: read_neighbor(b, p + 6),
        up: read_neighbor(b, p + 8),
        up_left: read_neighbor(b, p + 10),
        left: read_neighbor(b, p + 12),
        down_left: read_neighbor(b, p + 14),
    }
}

fn write_neighbor(buf: &mut Vec<u8>, n: Option<u16>)
    ensures
        extends(final(buf)@, old(buf)@),
        final(buf)@.len() == old(buf)@.len() + 2,
        u16_at(final(buf)@, old(buf)@.len() as int) == neighbor_raw(n),
{
    match n {
        Some(v) => write_u16(buf, v),
        None => write_u16(buf, 0xFFFF),
    }
}

/// Appends the sixteen bytes of a grid point.
pub fn write_grid_point(buf: &mut Vec<u8>, g: &GridPoint)
    ensures
        extends(final(buf)@, old(buf)@),
        final(buf)@.len() == old(buf)@.len() + 16,
        g.wf() ==> grid_point_at(final(buf)@, old(buf)@.len() as int) == *g,
{
    let ghost b0 = buf@;
    write_neighbor(buf, g.down);
    let ghost b1 = buf@;
    write_neighbor(buf, g.down_right);
    let ghost b2 = buf@;
    write_neighbor(buf, g.right);
    let ghost b3 = buf@;
    write_neighbor(buf, g.up_right);
    let ghost b4 = buf@;
    write_neighbor(buf, g.up);
    let ghost b5 = buf@;
    write_neighbor(buf, g.up_left);
    let ghost b6 = buf@;
    write_neighbor(buf, g.left);
    let ghost b7 = buf@;
    write_neighbor(buf, g.down_left);
    proof {
        crate::bytes::lemma_extends_trans(b0, b1, b2);
        crate::bytes::lemma_extends_trans(b0, b2, b3);
        crate::bytes::lemma_extends_trans(b0, b3, b4);
        crate::bytes::lemma_extends_trans(b0, b4, b5);
        crate::bytes::lemma_extends_trans(b0, b5, b6);
        crate::bytes::lemma_extends_trans(b0, b6, b7);
        crate::bytes::lemma_extends_trans(b0, b7, buf@);
    }
}


/// Decodes `n` consecutive grid points starting at `p`.
pub open spec fn grid_points_at(b: Seq<u8>, p: int, n: nat) -> Seq<GridPoint> {
    Seq::new(n, |i: int| grid_point_at(b, p + 16 * i))
}

/// Reads `n` grid points starting at `p`.
pub fn read_grid_points(b: &Vec<u8>, p: usize, n: usize) -> (r: Vec<GridPoint>)
    requires
        p + 16 * n <= b.len(),
    ensures
        r@ == grid_points_at(b@, p as int, n as nat),
{
    let mut r: Vec<GridPoint> = Vec::new();
    let mut i: usize = 0;
    while i < n
        invariant
            i <= n,
            p + 16 * n <= b.len(),
            r@ == grid_points_at(b@, p as int, i as nat),
        decreases n - i,
    {
        let g = read_grid_point(b, p + 16 * i);
        r.push(g);
        i = i + 1;
        assert(r@ =~= grid_points_at(b@, p as int, i as nat));
    }
    r
}

/// Appends the grid points of `v`, sixteen bytes each.
pub fn write_grid_points(buf: &mut Vec<u8>, v: &Vec<GridPoint>)
    ensures
        extends(final(buf)@, old(buf)@),
        final(buf)@.len() == old(buf)@.len() + 16 * v@.len(),
        (forall|i: int| 0 <= i < v@.len() ==> (#[trigger] v@[i]).wf()) ==> grid_points_at(
            final(buf)@,
            old(buf)@.len() as int,
            v@.len(),
        ) == v@,
{
    let ghost start = buf@;
    let mut i: usize = 0;
    while i < v.len()
        invariant
            i <= v@.len(),
            extends(buf@, start),
            buf@.len() == start.len() + 16 * i,
            forall|k: int|
                0 <= k < i && (#[trigger] v@[k]).wf() ==> grid_point_at(buf@, start.len() + 16 * k)
                    == v@[k],
        decreases v@.len() - i,
    {
        let ghost before = buf@;
        write_grid_point(buf, &v[i]);
        proof {
            lemma_extends_trans(start, before, buf@);
        }
        i = i + 1;
    }
    proof {
        if forall|i: int| 0 <= i < v@.len() ==> (#[trigger] v@[i]).wf() {
            assert(grid_points_at(buf@, start.len() as int, v@.len()) =~= v@);
        }
    }
}

/// One per-vertex cloth follower record (twenty bytes).
#[derive(Debug, Clone, Copy, PartialEq, Eq)]
pub struct ClothSkinning {
    pub indices: [u16; 4],
    pub weights: [u16; 4],
    pub simulation_bias: u16,
    pub simulation_weight: u16,
}

/// The contents of a [`ClothSkinning`].
pub ghost struct ClothSkinningView {
    pub indices: Seq<u16>,
    pub weights: Seq<u16>,
    pub simulation_bias: u16,
    pub simulation_weight: u16,
}

impl View for ClothSkinning {
    type V = ClothSkinningView;

    open spec fn view(&self) -> ClothSkinningView {
        ClothSkinningView {
            indices: self.indices@,
            weights: self.weights@,
            simulation_bias: self.simulation_bias,
            simulation_weight: self.simulation_weight,
        }
    }
}

/// The follower record stored at `p`.
pub open spec fn skinning_at(b: Seq<u8>, p: int) -> ClothSkinningView {
    ClothSkinningView {
        indices: seq![u16_at(b, p), u16_at(b, p + 2), u16_at(b, p + 4), u16_at(b, p + 6)],
        weights: seq![u16_at(b, p + 8), u16_at(b, p + 10), u16_at(b, p + 12), u16_at(b, p + 14)],
        simulation_bias: u16_at(b, p + 16),
        simulation_weight: u16_at(b, p + 18),
    }
}

/// Decodes `n` consecutive follower records starting at `p`.
pub open spec fn skinnings_at(b: Seq<u8>, p: int, n: nat) -> Seq<ClothSkinningView> {
    Seq::new(n, |i: int| skinning_at(b, p + 20 * i))
}

/// The contents of a list of follower records.
pub open spec fn skinnings_view(v: Seq<ClothSkinning>) -> Seq<ClothSkinningView> {
    Seq::new(v.len(), |i: int| v[i]@)
}

/// Decodes the follower record at `p`.
pub fn read_skinning(b: &Vec<u8>, p: usize) -> (r: ClothSkinning)
    requires
        p + 20 <= b.len(),
    ensures
        r@ == skinning_at(b@, p as int),
{
    let r = ClothSkinning {
        indices: [read_u16(b, p), read_u16(b, p + 2), read_u16(b, p + 4), read_u16(b, p + 6)],
        weights: [read_u16(b, p + 8), read_u16(b, p + 10), read_u16(b, p + 12), read_u16(b, p + 14)],
        simulation_bias: read_u16(b, p + 16),
        simulation_weight: read_u16(b, p + 18),
    };
    assert(r.indices@ =~= skinning_at(b@, p as int).indices);
    assert(r.weights@ =~= skinning_at(b@, p as int).weights);
    r
}

/// Appends the twenty bytes of a follower record.
pub fn write_skinning(buf: &mut Vec<u8>, s: &ClothSkinning)
    ensures
        extends(final(buf)@, old(buf)@),
        final(buf)@.len() == old(buf)@.len() + 20,
        skinning_at(final(buf)@, old(buf)@.len() as int) == s@,
{
    let ghost b0 = buf@;
    let mut k: usize = 0;
    while k < 4
        invariant
            k <= 4,
            extends(buf@, b0),
            buf@.len() == b0.len() + 2 * k,
            forall|j: int| 0 <= j < k ==> u16_at(buf@, b0.len() + 2 * j) == #[trigger] s.indices@[j],
        decreases 4 - k,
    {
        let ghost before = buf@;
        write_u16(buf, s.indices[k]);
        proof { lemma_extends_trans(b0, before, buf@); }
        k = k + 1;
    }
    k = 0;
    while k < 4
        invariant
            k <= 4,
            extends(buf@, b0),
            buf@.len() == b0.len() + 8 + 2 * k,
            forall|j: int| 0 <= j < 4 ==> u16_at(buf@, b0.len() + 2 * j) == #[trigger] s.indices@[j],
            forall|j: int| 0 <= j < k ==> u16_at(buf@, b0.len() + 8 + 2 * j) == #[trigger] s.weights@[j],
        decreases 4 - k,
    {
        let ghost before = buf@;
        write_u16(buf, s.weights[k]);
        proof { lemma_extends_trans(b0, before, buf@); }
        k = k + 1;
    }
    let ghost b1 = buf@;
    write_u16(buf, s.simulation_bias);
    let ghost b2 = buf@;
    write_u16(buf, s.simulation_weight);
    proof {
        lemma_extends_trans(b0, b1, b2);
        lemma_extends_trans(b0, b2, buf@);
        lemma_extends_trans(b1, b2, buf@);
        let l = b0.len() as int;
        assert(skinning_at(buf@, l).indices =~= s.indices@);
        assert(skinning_at(buf@, l).weights =~= s.weights@);
    }
}

/// Reads `n` follower records starting at `p`.
pub fn read_skinnings(b: &Vec<u8>, p: usize, n: usize) -> (r: Vec<ClothSkinning>)
    requires
        p + 20 * n <= b.len(),
    ensures
        skinnings_view(r@) == skinnings_at(b@, p as int, n as nat),
{
    let mut r: Vec<ClothSkinning> = Vec::new();
    let mut i: usize = 0;
    while i < n
        invariant
            i <= n,
            p + 20 * n <= b.len(),
            r@.len() == i,
            skinnings_view(r@) == skinnings_at(b@, p as int, i as nat),
        decreases n - i,
    {
        let s = read_skinning(b, p + 20 * i);
        let ghost prev = r@;
        r.push(s);
        i = i + 1;
        assert forall|k: int| 0 <= k < i implies skinnings_view(r@)[k] == skinnings_at(
            b@,
            p as int,
            i as nat,
        )[k] by {
            if k < i - 1 {
                assert(r@[k] == prev[k]);
                assert(skinnings_view(prev)[k] == skinnings_at(b@, p as int, (i - 1) as nat)[k]);
            }
        }
        assert(skinnings_view(r@) =~= skinnings_at(b@, p as int, i as nat));
    }
    r
}

/// Appends the follower records of `v`, twenty bytes each.
pub fn write_skinnings(buf: &mut Vec<u8>, v: &Vec<ClothSkinning>)
    ensures
        extends(final(buf)@, old(buf)@),
        final(buf)@.len() == old(buf)@.len() + 20 * v@.len(),
        skinnings_at(final(buf)@, old(buf)@.len() as int, v@.len()) == skinnings_view(v@),
{
    let ghost start = buf@;
    let mut i: usize = 0;
    while i < v.len()
        invariant
            i <= v@.len(),
            extends(buf@, start),
            buf@.len() == start.len() + 20 * i,
            forall|k: int|
                0 <= k < i ==> skinning_at(buf@, start.len() + 20 * k) == (#[trigger] v@[k])@,
        decreases v@.len() - i,
    {
        let ghost before = buf@;
        write_skinning(buf, &v[i]);
        proof {
            lemma_extends_trans(start, before, buf@);
            assert forall|k: int| 0 <= k < i implies skinning_at(buf@, start.len() + 20 * k) == (
            #[trigger] v@[k])@ by {
                assert(skinning_at(before, start.len() + 20 * k) == v@[k]@);
            }
        }
        i = i + 1;
    }
    assert(skinnings_at(buf@, start.len() as int, v@.len()) =~= skinnings_view(v@));
}


/// An auxiliary record of a simulation pack (two `u16` values).
#[derive(Debug, Clone, Copy, PartialEq, Eq)]
pub struct UnkStruct {
    pub unk1: u16,
    pub unk2: u16,
}

/// The auxiliary record stored at `p`.
pub open spec fn unk_at(b: Seq<u8>, p: int) -> UnkStruct {
    UnkStruct { unk1: u16_at(b, p), unk2: u16_at(b, p + 2) }
}

/// Decodes `n` consecutive auxiliary records starting at `p`.
pub open spec fn unks_at(b: Seq<u8>, p: int, n: nat) -> Seq<UnkStruct> {
    Seq::new(n, |i: int| unk_at(b, p + 4 * i))
}

/// Reads `n` auxiliary records starting at `p`.
pub fn read_unks(b: &Vec<u8>, p: usize, n: usize) -> (r: Vec<UnkStruct>)
    requires
        p + 4 * n <= b.len(),
    ensures
        r@ == unks_at(b@, p as int, n as nat),
{
    let mut r: Vec<UnkStruct> = Vec::new();
    let mut i: usize = 0;
    while i < n
        invariant
            i <= n,
            p + 4 * n <= b.len(),
            r@ == unks_at(b@, p as int, i as nat),
        decreases n - i,
    {
        let q = p + 4 * i;
        r.push(UnkStruct { unk1: read_u16(b, q), unk2: read_u16(b, q + 2) });
        i = i + 1;
        assert(r@ =~= unks_at(b@, p as int, i as nat));
    }
    r
}

/// Appends the auxiliary records of `v`, four bytes each.
pub fn write_unks(buf: &mut Vec<u8>, v: &Vec<UnkStruct>)
    ensures
        extends(final(buf)@, old(buf)@),
        final(buf)@.len() == old(buf)@.len() + 4 * v@.len(),
        unks_at(final(buf)@, old(buf)@.len() as int, v@.len()) == v@,
{
    let ghost start = buf@;
    let mut i: usize = 0;
    while i < v.len()
        invariant
            i <= v@.len(),
            extends(buf@, start),
            buf@.len() == start.len() + 4 * i,
            forall|k: int| 0 <= k < i ==> unk_at(buf@, start.len() + 4 * k) == #[trigger] v@[k],
        decreases v@.len() - i,
    {
        let ghost b0 = buf@;
        write_u16(buf, v[i].unk1);
        let ghost b1 = buf@;
        write_u16(buf, v[i].unk2);
        proof {
            lemma_extends_trans(b0, b1, buf@);
            lemma_extends_trans(start, b0, buf@);
        }
        i = i + 1;
    }
    assert(unks_at(buf@, start.len() as int, v@.len()) =~= v@);
}

/// The twelve-byte header of a simulation pack, which declares its payload sizes.
#[derive(Debug, Clone, Copy, PartialEq, Eq, Default)]
pub struct PackHeader {
    pub data_size: u32,
    pub properties_size: u16,
    pub unknown_count: u16,
    pub grid_size: u32,
}

/// How bending is constrained.
#[derive(Debug, Clone, Copy, PartialEq, Eq)]
pub enum ClothBendConstrainType {
    Stick,
    Triangle,
}

/// How stretching is constrained.
#[derive(Debug, Clone, Copy, PartialEq, Eq)]
pub enum ClothStretchConstrainType {
    Anchor,
    Lra,
    Unconstrained,
}

/// The bend constraint a stored word names, if any.
pub open spec fn bend_type_of(v: u32) -> Option<ClothBendConstrainType> {
    if v == 0 {
        Some(ClothBendConstrainType::Stick)
    } else if v == 1 {
        Some(ClothBendConstrainType::Triangle)
    } else {
        None
    }
}

/// The stretch constraint a stored word names, if any.
pub open spec fn stretch_type_of(v: u32) -> Option<ClothStretchConstrainType> {
    if v == 0 {
        Some(ClothStretchConstrainType::Anchor)
    } else if v == 1 {
        Some(ClothStretchConstrainType::Lra)
    } else if v == 2 {
        Some(ClothStretchConstrainType::Unconstrained)
    } else {
        None
    }
}

/// The direction a stored word names, if any.
pub open spec fn neighbor_of(v: u32) -> Option<Neighbor> {
    if v == 0 {
        Some(Neighbor::Down)
    } else if v == 1 {
        Some(Neighbor::DownRight)
    } else if v == 2 {
        Some(Neighbor::Right)
    } else if v == 3 {
        Some(Neighbor::UpRight)
    } else if v == 4 {
        Some(Neighbor::Up)
    } else if v == 5 {
        Some(Neighbor::UpLeft)
    } else if v == 6 {
        Some(Neighbor::Left)
    } else if v == 7 {
        Some(Neighbor::DownLeft)
    } else {
        None
    }
}

fn bend_type_from(v: u32) -> (r: Option<ClothBendConstrainType>)
    ensures
        r == bend_type_of(v),
{
    if v == 0 {
        Some(ClothBendConstrainType::Stick)
    } else if v == 1 {
        Some(ClothBendConstrainType::Triangle)
    } else {
        None
    }
}

/// The stored word of a bend constraint.
pub open spec fn bend_word(t: ClothBendConstrainType) -> u32 {
    match t {
        ClothBendConstrainType::Stick => 0,
        ClothBendConstrainType::Triangle => 1,
    }
}

/// The stored word of a stretch constraint.
pub open spec fn stretch_word(t: ClothStretchConstrainType) -> u32 {
    match t {
        ClothStretchConstrainType::Anchor => 0,
        ClothStretchConstrainType::Lra => 1,
        ClothStretchConstrainType::Unconstrained => 2,
    }
}

fn bend_type_value(t: ClothBendConstrainType) -> (r: u32)
    ensures
        r == bend_word(t),
        bend_type_of(r) == Some(t),
{
    match t {
        ClothBendConstrainType::Stick => 0,
        ClothBendConstrainType::Triangle => 1,
    }
}

fn stretch_type_from(v: u32) -> (r: Option<ClothStretchConstrainType>)
    ensures
        r == stretch_type_of(v),
{
    if v == 0 {
        Some(ClothStretchConstrainType::Anchor)
    } else if v == 1 {
        Some(ClothStretchConstrainType::Lra)
    } else if v == 2 {
        Some(ClothStretchConstrainType::Unconstrained)
    } else {
        None
    }
}

fn stretch_type_value(t: ClothStretchConstrainType) -> (r: u32)
    ensures
        r == stretch_word(t),
        stretch_type_of(r) == Some(t),
{
    match t {
        ClothStretchConstrainType::Anchor => 0,
        ClothStretchConstrainType::Lra => 1,
        ClothStretchConstrainType::Unconstrained => 2,
    }
}

fn neighbor_from(v: u32) -> (r: Option<Neighbor>)
    ensures
        r == neighbor_of(v),
{
    if v == 0 {
        Some(Neighbor::Down)
    } else if v == 1 {
        Some(Neighbor::DownRight)
    } else if v == 2 {
        Some(Neighbor::Right)
    } else if v == 3 {
        Some(Neighbor::UpRight)
    } else if v == 4 {
        Some(Neighbor::Up)
    } else if v == 5 {
        Some(Neighbor::UpLeft)
    } else if v == 6 {
        Some(Neighbor::Left)
    } else if v == 7 {
        Some(Neighbor::DownLeft)
    } else {
        None
    }
}

fn neighbor_value(n: Neighbor) -> (r: u32)
    ensures
        r == neighbor_word(n),
        neighbor_of(r) == Some(n),
{
    match n {
        Neighbor::Down => 0,
        Neighbor::DownRight => 1,
        Neighbor::Right => 2,
        Neighbor::UpRight => 3,
        Neighbor::Up => 4,
        Neighbor::UpLeft => 5,
        Neighbor::Left => 6,
        Neighbor::DownLeft => 7,
    }
}

/// Constraint settings of a cloth simulation. The skinning constraint scale is
/// one float in the legacy layout and a vector in the newer one; floats are
/// held as bit patterns.
#[derive(Debug, Clone, Copy, PartialEq, Eq)]
pub struct ConstrainProperties {
    pub shear_stiffness: u32,
    pub bend_stiffness: u32,
    pub bend_curvature: u32,
    pub skinning_constrain_scale: Option<u32>,
    pub skinning_constrain_scale_v: Option<Vector3>,
    pub max_motion: u32,
    pub anchor_stretch: u32,
    pub lra_stretch: u32,
    pub parent_dist_stretch: u32,
    pub bend_constrain_type: ClothBendConstrainType,
    pub stretch_constrain_type: ClothStretchConstrainType,
    pub num_constrain_iterations: u32,
    pub anchor_stretch_direction: [Neighbor; 4],
    pub num_anchor_stretch_direction: u32,
    pub use_parent_dist_constrains: bool,
    pub use_sphere_skinning_constrains: bool,
    pub use_pos_normal_constrains: bool,
    pub use_neg_normal_constrains: bool,
}

/// The contents of [`ConstrainProperties`].
pub ghost struct ConstrainPropertiesView {
    pub shear_stiffness: u32,
    pub bend_stiffness: u32,
    pub bend_curvature: u32,
    pub skinning_constrain_scale: Option<u32>,
    pub skinning_constrain_scale_v: Option<Vector3>,
    pub max_motion: u32,
    pub anchor_stretch: u32,
    pub lra_stretch: u32,
    pub parent_dist_stretch: u32,
    pub bend_constrain_type: ClothBendConstrainType,
    pub stretch_constrain_type: ClothStretchConstrainType,
    pub num_constrain_iterations: u32,
    pub anchor_stretch_direction: Seq<Neighbor>,
    pub num_anchor_stretch_direction: u32,
    pub use_parent_dist_constrains: bool,
    pub use_sphere_skinning_constrains: bool,
    pub use_pos_normal_constrains: bool,
    pub use_neg_normal_constrains: bool,
}

impl View for ConstrainProperties {
    type V = ConstrainPropertiesView;

    open spec fn view(&self) -> ConstrainPropertiesView {
        ConstrainPropertiesView {
            shear_stiffness: self.shear_stiffness,
            bend_stiffness: self.bend_stiffness,
            bend_curvature: self.bend_curvature,
            skinning_constrain_scale: self.skinning_constrain_scale,
            skinning_constrain_scale_v: self.skinning_constrain_scale_v,
            max_motion: self.max_motion,
            anchor_stretch: self.anchor_stretch,
            lra_stretch: self.lra_stretch,
            parent_dist_stretch: self.parent_dist_stretch,
            bend_constrain_type: self.bend_constrain_type,
            stretch_constrain_type: self.stretch_constrain_type,
            num_constrain_iterations: self.num_constrain_iterations,
            anchor_stretch_direction: self.anchor_stretch_direction@,
            num_anchor_stretch_direction: self.num_anchor_stretch_direction,
            use_parent_dist_constrains: self.use_parent_dist_constrains,
            use_sphere_skinning_constrains: self.use_sphere_skinning_constrains,
            use_pos_normal_constrains: self.use_pos_normal_constrains,
            use_neg_normal_constrains: self.use_neg_normal_constrains,
        }
    }
}

/// Physical settings of a cloth simulation (floats held as bit patterns).
#[derive(Debug, Clone, PartialEq, Eq)]
pub struct SimulationProperties {
    pub root_bone: u32,
    pub frequency: u32,
    pub collision_offset: u32,
    pub damping: u32,
    pub gravity: Vector3,
    pub drag_constant: u32,
    pub wind_constant: u32,
    pub zbias: u32,
    pub collision_groups: u32,
    pub use_per_vertex_stiffness: bool,
    pub use_per_vertex_damping: bool,
    pub use_per_vertex_skinning: bool,
    pub constrain_properties: ConstrainProperties,
    /// Six trailing words of the newer layout; empty in the legacy one.
    pub unknown: Vec<u32>,
}

/// The contents of [`SimulationProperties`].
pub ghost struct SimulationPropertiesView {
    pub root_bone: u32,
    pub frequency: u32,
    pub collision_offset: u32,
    pub damping: u32,
    pub gravity: Vector3,
    pub drag_constant: u32,
    pub wind_constant: u32,
    pub zbias: u32,
    pub collision_groups: u32,
    pub use_per_vertex_stiffness: bool,
    pub use_per_vertex_damping: bool,
    pub use_per_vertex_skinning: bool,
    pub constrain_properties: ConstrainPropertiesView,
    pub unknown: Seq<u32>,
}

impl View for SimulationProperties {
    type V = SimulationPropertiesView;

    open spec fn view(&self) -> SimulationPropertiesView {
        SimulationPropertiesView {
            root_bone: self.root_bone,
            frequency: self.frequency,
            collision_offset: self.collision_offset,
            damping: self.damping,
            gravity: self.gravity,
            drag_constant: self.drag_constant,
            wind_constant: self.wind_constant,
            zbias: self.zbias,
            collision_groups: self.collision_groups,
            use_per_vertex_stiffness: self.use_per_vertex_stiffness,
            use_per_vertex_damping: self.use_per_vertex_damping,
            use_per_vertex_skinning: self.use_per_vertex_skinning,
            constrain_properties: self.constrain_properties@,
            unknown: self.unknown@,
        }
    }
}

impl SimulationProperties {
    /// Whether the block uses the newer layout (a vector skinning scale and six trailing words).
    pub open spec fn spec_is_new_format(&self) -> bool {
        self.constrain_properties.skinning_constrain_scale_v is Some
    }

    /// Whether the block uses the newer layout.
    pub fn is_new_format(&self) -> (r: bool)
        ensures
            r == self.spec_is_new_format(),
    {
        self.constrain_properties.skinning_constrain_scale_v.is_some()
    }

    /// The fields agree on one layout.
    pub open spec fn wf(&self) -> bool {
        if self.spec_is_new_format() {
            &&& self.constrain_properties.skinning_constrain_scale is None
            &&& self.unknown@.len() == 6
        } else {
            &&& self.constrain_properties.skinning_constrain_scale is Some
            &&& self.unknown@.len() == 0
        }
    }
}

/// The simulation properties stored at `p` in the layout `new_format` selects
/// (0x94 bytes, else 0x74): eleven words, three flag bytes and a pad byte, the
/// constraint words, four flag bytes, then six words in the newer layout.
#[verifier::opaque]
pub open spec fn sim_props_at(b: Seq<u8>, p: int, new_format: bool) -> Result<
    SimulationPropertiesView,
    GeometryError,
> {
    let size = if new_format {
        0x94int
    } else {
        0x74int
    };
    if !fits(b.len() as int, p, size) {
        Err(GeometryError::Malformed(p as u64))
    } else {
        let w = u32s_at(b, p, 11);
        let ns = if new_format {
            3int
        } else {
            1int
        };
        let head = u32s_at(b, p + 48, 3);
        let sc = u32s_at(b, p + 60, ns as nat);
        let t = u32s_at(b, p + 60 + 4 * ns, 12);
        let k = p + 108 + 4 * ns;
        if bend_type_of(t[4]) is None || stretch_type_of(t[5]) is None || neighbor_of(t[7]) is None
            || neighbor_of(t[8]) is None || neighbor_of(t[9]) is None || neighbor_of(t[10]) is None {
            Err(GeometryError::Malformed(p as u64))
        } else {
            Ok(
                SimulationPropertiesView {
                    root_bone: w[0],
                    frequency: w[1],
                    collision_offset: w[2],
                    damping: w[3],
                    gravity: Vector3 { x: w[4], y: w[5], z: w[6] },
                    drag_constant: w[7],
                    wind_constant: w[8],
                    zbias: w[9],
                    collision_groups: w[10],
                    use_per_vertex_stiffness: b[p + 44] > 0,
                    use_per_vertex_damping: b[p + 45] > 0,
                    use_per_vertex_skinning: b[p + 46] > 0,
                    constrain_properties: ConstrainPropertiesView {
                        shear_stiffness: head[0],
                        bend_stiffness: head[1],
                        bend_curvature: head[2],
                        skinning_constrain_scale: if new_format {
                            None
                        } else {
                            Some(sc[0])
                        },
                        skinning_constrain_scale_v: if new_format {
                            Some(Vector3 { x: sc[0], y: sc[1], z: sc[2] })
                        } else {
                            None
                        },
                        max_motion: t[0],
                        anchor_stretch: t[1],
                        lra_stretch: t[2],
                        parent_dist_stretch: t[3],
                        bend_constrain_type: bend_type_of(t[4])->0,
                        stretch_constrain_type: stretch_type_of(t[5])->0,
                        num_constrain_iterations: t[6],
                        anchor_stretch_direction: seq![
                            neighbor_of(t[7])->0,
                            neighbor_of(t[8])->0,
                            neighbor_of(t[9])->0,
                            neighbor_of(t[10])->0,
                        ],
                        num_anchor_stretch_direction: t[11],
                        use_parent_dist_constrains: b[k] > 0,
                        use_sphere_skinning_constrains: b[k + 1] > 0,
                        use_pos_normal_constrains: b[k + 2] > 0,
                        use_neg_normal_constrains: b[k + 3] > 0,
                    },
                    unknown: if new_format {
                        u32s_at(b, k + 4, 6)
                    } else {
                        Seq::empty()
                    },
                },
            )
        }
    }
}

/// Decodes the simulation properties at `p` in the layout `new_format` selects.
pub fn read_sim_props(b: &Vec<u8>, p: usize, new_format: bool) -> (r: Result<
    SimulationProperties,
    GeometryError,
>)
    ensures
        match r {
            Ok(x) => sim_props_at(b@, p as int, new_format) == Ok::<
                SimulationPropertiesView,
                GeometryError,
            >(x@),
            Err(e) => sim_props_at(b@, p as int, new_format) == Err::<
                SimulationPropertiesView,
                GeometryError,
            >(e),
        },
{
    proof {
        reveal(sim_props_at);
    }
    let size: u64 = if new_format {
        0x94
    } else {
        0x74
    };
    check_fits(b, p, size)?;
    let ns: usize = if new_format {
        3
    } else {
        1
    };
    let w = read_u32s(b, p, 11);
    let head = read_u32s(b, p + 48, 3);
    let sc = read_u32s(b, p + 60, ns);
    let t = read_u32s(b, p + 60 + 4 * ns, 12);
    let k = p + 108 + 4 * ns;
    let bend = bend_type_from(t[4]);
    let stretch = stretch_type_from(t[5]);
    let d0 = neighbor_from(t[7]);
    let d1 = neighbor_from(t[8]);
    let d2 = neighbor_from(t[9]);
    let d3 = neighbor_from(t[10]);
    let (bend, stretch, d0, d1, d2, d3) = match (bend, stretch, d0, d1, d2, d3) {
        (Some(bend), Some(stretch), Some(d0), Some(d1), Some(d2), Some(d3)) => (
            bend,
            stretch,
            d0,
            d1,
            d2,
            d3,
        ),
        _ => return Err(GeometryError::Malformed(p as u64)),
    };
    let constrain_properties = ConstrainProperties {
        shear_stiffness: head[0],
        bend_stiffness: head[1],
        bend_curvature: head[2],
        skinning_constrain_scale: if new_format {
            None
        } else {
            Some(sc[0])
        },
        skinning_constrain_scale_v: if new_format {
            Some(Vector3 { x: sc[0], y: sc[1], z: sc[2] })
        } else {
            None
        },
        max_motion: t[0],
        anchor_stretch: t[1],
        lra_stretch: t[2],
        parent_dist_stretch: t[3],
        bend_constrain_type: bend,
        stretch_constrain_type: stretch,
        num_constrain_iterations: t[6],
        anchor_stretch_direction: [d0, d1, d2, d3],
        num_anchor_stretch_direction: t[11],
        use_parent_dist_constrains: b[k] > 0,
        use_sphere_skinning_constrains: b[k + 1] > 0,
        use_pos_normal_constrains: b[k + 2] > 0,
        use_neg_normal_constrains: b[k + 3] > 0,
    };
    let unknown = if new_format {
        read_u32s(b, k + 4, 6)
    } else {
        Vec::new()
    };
    let r = SimulationProperties {
        root_bone: w[0],
        frequency: w[1],
        collision_offset: w[2],
        damping: w[3],
        gravity: Vector3 { x: w[4], y: w[5], z: w[6] },
        drag_constant: w[7],
        wind_constant: w[8],
        zbias: w[9],
        collision_groups: w[10],
        use_per_vertex_stiffness: b[p + 44] > 0,
        use_per_vertex_damping: b[p + 45] > 0,
        use_per_vertex_skinning: b[p + 46] > 0,
        constrain_properties,
        unknown,
    };
    assert(r.constrain_properties.anchor_stretch_direction@ =~= seq![d0, d1, d2, d3]);
    assert(r.unknown@ =~= (if new_format {
        u32s_at(b@, k + 4, 6)
    } else {
        Seq::empty()
    }));
    Ok(r)
}

fn flag_byte(v: bool) -> (r: u8)
    ensures
        (r > 0) == v,
{
    if v {
        1
    } else {
        0
    }
}

/// The eleven leading words of a properties block.
pub open spec fn head_words(x: SimulationProperties) -> Seq<u32> {
    seq![
        x.root_bone,
        x.frequency,
        x.collision_offset,
        x.damping,
        x.gravity.x,
        x.gravity.y,
        x.gravity.z,
        x.drag_constant,
        x.wind_constant,
        x.zbias,
        x.collision_groups,
    ]
}

/// The stored word of a direction.
pub open spec fn neighbor_word(n: Neighbor) -> u32 {
    match n {
        Neighbor::Down => 0,
        Neighbor::DownRight => 1,
        Neighbor::Right => 2,
        Neighbor::UpRight => 3,
        Neighbor::Up => 4,
        Neighbor::UpLeft => 5,
        Neighbor::Left => 6,
        Neighbor::DownLeft => 7,
    }
}

/// The stored words of a constraint's skinning scale: one float, or a vector.
pub open spec fn scale_words(c: ConstrainProperties) -> Seq<u32> {
    match c.skinning_constrain_scale_v {
        Some(v) => seq![v.x, v.y, v.z],
        None => match c.skinning_constrain_scale {
            Some(v) => seq![v],
            None => Seq::empty(),
        },
    }
}

/// The twelve words of a constraint block after its skinning scale.
pub open spec fn tail_words(c: ConstrainProperties) -> Seq<u32> {
    seq![
        c.max_motion,
        c.anchor_stretch,
        c.lra_stretch,
        c.parent_dist_stretch,
        bend_word(c.bend_constrain_type),
        stretch_word(c.stretch_constrain_type),
        c.num_constrain_iterations,
        neighbor_word(c.anchor_stretch_direction[0]),
        neighbor_word(c.anchor_stretch_direction[1]),
        neighbor_word(c.anchor_stretch_direction[2]),
        neighbor_word(c.anchor_stretch_direction[3]),
        c.num_anchor_stretch_direction,
    ]
}

fn write_flags(buf: &mut Vec<u8>, a: bool, b: bool, c: bool, d: bool)
    ensures
        extends(final(buf)@, old(buf)@),
        final(buf)@.len() == old(buf)@.len() + 4,
        (final(buf)@[old(buf)@.len() as int] > 0) == a,
        (final(buf)@[old(buf)@.len() as int + 1] > 0) == b,
        (final(buf)@[old(buf)@.len() as int + 2] > 0) == c,
        (final(buf)@[old(buf)@.len() as int + 3] > 0) == d,
{
    let ghost b0 = buf@;
    write_u8(buf, flag_byte(a));
    let ghost b1 = buf@;
    write_u8(buf, flag_byte(b));
    let ghost b2 = buf@;
    write_u8(buf, flag_byte(c));
    let ghost b3 = buf@;
    write_u8(buf, flag_byte(d));
    proof {
        lemma_extends_trans(b0, b1, b2);
        lemma_extends_trans(b0, b2, b3);
        lemma_extends_trans(b0, b3, buf@);
        lemma_extends_trans(b1, b2, buf@);
        lemma_extends_trans(b2, b3, buf@);
    }
}

fn write_scale_words(buf: &mut Vec<u8>, c: &ConstrainProperties)
    ensures
        extends(final(buf)@, old(buf)@),
        final(buf)@.len() == old(buf)@.len() + 4 * scale_words(*c).len(),
        u32s_at(final(buf)@, old(buf)@.len() as int, scale_words(*c).len()) == scale_words(*c),
{
    let mut v: Vec<u32> = Vec::new();
    match c.skinning_constrain_scale_v {
        Some(s) => {
            v.push(s.x);
            v.push(s.y);
            v.push(s.z);
        },
        None => match c.skinning_constrain_scale {
            Some(s) => v.push(s),
            None => {},
        },
    }
    assert(v@ =~= scale_words(*c));
    write_u32s(buf, &v);
}

fn write_tail_words(buf: &mut Vec<u8>, c: &ConstrainProperties)
    ensures
        extends(final(buf)@, old(buf)@),
        final(buf)@.len() == old(buf)@.len() + 48,
        u32s_at(final(buf)@, old(buf)@.len() as int, 12) == tail_words(*c),
{
    let mut v: Vec<u32> = Vec::new();
    v.push(c.max_motion);
    v.push(c.anchor_stretch);
    v.push(c.lra_stretch);
    v.push(c.parent_dist_stretch);
    v.push(bend_type_value(c.bend_constrain_type));
    v.push(stretch_type_value(c.stretch_constrain_type));
    v.push(c.num_constrain_iterations);
    v.push(neighbor_value(c.anchor_stretch_direction[0]));
    v.push(neighbor_value(c.anchor_stretch_direction[1]));
    v.push(neighbor_value(c.anchor_stretch_direction[2]));
    v.push(neighbor_value(c.anchor_stretch_direction[3]));
    v.push(c.num_anchor_stretch_direction);
    assert(v@ =~= tail_words(*c));
    write_u32s(buf, &v);
}

/// Number of bytes the simulation properties take when written.
pub open spec fn sim_props_len(x: SimulationProperties) -> int {
    112 + 4 * scale_words(x.constrain_properties).len() as int + 4 * x.unknown@.len() as int
}

/// Number of bytes a simulation pack takes when written.
pub open spec fn cloth_pack_len(x: ClothSimPack) -> int {
    12 + match x.simulation_properties {
        Some(p) => sim_props_len(p),
        None => 0,
    } + 16 * x.grid_points@.len() + 4 * x.unknown@.len()
}

/// Number of bytes cloth data takes when written.
pub open spec fn cloth_len(x: ClothSimMesh) -> int {
    match x {
        ClothSimMesh::Simulation(p) => cloth_pack_len(p),
        ClothSimMesh::Skinned(v) => 20 * v@.len() as int,
    }
}

/// Appends the simulation properties in the layout their fields select.
#[verifier::rlimit(100)]
pub fn write_sim_props(buf: &mut Vec<u8>, x: &SimulationProperties)
    ensures
        extends(final(buf)@, old(buf)@),
        final(buf)@.len() == old(buf)@.len() + sim_props_len(*x),
        x.wf() ==> final(buf)@.len() == old(buf)@.len() + if x.spec_is_new_format() {
            0x94int
        } else {
            0x74int
        },
        x.wf() ==> sim_props_at(final(buf)@, old(buf)@.len() as int, x.spec_is_new_format()) == Ok::<
            SimulationPropertiesView,
            GeometryError,
        >(x@),
{
    let ghost b0 = buf@;
    let mut w: Vec<u32> = Vec::new();
    w.push(x.root_bone);
    w.push(x.frequency);
    w.push(x.collision_offset);
    w.push(x.damping);
    w.push(x.gravity.x);
    w.push(x.gravity.y);
    w.push(x.gravity.z);
    w.push(x.drag_constant);
    w.push(x.wind_constant);
    w.push(x.zbias);
    w.push(x.collision_groups);
    assert(w@ =~= head_words(*x));
    write_u32s(buf, &w);
    let ghost b1 = buf@;
    write_flags(buf, x.use_per_vertex_stiffness, x.use_per_vertex_damping, x.use_per_vertex_skinning, false);
    let ghost b2 = buf@;
    let c = &x.constrain_properties;
    let mut h: Vec<u32> = Vec::new();
    h.push(c.shear_stiffness);
    h.push(c.bend_stiffness);
    h.push(c.bend_curvature);
    write_u32s(buf, &h);
    let ghost b3 = buf@;
    write_scale_words(buf, c);
    let ghost b4 = buf@;
    write_tail_words(buf, c);
    let ghost b5 = buf@;
    write_flags(
        buf,
        c.use_parent_dist_constrains,
        c.use_sphere_skinning_constrains,
        c.use_pos_normal_constrains,
        c.use_neg_normal_constrains,
    );
    let ghost b6 = buf@;
    write_u32s(buf, &x.unknown);
    proof {
        let f = buf@;
        crate::bytes::lemma_extends_trans(b5, b6, f);
        crate::bytes::lemma_extends_trans(b4, b5, f);
        crate::bytes::lemma_extends_trans(b3, b4, f);
        crate::bytes::lemma_extends_trans(b2, b3, f);
        crate::bytes::lemma_extends_trans(b1, b2, f);
        crate::bytes::lemma_extends_trans(b0, b1, f);
        if x.wf() {
            let p = b0.len() as int;
            lemma_u32s_stable(b1, f, 0, p, 11);
            lemma_u32s_stable(b3, f, 0, p + 48, 3);
            lemma_u32s_stable(b4, f, 0, p + 60, scale_words(*c).len());
            lemma_u32s_stable(b5, f, 0, b4.len() as int, 12);
            assert(h@ =~= seq![c.shear_stiffness, c.bend_stiffness, c.bend_curvature]);
            let ns = scale_words(*c).len() as int;
            assert(b1.len() == p + 44);
            assert(b4.len() == p + 60 + 4 * ns);
            assert(b5.len() == p + 108 + 4 * ns);
            assert((f[p + 44] > 0) == x.use_per_vertex_stiffness);
            assert((f[p + 45] > 0) == x.use_per_vertex_damping);
            assert((f[p + 46] > 0) == x.use_per_vertex_skinning);
            assert((f[p + 108 + 4 * ns] > 0) == c.use_parent_dist_constrains);
            assert((f[p + 109 + 4 * ns] > 0) == c.use_sphere_skinning_constrains);
            assert((f[p + 110 + 4 * ns] > 0) == c.use_pos_normal_constrains);
            assert((f[p + 111 + 4 * ns] > 0) == c.use_neg_normal_constrains);
            lemma_sim_props_written(f, p, *x);
        }
    }
}

proof fn lemma_word_round_trips(c: ConstrainProperties)
    ensures
        bend_type_of(bend_word(c.bend_constrain_type)) == Some(c.bend_constrain_type),
        stretch_type_of(stretch_word(c.stretch_constrain_type)) == Some(c.stretch_constrain_type),
        forall|n: Neighbor| neighbor_of(#[trigger] neighbor_word(n)) == Some(n),
{
    assert forall|n: Neighbor| neighbor_of(#[trigger] neighbor_word(n)) == Some(n) by {
        match n {
            Neighbor::Down => {},
            Neighbor::DownRight => {},
            Neighbor::Right => {},
            Neighbor::UpRight => {},
            Neighbor::Up => {},
            Neighbor::UpLeft => {},
            Neighbor::Left => {},
            Neighbor::DownLeft => {},
        }
    }
}

#[verifier::rlimit(80)]
proof fn lemma_sim_props_written(f: Seq<u8>, p: int, x: SimulationProperties)
    requires
        x.wf(),
        0 <= p,
        ({
            let c = x.constrain_properties;
            let ns = scale_words(c).len() as int;
            &&& f.len() == p + 112 + 4 * ns + 4 * x.unknown@.len()
            &&& u32s_at(f, p, 11) == head_words(x)
            &&& (f[p + 44] > 0) == x.use_per_vertex_stiffness
            &&& (f[p + 45] > 0) == x.use_per_vertex_damping
            &&& (f[p + 46] > 0) == x.use_per_vertex_skinning
            &&& u32s_at(f, p + 48, 3) == seq![c.shear_stiffness, c.bend_stiffness, c.bend_curvature]
            &&& u32s_at(f, p + 60, ns as nat) == scale_words(c)
            &&& u32s_at(f, p + 60 + 4 * ns, 12) == tail_words(c)
            &&& (f[p + 108 + 4 * ns] > 0) == c.use_parent_dist_constrains
            &&& (f[p + 109 + 4 * ns] > 0) == c.use_sphere_skinning_constrains
            &&& (f[p + 110 + 4 * ns] > 0) == c.use_pos_normal_constrains
            &&& (f[p + 111 + 4 * ns] > 0) == c.use_neg_normal_constrains
            &&& u32s_at(f, p + 112 + 4 * ns, x.unknown@.len()) == x.unknown@
        }),
    ensures
        f.len() == p + if x.spec_is_new_format() {
            0x94int
        } else {
            0x74int
        },
        sim_props_at(f, p, x.spec_is_new_format()) == Ok::<SimulationPropertiesView, GeometryError>(
            x@,
        ),
{
    reveal(sim_props_at);
    let nf = x.spec_is_new_format();
    let c = x.constrain_properties;
    let t = tail_words(c);
    lemma_word_round_trips(c);
    assert(bend_type_of(t[4]) == Some(c.bend_constrain_type));
    assert(stretch_type_of(t[5]) == Some(c.stretch_constrain_type));
    assert(neighbor_of(t[7]) == Some(c.anchor_stretch_direction[0]));
    assert(neighbor_of(t[8]) == Some(c.anchor_stretch_direction[1]));
    assert(neighbor_of(t[9]) == Some(c.anchor_stretch_direction[2]));
    assert(neighbor_of(t[10]) == Some(c.anchor_stretch_direction[3]));
    assert(c.anchor_stretch_direction@ =~= seq![
        c.anchor_stretch_direction[0],
        c.anchor_stretch_direction[1],
        c.anchor_stretch_direction[2],
        c.anchor_stretch_direction[3],
    ]);
    let w = u32s_at(f, p, 11);
    assert(w[0] == x.root_bone && w[4] == x.gravity.x && w[10] == x.collision_groups);
    if !nf {
        assert(x.unknown@ =~= Seq::<u32>::empty());
        assert(scale_words(c) =~= seq![c.skinning_constrain_scale->0]);
    } else {
        assert(scale_words(c) =~= seq![
            c.skinning_constrain_scale_v->0.x,
            c.skinning_constrain_scale_v->0.y,
            c.skinning_constrain_scale_v->0.z,
        ]);
    }
    assert(sim_props_at(f, p, nf) is Ok);
    let v = sim_props_at(f, p, nf)->Ok_0;
    assert(v.constrain_properties =~= c@);
    assert(v.unknown =~= x.unknown@);
    assert(v =~= x@);
}

/// Decoding simulation properties at `p` reads the same in a buffer that agrees with this one from `lo` on.
pub proof fn lemma_sim_props_stable(a: Seq<u8>, b: Seq<u8>, lo: int, p: int, new_format: bool)
    requires
        agree_from(b, a, lo),
        0 <= lo <= p,
        sim_props_at(a, p, new_format) is Ok,
    ensures
        sim_props_at(b, p, new_format) == sim_props_at(a, p, new_format),
{
    reveal(sim_props_at);
    let ns = if new_format {
        3int
    } else {
        1int
    };
    lemma_u32s_stable(a, b, lo, p, 11);
    lemma_u32s_stable(a, b, lo, p + 48, 3);
    lemma_u32s_stable(a, b, lo, p + 60, ns as nat);
    lemma_u32s_stable(a, b, lo, p + 60 + 4 * ns, 12);
    if new_format {
        lemma_u32s_stable(a, b, lo, p + 112 + 4 * ns, 6);
    }
}

/// Number of property bytes that a declared properties size selects.
pub open spec fn properties_len(size: u16) -> int {
    if size == 0 {
        0
    } else if size > 0x74 {
        0x94
    } else {
        0x74
    }
}

/// Number of grid points that a declared grid size selects.
pub open spec fn grid_count(grid_size: u32) -> int {
    (grid_size / 16) as int * 2
}

/// A full cloth simulation pack.
#[derive(Debug, Clone, PartialEq, Eq)]
pub struct ClothSimPack {
    pub simulation_properties: Option<SimulationProperties>,
    pub grid_points: Vec<GridPoint>,
    pub unknown: Vec<UnkStruct>,
}

/// The contents of a [`ClothSimPack`].
pub ghost struct ClothSimPackView {
    pub simulation_properties: Option<SimulationPropertiesView>,
    pub grid_points: Seq<GridPoint>,
    pub unknown: Seq<UnkStruct>,
}

impl View for ClothSimPack {
    type V = ClothSimPackView;

    open spec fn view(&self) -> ClothSimPackView {
        ClothSimPackView {
            simulation_properties: match self.simulation_properties {
                Some(p) => Some(p@),
                None => None,
            },
            grid_points: self.grid_points@,
            unknown: self.unknown@,
        }
    }
}

impl ClothSimPack {
    /// The pack can be encoded so that it decodes to itself.
    pub open spec fn wf(&self) -> bool {
        &&& match self.simulation_properties {
            Some(p) => p.wf(),
            None => true,
        }
        &&& self.grid_points@.len() % 2 == 0
        &&& self.grid_points@.len() * 8 <= u32::MAX
        &&& forall|i: int| 0 <= i < self.grid_points@.len() ==> (#[trigger] self.grid_points@[i]).wf()
        &&& self.unknown@.len() <= u16::MAX
    }
}

/// The simulation pack stored at `p`.
pub open spec fn cloth_pack_at(b: Seq<u8>, p: int) -> Result<ClothSimPackView, GeometryError> {
    if !fits(b.len() as int, p, 12) {
        Err(GeometryError::Malformed(p as u64))
    } else {
        let props = u16_at(b, p + 4);
        let count = u16_at(b, p + 6);
        let plen = properties_len(props);
        let ngrid = grid_count(u32_at(b, p + 8));
        let q = p + 12;
        if !fits(b.len() as int, q, plen + 16 * ngrid + 4 * count) {
            Err(GeometryError::Malformed(q as u64))
        } else {
            let sp = if props == 0 {
                Ok(None)
            } else {
                match sim_props_at(b, q, props > 0x74) {
                    Err(e) => Err(e),
                    Ok(v) => Ok(Some(v)),
                }
            };
            match sp {
                Err(e) => Err(e),
                Ok(sp) => Ok(
                    ClothSimPackView {
                        simulation_properties: sp,
                        grid_points: grid_points_at(b, q + plen, ngrid as nat),
                        unknown: unks_at(b, q + plen + 16 * ngrid, count as nat),
                    },
                ),
            }
        }
    }
}

/// Decodes the simulation pack at `p`.
pub fn read_cloth_pack(b: &Vec<u8>, p: usize) -> (r: Result<ClothSimPack, GeometryError>)
    ensures
        match r {
            Ok(x) => cloth_pack_at(b@, p as int) == Ok::<ClothSimPackView, GeometryError>(x@),
            Err(e) => cloth_pack_at(b@, p as int) == Err::<ClothSimPackView, GeometryError>(e),
        },
{
    check_fits(b, p, 12)?;
    let props = read_u16(b, p + 4);
    let count = read_u16(b, p + 6);
    let grid_size = read_u32(b, p + 8);
    let plen: usize = if props == 0 {
        0
    } else if props > 0x74 {
        0x94
    } else {
        0x74
    };
    let ngrid: usize = (grid_size / 16) as usize * 2;
    let q = p + 12;
    check_fits(b, q, plen as u64 + 16 * ngrid as u64 + 4 * count as u64)?;
    let simulation_properties = if props == 0 {
        None
    } else {
        Some(read_sim_props(b, q, props > 0x74)?)
    };
    let grid_points = read_grid_points(b, q + plen, ngrid);
    let unknown = read_unks(b, q + plen + 16 * ngrid, count as usize);
    Ok(ClothSimPack { simulation_properties, grid_points, unknown })
}

pub proof fn lemma_grid_count(n: int)
    requires
        0 <= n,
        n % 2 == 0,
        n * 8 <= u32::MAX,
    ensures
        grid_count((n * 8) as u32) == n,
{
    assert(((n * 8) as u32) as int == n * 8);
    assert((n * 8) / 16 * 2 == n) by (nonlinear_arith)
        requires n % 2 == 0, n >= 0;
}

/// Appends a simulation pack: header with recomputed sizes, properties, grid, records.
pub fn write_cloth_pack(buf: &mut Vec<u8>, x: &ClothSimPack)
    ensures
        extends(final(buf)@, old(buf)@),
        final(buf)@.len() == old(buf)@.len() + cloth_pack_len(*x),
        x.wf() ==> cloth_pack_at(final(buf)@, old(buf)@.len() as int) == Ok::<
            ClothSimPackView,
            GeometryError,
        >(x@),
{
    let ghost start = buf@;
    let plen: u16 = match &x.simulation_properties {
        None => 0,
        Some(props) => if props.is_new_format() {
            0x94
        } else {
            0x74
        },
    };
    let unknown_count: u16 = #[verifier::truncate] (x.unknown.len() as u16);
    let grid_size: u32 = #[verifier::truncate] (((x.grid_points.len() as u64 % 0x2000_0000) * 8) as u32);
    let header = PackHeader {
        data_size: #[verifier::truncate] ((12 + plen as u64 + unknown_count as u64 * 4
            + grid_size as u64) as u32),
        properties_size: plen,
        unknown_count,
        grid_size,
    };
    write_u32(buf, header.data_size);
    let ghost b1 = buf@;
    write_u16(buf, header.properties_size);
    let ghost b2 = buf@;
    write_u16(buf, header.unknown_count);
    let ghost b3 = buf@;
    write_u32(buf, header.grid_size);
    let ghost b4 = buf@;
    match &x.simulation_properties {
        None => {},
        Some(props) => write_sim_props(buf, props),
    }
    let ghost b5 = buf@;
    write_grid_points(buf, &x.grid_points);
    let ghost b6 = buf@;
    write_unks(buf, &x.unknown);
    proof {
        lemma_extends_trans(start, b1, b2);
        lemma_extends_trans(start, b2, b3);
        lemma_extends_trans(start, b3, b4);
        lemma_extends_trans(start, b4, b5);
        lemma_extends_trans(start, b5, b6);
        lemma_extends_trans(start, b6, buf@);
        lemma_extends_trans(b5, b6, buf@);
        lemma_extends_trans(b2, b3, buf@);
        lemma_extends_trans(b1, b2, buf@);
        lemma_extends_trans(b3, b4, buf@);
        if x.wf() {
            let l = start.len() as int;
            let n = x.grid_points@.len() as int;
            lemma_grid_count(n);
            assert(u16_at(buf@, l + 4) == plen);
            assert(u16_at(buf@, l + 6) == unknown_count);
            assert(u32_at(buf@, l + 8) == grid_size);
            assert(properties_len(plen) == b5.len() - b4.len());
            match &x.simulation_properties {
                Some(props) => {
                    lemma_sim_props_stable(b5, buf@, 0, l + 12, props.spec_is_new_format());
                },
                None => {},
            }
            assert(grid_points_at(buf@, b5.len() as int, n as nat) =~= grid_points_at(
                b6,
                b5.len() as int,
                n as nat,
            ));
        }
    }
}

/// Decoding the simulation pack at `p` reads the same in a buffer that agrees with this one from `lo` on.
pub proof fn lemma_cloth_pack_stable(a: Seq<u8>, b: Seq<u8>, lo: int, p: int)
    requires
        agree_from(b, a, lo),
        0 <= lo <= p,
        cloth_pack_at(a, p) is Ok,
    ensures
        cloth_pack_at(b, p) == cloth_pack_at(a, p),
{
    let plen = properties_len(u16_at(a, p + 4));
    let ngrid = grid_count(u32_at(a, p + 8));
    let q = p + 12;
    if u16_at(a, p + 4) != 0 {
        lemma_sim_props_stable(a, b, lo, q, u16_at(a, p + 4) > 0x74);
    }
    assert(grid_points_at(b, q + plen, ngrid as nat) =~= grid_points_at(a, q + plen, ngrid as nat));
    assert(unks_at(b, q + plen + 16 * ngrid, u16_at(a, p + 6) as nat) =~= unks_at(
        a,
        q + plen + 16 * ngrid,
        u16_at(a, p + 6) as nat,
    ));
}


/// Cloth data of a submesh; which form is stored is decided by the mesh's cloth tag byte.
#[derive(Debug, Clone, PartialEq, Eq)]
pub enum ClothSimMesh {
    Simulation(ClothSimPack),
    Skinned(Vec<ClothSkinning>),
}

/// The contents of a [`ClothSimMesh`].
pub ghost enum ClothSimMeshView {
    Simulation(ClothSimPackView),
    Skinned(Seq<ClothSkinningView>),
}

impl View for ClothSimMesh {
    type V = ClothSimMeshView;

    open spec fn view(&self) -> ClothSimMeshView {
        match self {
            ClothSimMesh::Simulation(p) => ClothSimMeshView::Simulation(p@),
            ClothSimMesh::Skinned(v) => ClothSimMeshView::Skinned(skinnings_view(v@)),
        }
    }
}

/// The top bit of the cloth tag selects the simulation form.
pub open spec fn is_simulation_tag(cloth_id: u8) -> bool {
    cloth_id & 0x80 == 0x80
}

/// Whether the cloth tag `cloth_id` selects a simulation pack rather than skinned followers.
pub fn selects_simulation(cloth_id: u8) -> (r: bool)
    ensures
        r == is_simulation_tag(cloth_id),
        r == (cloth_id >= 0x80),
{
    assert((cloth_id & 0x80 == 0x80) == (cloth_id >= 0x80)) by (bit_vector);
    cloth_id & 0x80 == 0x80
}

impl ClothSimMesh {
    /// The cloth data is the form that `cloth_id` selects, with one follower per vertex.
    pub open spec fn wf(&self, cloth_id: u8, num_vertices: u32) -> bool {
        match self {
            ClothSimMesh::Simulation(p) => is_simulation_tag(cloth_id) && p.wf(),
            ClothSimMesh::Skinned(v) => !is_simulation_tag(cloth_id) && v@.len() == num_vertices,
        }
    }
}

/// The cloth data stored at `p` for a mesh with tag `cloth_id` and `num_vertices` vertices.
pub open spec fn cloth_at(b: Seq<u8>, p: int, cloth_id: u8, num_vertices: u32) -> Result<
    ClothSimMeshView,
    GeometryError,
> {
    if is_simulation_tag(cloth_id) {
        match cloth_pack_at(b, p) {
            Ok(v) => Ok(ClothSimMeshView::Simulation(v)),
            Err(e) => Err(e),
        }
    } else if fits(b.len() as int, p, 20 * num_vertices) {
        Ok(ClothSimMeshView::Skinned(skinnings_at(b, p, num_vertices as nat)))
    } else {
        Err(GeometryError::Malformed(p as u64))
    }
}

/// Decodes the cloth data at `p`, in the form that `cloth_id` selects.
pub fn read_cloth(b: &Vec<u8>, p: usize, cloth_id: u8, num_vertices: u32) -> (r: Result<
    ClothSimMesh,
    GeometryError,
>)
    ensures
        match r {
            Ok(x) => cloth_at(b@, p as int, cloth_id, num_vertices) == Ok::<
                ClothSimMeshView,
                GeometryError,
            >(x@),
            Err(e) => cloth_at(b@, p as int, cloth_id, num_vertices) == Err::<
                ClothSimMeshView,
                GeometryError,
            >(e),
        },
{
    if selects_simulation(cloth_id) {
        let pack = read_cloth_pack(b, p)?;
        Ok(ClothSimMesh::Simulation(pack))
    } else {
        check_fits(b, p, 20 * num_vertices as u64)?;
        Ok(ClothSimMesh::Skinned(read_skinnings(b, p, num_vertices as usize)))
    }
}

/// Appends the cloth data in its own form.
pub fn write_cloth(buf: &mut Vec<u8>, x: &ClothSimMesh, cloth_id: u8, num_vertices: u32)
    ensures
        extends(final(buf)@, old(buf)@),
        final(buf)@.len() == old(buf)@.len() + cloth_len(*x),
        x.wf(cloth_id, num_vertices) ==> cloth_at(
            final(buf)@,
            old(buf)@.len() as int,
            cloth_id,
            num_vertices,
        ) == Ok::<ClothSimMeshView, GeometryError>(x@),
{
    match x {
        ClothSimMesh::Simulation(p) => write_cloth_pack(buf, p),
        ClothSimMesh::Skinned(v) => write_skinnings(buf, v),
    }
}

/// Decoding the cloth data at `p` reads the same in a buffer that agrees with this one from `lo` on.
pub proof fn lemma_cloth_stable(a: Seq<u8>, b: Seq<u8>, lo: int, p: int, cloth_id: u8, num_vertices: u32)
    requires
        agree_from(b, a, lo),
        0 <= lo <= p,
        cloth_at(a, p, cloth_id, num_vertices) is Ok,
    ensures
        cloth_at(b, p, cloth_id, num_vertices) == cloth_at(a, p, cloth_id, num_vertices),
{
    if is_simulation_tag(cloth_id) {
        lemma_cloth_pack_stable(a, b, lo, p);
    } else {
        assert(skinnings_at(b, p, num_vertices as nat) =~= skinnings_at(a, p, num_vertices as nat))
            by {
            assert forall|i: int| 0 <= i < num_vertices implies skinnings_at(
                b,
                p,
                num_vertices as nat,
            )[i] == skinnings_at(a, p, num_vertices as nat)[i] by {
                let q = p + 20 * i;
                assert(skinning_at(b, q).indices =~= skinning_at(a, q).indices);
                assert(skinning_at(b, q).weights =~= skinning_at(a, q).weights);
            }
        }
    }
}

} // verus!
