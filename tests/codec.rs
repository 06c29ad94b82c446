use glacier_geometry::buffer::{parse_vertices, VertexBuffers, VertexLayout};
use glacier_geometry::bytes::align_writer;
use glacier_geometry::cloth::{
    read_sim_props, write_sim_props, ClothBendConstrainType, ClothStretchConstrainType,
    ConstrainProperties, read_cloth, read_grid_point, selects_simulation, write_cloth, write_grid_point, Neighbor, ClothSimMesh, ClothSimPack, ClothSkinning,
    GridPoint, SimulationProperties, UnkStruct,
};
use glacier_geometry::collision::{read_collision, write_collision, BoneColi, BoxColi, Collision, QuantizedBox};
use glacier_geometry::error::GeometryError;
use glacier_geometry::math::{BoundingBox, Color, Vector3, Vector4};
use glacier_geometry::prim_mesh::PrimMesh;
use glacier_geometry::prim_mesh_linked;
use glacier_geometry::prim_mesh_linked::{reverse_u64_bits, PrimMeshLinked};
use glacier_geometry::prim_mesh_weighted::{
    BoneAccel, BoneIndices, BoneInfo, CopyBones, PrimMeshWeighted,
};
use glacier_geometry::prim_object::{
    ObjectPropertyFlags, PrimObject, PrimObjectSubtype,
};
use glacier_geometry::prim_sub_mesh::PrimSubMesh;
use glacier_geometry::render_primitive::{
    LodLevel, MeshKind, MeshObject, PrimHeader, PrimObjectHeader, PrimPropertyFlags, PrimType,
    RenderPrimitive,
};

fn prim_object(properties: u8, lod_mask: u8) -> PrimObject {
    PrimObject {
        prims: PrimHeader { type_: PrimType::Mesh },
        sub_type: PrimObjectSubtype::Standard,
        properties: ObjectPropertyFlags { bits: properties },
        lod_mask,
        z_bias: 1,
        z_offset: 2,
        material_id: 7,
        wire_color: 0x11223344,
        constant_vertex_color: 0xAABBCCDD,
    }
}

fn unit_box() -> BoundingBox {
    BoundingBox {
        min: Vector3 { x: 0xBF80_0000, y: 0xBF80_0000, z: 0xBF80_0000 },
        max: Vector3 { x: 0x3F80_0000, y: 0x3F80_0000, z: 0x3F80_0000 },
    }
}

/// A mesh of `n` vertices with constant colour (no colour region), no UV channels.
fn plain_mesh(n: u32, weighted: bool, linked: bool, indices: Vec<u16>) -> PrimMesh {
    let collision = if linked {
        Collision::Bone(BoneColi { total_size: 8, num_blocks: 1, total_chunks_align: 3, data: vec![9, 8] })
    } else {
        Collision::Box(BoxColi {
            tri_per_chunk: 4,
            box_entries: vec![QuantizedBox { min_x: 0, min_y: 1, min_z: 2, max_x: 250, max_y: 251, max_z: 255 }],
        })
    };
    PrimMesh {
        prim_object: prim_object(0x20, 0x81),
        pos_scale: Vector4 { x: 0x3F00_0000, y: 0x3F00_0000, z: 0x3F00_0000, w: 0x3F00_0000 },
        pos_bias: Vector4 { x: 0, y: 0, z: 0, w: 0x3F00_0000 },
        tex_scale_bias: Vector4 { x: 1, y: 2, z: 3, w: 4 },
        cloth_id: 0,
        sub_mesh: PrimSubMesh {
            prim_object: prim_object(0, 0x81),
            num_vertices: n,
            indices,
            collision,
            num_uv_channels: 0,
            buffers: VertexBuffers {
                position: (0..8 * n).map(|i| i as u8).collect(),
                weights: if weighted { Some((0..12 * n).map(|i| (i * 3) as u8).collect()) } else { None },
                main: (0..12 * n).map(|i| (i + 100) as u8).collect(),
                colors: None,
            },
            cloth_data: None,
        },
    }
}

fn encode(r: &RenderPrimitive) -> Vec<u8> {
    let boxes = vec![unit_box(); r.primitives_count()];
    let mut out = Vec::new();
    r.write_bytes(&boxes, &mut out).unwrap();
    out
}

fn resource(flags: u32, objects: Vec<MeshObject>) -> RenderPrimitive {
    RenderPrimitive {
        data: PrimObjectHeader {
            prims: PrimHeader { type_: PrimType::ObjectHeader },
            property_flags: PrimPropertyFlags { bits: flags },
            bone_rig_resource_index: None,
            objects,
        },
    }
}

fn weighted_bone_info() -> BoneInfo {
    let mut remap = vec![0xFFu8; 255];
    remap[1] = 0;
    BoneInfo { bone_remap: remap, accel_entries: vec![BoneAccel { offset: 10, num_indices: 4 }] }
}

#[test]
fn plain_mesh_three_vertices_round_trip() {
    let r = resource(0, vec![MeshObject::Normal(plain_mesh(3, false, false, vec![0, 1, 2]))]);
    let bytes = encode(&r);
    let back = RenderPrimitive::parse_bytes(&bytes).unwrap();
    assert_eq!(back, r);
    assert_eq!(back.primitives_count(), 1);
    let mesh = back.data.objects[0].prim_mesh();
    assert_eq!(mesh.sub_mesh.buffers.position.len() / 8, 3);
    assert_eq!(mesh.sub_mesh.buffers.main.len() / 12, 3);
    assert!(mesh.sub_mesh.buffers.weights.is_none());
    assert!(mesh.sub_mesh.buffers.colors.is_none());
    assert!(mesh.get_colors().is_none());
    assert!(mesh.sub_mesh.cloth_data.is_none());
    assert_eq!(back.data.objects[0].get_indices(), &vec![0u16, 1, 2]);
    // encoding the decoded resource again gives the same bytes
    assert_eq!(encode(&back), bytes);
}

#[test]
fn encoded_offsets_are_aligned() {
    let r = resource(0, vec![
        MeshObject::Normal(plain_mesh(3, false, false, vec![0, 1, 2])),
        MeshObject::Normal(plain_mesh(5, false, false, vec![0, 1, 2, 3, 4])),
    ]);
    let bytes = encode(&r);
    let h = u64::from_le_bytes(bytes[0..8].try_into().unwrap()) as usize;
    assert_eq!(h % 16, 0);
    let table = u32::from_le_bytes(bytes[h + 16..h + 20].try_into().unwrap()) as usize;
    assert_eq!(table % 16, 0);
    for k in 0..2 {
        let o = u32::from_le_bytes(bytes[table + 4 * k..table + 4 * k + 4].try_into().unwrap()) as usize;
        assert_eq!(o % 16, 0);
    }
    assert_eq!(RenderPrimitive::parse_bytes(&bytes).unwrap(), r);
}

#[test]
fn weighted_round_trip_and_bone_range() {
    let mesh = plain_mesh(4, true, false, (0..20).collect());
    let w = PrimMeshWeighted {
        prim_mesh: mesh,
        copy_bones: Some(CopyBones { indices: vec![1, 2], offsets: vec![3, 4] }),
        bone_indices: BoneIndices { indices: vec![5, 6, 7] },
        bone_info: weighted_bone_info(),
    };
    assert_eq!(w.get_indices_for_bone(1), Some(vec![10u16, 11, 12, 13]));
    assert_eq!(w.get_indices_for_bone(0), None);
    assert_eq!(w.get_indices_for_bone(2), None);
    let r = resource(0x8, vec![MeshObject::Weighted(w)]);
    let bytes = encode(&r);
    let back = RenderPrimitive::parse_bytes(&bytes).unwrap();
    assert_eq!(back, r);
    assert_eq!(back.flags().mesh_kind(), MeshKind::Weighted);
}

#[test]
fn weighted_remap_resolves_bone_one() {
    let info = weighted_bone_info();
    assert_eq!(info.accel_for_bone(1), Some(BoneAccel { offset: 10, num_indices: 4 }));
    assert_eq!(info.accel_for_bone(0), None);
    assert_eq!(info.accel_for_bone(254), None);
    assert_eq!(info.accel_for_bone(400), None);
    assert!(info.check_coverage(14));
    assert!(!info.check_coverage(13));
}

#[test]
fn linked_round_trip() {
    let mesh = plain_mesh(2, false, true, vec![0, 1]);
    let l = PrimMeshLinked {
        prim_mesh: mesh,
        bone_info: prim_mesh_linked::BoneInfo {
            total_chunks_align: 70,
            bone_remap: vec![0b1010, 0x1],
            accel_entries: vec![
                BoneAccel { offset: 0, num_indices: 1 },
                BoneAccel { offset: 1, num_indices: 1 },
            ],
        },
    };
    let r = resource(0x4, vec![MeshObject::Linked(l)]);
    let bytes = encode(&r);
    let back = RenderPrimitive::parse_bytes(&bytes).unwrap();
    assert_eq!(back, r);
    match &back.data.objects[0] {
        MeshObject::Linked(m) => {
            assert_eq!(m.bone_info.accel_for_bone(1), Some(BoneAccel { offset: 0, num_indices: 1 }));
            assert_eq!(m.bone_info.accel_for_bone(3), Some(BoneAccel { offset: 1, num_indices: 1 }));
            assert_eq!(m.bone_info.accel_for_bone(2), None);
            assert_eq!(m.bone_info.accel_for_bone(64), None);
            assert!(m.bone_info.check_consistency().is_ok());
        }
        _ => panic!("expected a linked mesh"),
    }
}

#[test]
fn linked_consistency_error() {
    let info = prim_mesh_linked::BoneInfo {
        total_chunks_align: 64,
        bone_remap: vec![0b1],
        accel_entries: vec![BoneAccel { offset: 0, num_indices: 1 }, BoneAccel { offset: 1, num_indices: 1 }],
    };
    assert_eq!(info.check_consistency(), Err(GeometryError::Consistency));
}

fn legacy_properties() -> SimulationProperties {
    SimulationProperties {
        root_bone: 3,
        frequency: 0x4270_0000,
        collision_offset: 1,
        damping: 2,
        gravity: Vector3 { x: 0, y: 0xC11C_CCCD, z: 0 },
        drag_constant: 4,
        wind_constant: 5,
        zbias: 6,
        collision_groups: 7,
        use_per_vertex_stiffness: true,
        use_per_vertex_damping: false,
        use_per_vertex_skinning: true,
        constrain_properties: ConstrainProperties {
            shear_stiffness: 8,
            bend_stiffness: 9,
            bend_curvature: 10,
            skinning_constrain_scale: Some(11),
            skinning_constrain_scale_v: None,
            max_motion: 12,
            anchor_stretch: 13,
            lra_stretch: 14,
            parent_dist_stretch: 15,
            bend_constrain_type: ClothBendConstrainType::Triangle,
            stretch_constrain_type: ClothStretchConstrainType::Lra,
            num_constrain_iterations: 16,
            anchor_stretch_direction: [Neighbor::Down, Neighbor::Up, Neighbor::Left, Neighbor::DownLeft],
            num_anchor_stretch_direction: 2,
            use_parent_dist_constrains: false,
            use_sphere_skinning_constrains: true,
            use_pos_normal_constrains: false,
            use_neg_normal_constrains: true,
        },
        unknown: vec![],
    }
}

#[test]
fn simulation_properties_layouts() {
    let legacy = legacy_properties();
    let mut buf = Vec::new();
    write_sim_props(&mut buf, &legacy);
    assert_eq!(buf.len(), 0x74);
    assert_eq!(&buf[0..4], &[3, 0, 0, 0]);
    assert_eq!(&buf[44..48], &[1, 0, 1, 0]);
    assert_eq!(read_sim_props(&buf, 0, false), Ok(legacy.clone()));

    let mut newer = legacy.clone();
    newer.constrain_properties.skinning_constrain_scale = None;
    newer.constrain_properties.skinning_constrain_scale_v = Some(Vector3 { x: 1, y: 2, z: 3 });
    newer.unknown = vec![21, 22, 23, 24, 25, 26];
    assert!(newer.is_new_format());
    let mut buf = Vec::new();
    write_sim_props(&mut buf, &newer);
    assert_eq!(buf.len(), 0x94);
    assert_eq!(read_sim_props(&buf, 0, true), Ok(newer));

    // a bend constraint word outside the known values is refused
    let mut bad = Vec::new();
    write_sim_props(&mut bad, &legacy);
    bad[80] = 9;
    assert_eq!(read_sim_props(&bad, 0, false), Err(GeometryError::Malformed(0)));
}

#[test]
fn cloth_tag_dispatch() {
    assert!(selects_simulation(0x81));
    assert!(!selects_simulation(0x03));
    assert!(selects_simulation(0xC4));
    assert!(!selects_simulation(0x00));
}

#[test]
fn cloth_tag_0x81_reads_simulation_pack() {
    let pack = ClothSimPack {
        simulation_properties: Some(legacy_properties()),
        grid_points: vec![
            GridPoint { down: Some(1), down_right: None, right: Some(2), up_right: None, up: None, up_left: Some(3), left: None, down_left: Some(0) },
            GridPoint { down: None, down_right: None, right: None, up_right: None, up: None, up_left: None, left: None, down_left: None },
        ],
        unknown: vec![UnkStruct { unk1: 1, unk2: 2 }],
    };
    let mut buf = vec![0u8; 4];
    write_cloth(&mut buf, &ClothSimMesh::Simulation(pack.clone()), 0x81, 3);
    // header: data size, properties size, record count, grid size
    assert_eq!(&buf[4..16], &[0x94, 0, 0, 0, 0x74, 0, 1, 0, 16, 0, 0, 0]);
    assert_eq!(buf.len(), 4 + 12 + 0x74 + 32 + 4);
    assert_eq!(read_cloth(&buf, 4, 0x81, 3), Ok(ClothSimMesh::Simulation(pack)));
    // the same bytes under tag 0x03 are read as skinned followers, one per vertex
    match read_cloth(&buf, 4, 0x03, 3) {
        Ok(ClothSimMesh::Skinned(v)) => assert_eq!(v.len(), 3),
        other => panic!("expected skinned cloth, got {:?}", other),
    }
}

#[test]
fn cloth_tag_0x03_reads_skinned() {
    let s = ClothSkinning { indices: [1, 2, 3, 4], weights: [5, 6, 7, 8], simulation_bias: 9, simulation_weight: 10 };
    let mut buf = Vec::new();
    write_cloth(&mut buf, &ClothSimMesh::Skinned(vec![s, s]), 0x03, 2);
    assert_eq!(buf.len(), 40);
    assert_eq!(read_cloth(&buf, 0, 0x03, 2), Ok(ClothSimMesh::Skinned(vec![s, s])));
    assert_eq!(read_cloth(&buf, 0, 0x03, 3), Err(GeometryError::Malformed(0)));
}

#[test]
fn speedtree_subtype_is_unsupported() {
    let r = resource(0, vec![MeshObject::Normal(plain_mesh(3, false, false, vec![0, 1, 2]))]);
    let mut bytes = encode(&r);
    let h = u64::from_le_bytes(bytes[0..8].try_into().unwrap()) as usize;
    let table = u32::from_le_bytes(bytes[h + 16..h + 20].try_into().unwrap()) as usize;
    let obj = u32::from_le_bytes(bytes[table..table + 4].try_into().unwrap()) as usize;
    assert_eq!(bytes[obj + 4], 0);
    bytes[obj + 4] = 6;
    assert_eq!(RenderPrimitive::parse_bytes(&bytes), Err(GeometryError::UnsupportedFormat(obj as u64)));
    bytes[obj + 4] = 7;
    assert_eq!(RenderPrimitive::parse_bytes(&bytes), Err(GeometryError::Malformed(obj as u64)));
}

#[test]
fn truncated_input_is_malformed() {
    assert_eq!(RenderPrimitive::parse_bytes(&vec![1, 2, 3]), Err(GeometryError::Malformed(0)));
    let mut bytes = vec![0u8; 16];
    bytes[0] = 200;
    assert_eq!(RenderPrimitive::parse_bytes(&bytes), Err(GeometryError::Malformed(200)));
}

#[test]
fn lod_filter() {
    let mut a = plain_mesh(1, false, false, vec![0]);
    a.prim_object.lod_mask = 0x80;
    let mut b = plain_mesh(1, false, false, vec![0]);
    b.prim_object.lod_mask = 0x01;
    let r = resource(0, vec![MeshObject::Normal(a), MeshObject::Normal(b)]);
    assert_eq!(r.iter_primitive_of_lod(LodLevel::LEVEL1), vec![0]);
    assert_eq!(r.iter_primitive_of_lod(LodLevel::LEVEL8), vec![1]);
    assert_eq!(r.iter_primitive_of_lod(LodLevel::LEVEL4), Vec::<usize>::new());
}

#[test]
fn bounding_box_union() {
    let a = BoundingBox { min: Vector3 { x: 0x3F80_0000, y: 0xBF80_0000, z: 0 }, max: Vector3 { x: 0x4000_0000, y: 0, z: 0x3F80_0000 } };
    let b = BoundingBox { min: Vector3 { x: 0xC000_0000, y: 0, z: 0x8000_0000 }, max: Vector3 { x: 0x3F80_0000, y: 0x4040_0000, z: 0xBF80_0000 } };
    let u = a.union(&b);
    assert_eq!(u.min, Vector3 { x: 0xC000_0000, y: 0xBF80_0000, z: 0x8000_0000 });
    assert_eq!(u.max, Vector3 { x: 0x4000_0000, y: 0x4040_0000, z: 0x3F80_0000 });
    assert_eq!(BoundingBox::sum(&vec![]), BoundingBox::default());
    assert_eq!(BoundingBox::sum(&vec![a, b]), u);
}

#[test]
fn colors_decode() {
    let mut m = plain_mesh(2, false, false, vec![0, 1]);
    m.sub_mesh.buffers.colors = Some(vec![1, 2, 3, 4, 5, 6, 7, 8]);
    assert_eq!(m.get_colors(), Some(vec![Color { r: 1, g: 2, b: 3, a: 4 }, Color { r: 5, g: 6, b: 7, a: 8 }]));
    assert_eq!(Color::default(), Color { r: 0, g: 0, b: 0, a: 1 });
}

#[test]
fn reverse_bits() {
    assert_eq!(reverse_u64_bits(1), 1u64 << 63);
    assert_eq!(reverse_u64_bits(0b1011), 0xD000_0000_0000_0000);
    assert_eq!(reverse_u64_bits(u64::MAX), u64::MAX);
    assert_eq!(reverse_u64_bits(0), 0);
}

#[test]
fn align_pads_with_zeros() {
    let mut buf = vec![1u8; 5];
    align_writer(&mut buf, 16);
    assert_eq!(buf.len(), 16);
    assert!(buf[5..].iter().all(|&b| b == 0));
    align_writer(&mut buf, 16);
    assert_eq!(buf.len(), 16);
}

#[test]
fn copy_bones_len() {
    assert_eq!(CopyBones { indices: vec![1, 2, 3], offsets: vec![0, 0, 0] }.len(), 3);
    assert_eq!(CopyBones::default().len(), 0);
}

#[test]
fn grid_point_neighbors_and_sentinel() {
    let g = GridPoint { down: Some(0), down_right: None, right: Some(0xFFFE), up_right: None, up: Some(5), up_left: None, left: None, down_left: Some(9) };
    assert_eq!(g.index(Neighbor::Right), Some(0xFFFE));
    assert_eq!(g.index(Neighbor::UpRight), None);
    let mut buf = Vec::new();
    write_grid_point(&mut buf, &g);
    assert_eq!(&buf[2..4], &[0xFF, 0xFF]);
    assert_eq!(read_grid_point(&buf, 0), g);
}

#[test]
fn object_accessors() {
    let r = resource(0, vec![MeshObject::Normal(plain_mesh(2, false, false, vec![1, 0]))]);
    assert_eq!(r.iter_primitives().len(), 1);
    assert!(r.iter_primitives()[0].get_colors().is_none());
    assert_eq!(r.flags().mesh_kind(), MeshKind::Plain);
}

#[test]
fn bone_collision_shorter_than_its_header_is_malformed() {
    let buf = vec![5u8, 0, 1, 0, 2, 0, 9, 9];
    assert_eq!(read_collision(&buf, 0, true), Err(GeometryError::Malformed(0)));
    let ok = vec![8u8, 0, 1, 0, 2, 0, 9, 9];
    assert_eq!(
        read_collision(&ok, 0, true),
        Ok(Collision::Bone(BoneColi { total_size: 8, num_blocks: 1, total_chunks_align: 2, data: vec![9, 9] }))
    );
}

#[test]
fn box_collision_is_padded_to_four_bytes() {
    let c = Collision::Box(BoxColi {
        tri_per_chunk: 3,
        box_entries: vec![QuantizedBox { min_x: 1, min_y: 2, min_z: 3, max_x: 4, max_y: 5, max_z: 6 }],
    });
    let mut buf = Vec::new();
    write_collision(&mut buf, &c, false);
    assert_eq!(buf, vec![1, 0, 3, 0, 1, 2, 3, 4, 5, 6, 0, 0]);
    assert_eq!(read_collision(&buf, 0, false), Ok(c));
}

#[test]
fn linked_mesh_needs_a_bone_table() {
    let mesh = plain_mesh(2, false, true, vec![0, 1]);
    let l = PrimMeshLinked {
        prim_mesh: mesh,
        bone_info: prim_mesh_linked::BoneInfo { total_chunks_align: 0, bone_remap: vec![], accel_entries: vec![] },
    };
    let mut bytes = encode(&resource(0x4, vec![MeshObject::Linked(l)]));
    let h = u64::from_le_bytes(bytes[0..8].try_into().unwrap()) as usize;
    let table = u32::from_le_bytes(bytes[h + 16..h + 20].try_into().unwrap()) as usize;
    let obj = u32::from_le_bytes(bytes[table..table + 4].try_into().unwrap()) as usize;
    for b in &mut bytes[obj + 112..obj + 116] {
        *b = 0;
    }
    assert_eq!(RenderPrimitive::parse_bytes(&bytes), Err(GeometryError::Malformed(obj as u64 + 112)));
}

#[test]
fn vertex_regions_follow_flags() {
    let layout = VertexLayout {
        num_vertices: 2,
        has_highres: true,
        is_weighted: true,
        num_uv_channels: 1,
        has_const_color: true,
        has_global_const_color: false,
    };
    // positions 24, weights 24, main 32, colours 8 (weighted meshes always carry colours)
    let data: Vec<u8> = (0..88).collect();
    let v = parse_vertices(&data, 0, layout).unwrap();
    assert_eq!(v.position, (0..24).collect::<Vec<u8>>());
    assert_eq!(v.weights, Some((24..48).collect::<Vec<u8>>()));
    assert_eq!(v.main, (48..80).collect::<Vec<u8>>());
    assert_eq!(v.colors, Some((80..88).collect::<Vec<u8>>()));
    assert_eq!(parse_vertices(&data, 1, layout), Err(GeometryError::Malformed(1)));
}

#[test]
fn property_flag_bits() {
    let g = PrimPropertyFlags::from_bits(0b10_0000_1101);
    assert!(g.has_bones() && !g.has_frames() && g.is_linked_object() && g.is_weighted_object());
    assert!(!g.use_bounds() && g.has_highres_positions());
    assert_eq!(g.mesh_kind(), MeshKind::Weighted);
    assert_eq!(PrimPropertyFlags::from_bits(0x4).mesh_kind(), MeshKind::Linked);
    let o = ObjectPropertyFlags::from_bits(0b0110_1001);
    assert!(o.x_axis_locked() && !o.y_axis_locked() && !o.z_axis_locked());
    assert!(o.has_highres_positions() && o.has_constant_color() && o.is_no_physics_prop());
    assert_eq!(o.into_bits(), 0b0110_1001);
    assert_eq!(PrimObjectSubtype::from_u8(6), Some(PrimObjectSubtype::Speedtree));
    assert_eq!(PrimObjectSubtype::from_u8(7), None);
    assert_eq!(PrimType::from_u16(5), Some(PrimType::Shape));
    assert_eq!(PrimType::from_u16(3), None);
}

#[test]
fn mixed_kinds_are_detected() {
    let plain = MeshObject::Normal(plain_mesh(1, false, false, vec![0]));
    let r = resource(0, vec![plain.clone()]);
    assert!(r.data.objects_match_flags());
    let w = PrimMeshWeighted {
        prim_mesh: plain_mesh(1, true, false, vec![0]),
        copy_bones: None,
        bone_indices: BoneIndices { indices: vec![] },
        bone_info: weighted_bone_info(),
    };
    let mixed = resource(0, vec![plain, MeshObject::Weighted(w)]);
    assert!(!mixed.data.objects_match_flags());
    assert_eq!(mixed.data.objects[1].kind(), MeshKind::Weighted);
}

#[test]
fn header_box_is_union_and_root_block_zero() {
    let r = resource(0, vec![
        MeshObject::Normal(plain_mesh(1, false, false, vec![0])),
        MeshObject::Normal(plain_mesh(1, false, false, vec![0])),
    ]);
    let a = BoundingBox { min: Vector3 { x: 0x3F80_0000, y: 0, z: 0 }, max: Vector3 { x: 0x4000_0000, y: 0, z: 0 } };
    let b = BoundingBox { min: Vector3 { x: 0xBF80_0000, y: 0, z: 0 }, max: Vector3 { x: 0x3F80_0000, y: 0x4040_0000, z: 0 } };
    let mut out = Vec::new();
    r.write_bytes(&vec![a, b], &mut out).unwrap();
    assert_eq!(out.len() % 8, 0);
    assert_eq!(&out[8..16], &[0u8; 8]);
    let h = u64::from_le_bytes(out[0..8].try_into().unwrap()) as usize;
    let word = |k: usize| u32::from_le_bytes(out[k..k + 4].try_into().unwrap());
    assert_eq!(word(h + 20), 0xBF80_0000);
    assert_eq!(word(h + 32), 0x4000_0000);
    assert_eq!(word(h + 36), 0x4040_0000);
    let table = word(h + 16) as usize;
    let second = word(table + 4) as usize;
    assert_eq!(word(second + 20), 0xBF80_0000);
    // stored boxes do not take part in decoding
    let mut other = Vec::new();
    r.write_bytes(&vec![unit_box(), unit_box()], &mut other).unwrap();
    assert_eq!(RenderPrimitive::parse_bytes(&out), RenderPrimitive::parse_bytes(&other));
    assert_eq!(RenderPrimitive::parse_bytes(&out).unwrap(), r);
}

#[test]
fn weighted_remap_is_rebuilt_on_encode() {
    let mut info = weighted_bone_info();
    info.bone_remap[7] = 5;
    let w = PrimMeshWeighted {
        prim_mesh: plain_mesh(4, true, false, (0..20).collect()),
        copy_bones: None,
        bone_indices: BoneIndices { indices: vec![1] },
        bone_info: info,
    };
    let back = RenderPrimitive::parse_bytes(&encode(&resource(0x8, vec![MeshObject::Weighted(w)]))).unwrap();
    match &back.data.objects[0] {
        MeshObject::Weighted(m) => {
            assert_eq!(m.bone_info.bone_remap[7], 0xFF);
            assert_eq!(m.bone_info.bone_remap[1], 0);
            assert_eq!(m.bone_info, weighted_bone_info());
        }
        _ => panic!("expected a weighted mesh"),
    }
}

#[test]
fn linked_table_is_rebuilt_on_encode() {
    let l = PrimMeshLinked {
        prim_mesh: plain_mesh(2, false, true, vec![0, 1]),
        bone_info: prim_mesh_linked::BoneInfo {
            total_chunks_align: 100,
            bone_remap: vec![0b1],
            accel_entries: vec![BoneAccel { offset: 0, num_indices: 1 }, BoneAccel { offset: 1, num_indices: 1 }],
        },
    };
    let back = RenderPrimitive::parse_bytes(&encode(&resource(0x4, vec![MeshObject::Linked(l)]))).unwrap();
    match &back.data.objects[0] {
        MeshObject::Linked(m) => {
            assert_eq!(m.bone_info.bone_remap, vec![0b1, 0]);
            assert_eq!(m.bone_info.accel_entries, vec![BoneAccel { offset: 0, num_indices: 1 }]);
            assert!(m.bone_info.check_consistency().is_ok());
        }
        _ => panic!("expected a linked mesh"),
    }
}

#[test]
fn resource_cloth_tags_dispatch() {
    let mut sim = plain_mesh(3, false, false, vec![0, 1, 2]);
    sim.cloth_id = 0x81;
    sim.sub_mesh.cloth_data = Some(ClothSimMesh::Simulation(ClothSimPack {
        simulation_properties: Some(legacy_properties()),
        grid_points: vec![],
        unknown: vec![UnkStruct { unk1: 4, unk2: 5 }],
    }));
    let mut skinned = plain_mesh(3, false, false, vec![0, 1, 2]);
    skinned.cloth_id = 0x03;
    let s = ClothSkinning { indices: [1, 2, 3, 4], weights: [5, 6, 7, 8], simulation_bias: 9, simulation_weight: 10 };
    skinned.sub_mesh.cloth_data = Some(ClothSimMesh::Skinned(vec![s, s, s]));
    let r = resource(0, vec![MeshObject::Normal(sim), MeshObject::Normal(skinned)]);
    let back = RenderPrimitive::parse_bytes(&encode(&r)).unwrap();
    assert_eq!(back, r);
    assert!(matches!(back.data.objects[0].prim_mesh().sub_mesh.cloth_data, Some(ClothSimMesh::Simulation(_))));
    match &back.data.objects[1].prim_mesh().sub_mesh.cloth_data {
        Some(ClothSimMesh::Skinned(v)) => assert_eq!(v.len(), 3),
        other => panic!("expected skinned cloth, got {:?}", other),
    }
}

#[test]
fn strict_decode_checks_bone_tables() {
    let make = |indices: Vec<u16>| {
        resource(0x8, vec![MeshObject::Weighted(PrimMeshWeighted {
            prim_mesh: plain_mesh(4, true, false, indices),
            copy_bones: None,
            bone_indices: BoneIndices { indices: vec![1] },
            bone_info: weighted_bone_info(),
        })])
    };
    let good = encode(&make((0..20).collect()));
    assert!(RenderPrimitive::parse_bytes_strict(&good).is_ok());
    let short = encode(&make(vec![0, 1, 2, 3, 4]));
    assert!(RenderPrimitive::parse_bytes(&short).is_ok());
    assert_eq!(RenderPrimitive::parse_bytes_strict(&short), Err(GeometryError::Consistency));
    assert_eq!(RenderPrimitive::parse_bytes_strict(&vec![1, 2]), Err(GeometryError::Malformed(0)));
}

#[test]
fn encoded_length_is_exact() {
    let r = resource(0, vec![MeshObject::Normal(plain_mesh(3, false, false, vec![0, 1, 2]))]);
    let out = encode(&r);
    // root 16, collision 16, indices 16, vertices 64, submesh header 80,
    // pointer record 16, mesh record 112, table 16, header 48
    assert_eq!(out.len(), 16 + 16 + 16 + 64 + 80 + 16 + 112 + 16 + 48);
}
