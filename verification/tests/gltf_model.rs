use questcraft_core::scene::gltf_model::animation::find_animation;
use questcraft_core::scene::gltf_model::draw_data::{
    build_draw_data, GeometryLayout, InstanceRecord, MaterialSlots, MeshInfo, PrimitiveInfo,
};
use questcraft_core::scene::gltf_model::hierarchy::{SceneGraph, SceneNode, SourceNode};
use questcraft_core::scene::gltf_model::skins::{load_skins, total_joint_count, SourceSkin};
use questcraft_core::scene::gltf_model::textures::{
    convert_to_vk_format, expand_pixels, is_color_image, texture_color_flags, PixelFormat,
    TextureFormat,
};
use questcraft_core::scene::gltf_model::{
    mesh_is_special, mesh_keeps_cpu_data, stride, DrawIndexedIndirectCommand, Extras,
    Interpolation, SpecialKind,
};

fn extras(ui: Option<i32>, spawn: Option<i32>, grab: Option<i32>) -> Extras {
    Extras { is_ui_surface: ui, is_spawnpoint: spawn, is_grab_bar: grab }
}

fn leaf(gltf_index: usize) -> SourceNode {
    SourceNode {
        gltf_index,
        mesh_index: None,
        skin_index: None,
        mesh_extras: None,
        node_extras: None,
        children: Vec::new(),
    }
}

#[test]
fn keyframe_strides() {
    assert_eq!(stride(Interpolation::Linear), 1);
    assert_eq!(stride(Interpolation::Step), 1);
    assert_eq!(stride(Interpolation::CubicSpline), 3);
}

#[test]
fn extras_flags() {
    let e = extras(Some(1), None, Some(0));
    assert_eq!(e.flag(SpecialKind::UiSurface), Some(1));
    assert_eq!(e.flag(SpecialKind::SpawnPoint), None);
    assert_eq!(e.flag(SpecialKind::GrabBar), Some(0));
    assert!(e.marks_special_mesh());
    assert!(!e.marks_spawnpoint());
    assert!(extras(None, None, Some(1)).marks_special_mesh());
    assert!(!extras(None, Some(1), None).marks_special_mesh());
    assert!(extras(None, Some(0), None).marks_spawnpoint());
}

#[test]
fn mesh_metadata() {
    assert!(!mesh_is_special(&None));
    assert!(mesh_is_special(&Some(extras(Some(0), None, None))));
    assert!(mesh_is_special(&Some(extras(None, Some(1), None))));
    assert!(!mesh_is_special(&Some(extras(None, None, Some(1)))));
    assert!(mesh_keeps_cpu_data(&Some(extras(Some(1), None, None))));
    assert!(!mesh_keeps_cpu_data(&Some(extras(Some(2), None, None))));
    assert!(!mesh_keeps_cpu_data(&Some(extras(None, Some(1), None))));
    assert!(!mesh_keeps_cpu_data(&None));
}

/// A(5, mesh 0, UI surface mesh) -> [B(2) -> [D(9)], C(7, spawn point)];
/// E(4, grab-bar mesh and spawn point node) as a second root.
fn sample_roots() -> Vec<SourceNode> {
    let mut a = leaf(5);
    a.mesh_index = Some(0);
    a.mesh_extras = Some(extras(Some(1), None, None));
    let mut b = leaf(2);
    b.skin_index = Some(0);
    b.children.push(leaf(9));
    let mut c = leaf(7);
    c.node_extras = Some(extras(None, Some(1), None));
    a.children.push(b);
    a.children.push(c);
    let mut e = leaf(4);
    e.mesh_index = Some(1);
    e.mesh_extras = Some(extras(None, None, Some(1)));
    e.node_extras = Some(extras(None, Some(2), None));
    vec![a, e]
}

#[test]
fn scene_graph_is_flattened_in_preorder() {
    let g = SceneGraph::load(&sample_roots());
    assert_eq!(g.nodes.len(), 5);
    assert_eq!(g.roots, vec![0, 4]);
    assert_eq!(g.nodes[0].children, vec![1, 3]);
    assert_eq!(g.nodes[1].children, vec![2]);
    assert!(g.nodes[2].children.is_empty());
    assert!(g.nodes[3].children.is_empty());
    assert!(g.nodes[4].children.is_empty());
    assert_eq!(g.nodes[0].mesh_index, Some(0));
    assert_eq!(g.nodes[1].skin_index, Some(0));
    assert_eq!(g.nodes[4].mesh_index, Some(1));
    assert_eq!(g.local_index(5), Some(0));
    assert_eq!(g.local_index(2), Some(1));
    assert_eq!(g.local_index(9), Some(2));
    assert_eq!(g.local_index(7), Some(3));
    assert_eq!(g.local_index(4), Some(4));
    assert_eq!(g.local_index(3), None);
}

#[test]
fn special_nodes_are_collected_with_their_metadata() {
    let g = SceneGraph::load(&sample_roots());
    // node 4 is special twice: through its mesh and as a spawn point
    assert_eq!(g.specials, vec![0, 3, 4, 4]);
    assert_eq!(g.node_extras.get(&0), Some(&extras(Some(1), None, None)));
    assert_eq!(g.node_extras.get(&3), Some(&extras(None, Some(1), None)));
    // the node's own metadata replaces the mesh's
    assert_eq!(g.node_extras.get(&4), Some(&extras(None, Some(2), None)));
    assert_eq!(g.node_extras.get(&1), None);
    assert_eq!(g.find_surface_index(), Some(0));
    assert_eq!(g.find_spawnpoint_index(), Some(3));
    // the grab-bar mesh metadata was replaced, so no grab bar is designated
    assert_eq!(g.find_grab_bar_index(), None);
}

#[test]
fn designation_requires_flag_value_one() {
    let mut n = leaf(0);
    n.mesh_extras = Some(extras(Some(0), None, Some(1)));
    let g = SceneGraph::load(&vec![n]);
    assert_eq!(g.specials, vec![0]);
    assert_eq!(g.find_surface_index(), None);
    assert_eq!(g.find_grab_bar_index(), Some(0));
    assert_eq!(g.find_special(SpecialKind::GrabBar), Some(0));
}

#[test]
fn empty_scene() {
    let g = SceneGraph::load(&Vec::new());
    assert!(g.nodes.is_empty());
    assert!(g.roots.is_empty());
    assert!(g.specials.is_empty());
    assert_eq!(g.find_surface_index(), None);
}

#[test]
fn skins_pack_joint_matrices_in_order() {
    let g = SceneGraph::load(&sample_roots());
    let skins = vec![
        SourceSkin { joints: vec![2, 9], skeleton: Some(5) },
        SourceSkin { joints: vec![], skeleton: Some(3) },
        SourceSkin { joints: vec![7, 5, 4], skeleton: None },
    ];
    let layouts = load_skins(&g, &skins);
    assert_eq!(layouts.len(), 3);
    assert_eq!(layouts[0].joint_nodes, vec![1, 2]);
    assert_eq!(layouts[0].skeleton_root, Some(0));
    assert_eq!(layouts[0].joint_matrix_offset, 0);
    assert_eq!(layouts[1].joint_nodes, Vec::<usize>::new());
    assert_eq!(layouts[1].skeleton_root, None);
    assert_eq!(layouts[1].joint_matrix_offset, 2);
    assert_eq!(layouts[2].joint_nodes, vec![3, 0, 4]);
    assert_eq!(layouts[2].joint_matrix_offset, 2);
    assert_eq!(total_joint_count(&layouts), 5);
    assert_eq!(total_joint_count(&Vec::new()), 0);
}

fn prim(material_index: Option<usize>, first_index: u32, index_count: u32, base_vertex: i32, skinned: bool) -> PrimitiveInfo {
    PrimitiveInfo { material_index, first_index, index_count, base_vertex, has_skinning_data: skinned }
}

#[test]
fn draw_data_one_instance_and_command_per_primitive() {
    let nodes = vec![
        SceneNode { gltf_index: 0, mesh_index: Some(0), skin_index: None, children: vec![1] },
        SceneNode { gltf_index: 1, mesh_index: None, skin_index: None, children: vec![] },
        SceneNode { gltf_index: 2, mesh_index: Some(1), skin_index: Some(0), children: vec![] },
        SceneNode { gltf_index: 3, mesh_index: Some(2), skin_index: None, children: vec![] },
    ];
    let meshes = vec![
        MeshInfo { special: false, primitives: vec![prim(Some(0), 0, 6, 0, false), prim(None, 6, 3, 4, false)] },
        MeshInfo { special: false, primitives: vec![prim(Some(1), 9, 12, 7, true)] },
        MeshInfo { special: true, primitives: vec![prim(Some(0), 21, 3, 15, false)] },
    ];
    let materials = vec![
        MaterialSlots { base_color_texture_index: Some(2), metallic_roughness_texture_index: None, normal_texture_index: Some(0), double_sided: false },
        MaterialSlots { base_color_texture_index: None, metallic_roughness_texture_index: Some(1), normal_texture_index: None, double_sided: true },
    ];
    let g = SceneGraph::load(&sample_roots());
    let skins = load_skins(&g, &vec![SourceSkin { joints: vec![5], skeleton: None }, SourceSkin { joints: vec![2, 9], skeleton: None }]);
    let skins = vec![skins.into_iter().nth(1).unwrap()];
    let d = build_draw_data(&nodes, &meshes, &materials, &skins);
    assert_eq!(d.instances, vec![
        InstanceRecord { node_index: 0, is_skinned: false, material_index: Some(0), base_color_idx: 2, metallic_roughness_idx: -1, normal_map_idx: 0, skin_joint_offset: -1 },
        InstanceRecord { node_index: 0, is_skinned: false, material_index: None, base_color_idx: -1, metallic_roughness_idx: -1, normal_map_idx: -1, skin_joint_offset: -1 },
        InstanceRecord { node_index: 2, is_skinned: true, material_index: Some(1), base_color_idx: -1, metallic_roughness_idx: 1, normal_map_idx: -1, skin_joint_offset: 1 },
    ]);
    assert_eq!(d.culled_commands, vec![
        DrawIndexedIndirectCommand { index_count: 6, instance_count: 1, first_index: 0, vertex_offset: 0, first_instance: 0 },
        DrawIndexedIndirectCommand { index_count: 3, instance_count: 1, first_index: 6, vertex_offset: 4, first_instance: 1 },
    ]);
    assert_eq!(d.no_cull_commands, vec![
        DrawIndexedIndirectCommand { index_count: 12, instance_count: 1, first_index: 9, vertex_offset: 7, first_instance: 2 },
    ]);
    assert_eq!(d.culled_commands.len() + d.no_cull_commands.len(), d.instances.len());
}

#[test]
fn skinned_flag_needs_both_skin_and_skinning_data() {
    let nodes = vec![
        SceneNode { gltf_index: 0, mesh_index: Some(0), skin_index: Some(0), children: vec![] },
        SceneNode { gltf_index: 1, mesh_index: Some(1), skin_index: None, children: vec![] },
    ];
    let meshes = vec![
        MeshInfo { special: false, primitives: vec![prim(None, 0, 3, 0, false)] },
        MeshInfo { special: false, primitives: vec![prim(None, 3, 3, 3, true)] },
    ];
    let d = build_draw_data(&nodes, &meshes, &Vec::new(), &Vec::new());
    assert!(!d.instances[0].is_skinned);
    assert!(!d.instances[1].is_skinned);
    assert_eq!(d.instances[0].skin_joint_offset, -1);
    assert_eq!(d.culled_commands.len(), 2);
    assert!(d.no_cull_commands.is_empty());
}

#[test]
fn primitives_are_placed_back_to_back() {
    let mut layout = GeometryLayout::new();
    let a = layout.place_primitive(Some(0), 4, 6, false);
    let b = layout.place_primitive(None, 3, 3, true);
    assert_eq!(a, prim(Some(0), 0, 6, 0, false));
    assert_eq!(b, prim(None, 6, 3, 4, true));
    assert_eq!(b.first_index, a.first_index + a.index_count);
    assert_eq!(layout.vertex_count, 7);
    assert_eq!(layout.index_count, 9);
}

#[test]
fn texture_formats() {
    assert_eq!(convert_to_vk_format(PixelFormat::R8, true), TextureFormat::R8G8B8A8Srgb);
    assert_eq!(convert_to_vk_format(PixelFormat::R8G8, true), TextureFormat::R8G8B8A8Srgb);
    assert_eq!(convert_to_vk_format(PixelFormat::R8G8B8, true), TextureFormat::R8G8B8A8Srgb);
    assert_eq!(convert_to_vk_format(PixelFormat::R8G8B8A8, true), TextureFormat::R8G8B8A8Srgb);
    assert_eq!(convert_to_vk_format(PixelFormat::R8, false), TextureFormat::R8Unorm);
    assert_eq!(convert_to_vk_format(PixelFormat::R8G8, false), TextureFormat::R8G8Unorm);
    assert_eq!(convert_to_vk_format(PixelFormat::R8G8B8, false), TextureFormat::R8G8B8A8Unorm);
    assert_eq!(convert_to_vk_format(PixelFormat::R8G8B8A8, false), TextureFormat::R8G8B8A8Unorm);
    assert_eq!(convert_to_vk_format(PixelFormat::R16, true), TextureFormat::R16Sfloat);
    assert_eq!(convert_to_vk_format(PixelFormat::R16G16, false), TextureFormat::R16G16Sfloat);
    assert_eq!(convert_to_vk_format(PixelFormat::R16G16B16, false), TextureFormat::R16G16B16A16Sfloat);
    assert_eq!(convert_to_vk_format(PixelFormat::R16G16B16A16, true), TextureFormat::R16G16B16A16Sfloat);
}

#[test]
fn rgb_gains_opaque_alpha_and_partial_pixels_drop() {
    let px = vec![1, 2, 3, 4, 5, 6, 7];
    assert_eq!(expand_pixels(PixelFormat::R8G8B8, false, &px), vec![1, 2, 3, 255, 4, 5, 6, 255]);
    assert_eq!(expand_pixels(PixelFormat::R8G8B8, true, &vec![9, 8]), Vec::<u8>::new());
}

#[test]
fn rgb16_gains_half_float_one_alpha() {
    let px: Vec<u8> = (0..12).collect();
    assert_eq!(
        expand_pixels(PixelFormat::R16G16B16, false, &px),
        vec![0, 1, 2, 3, 4, 5, 0x00, 0x3C, 6, 7, 8, 9, 10, 11, 0x00, 0x3C]
    );
}

#[test]
fn color_luminance_is_spread_to_rgba() {
    assert_eq!(expand_pixels(PixelFormat::R8, true, &vec![10, 20]), vec![10, 10, 10, 255, 20, 20, 20, 255]);
    assert_eq!(expand_pixels(PixelFormat::R8G8, true, &vec![10, 99, 20]), vec![10, 10, 10, 99]);
}

#[test]
fn other_pixel_data_is_unchanged() {
    let px = vec![10, 20, 30];
    assert_eq!(expand_pixels(PixelFormat::R8, false, &px), px);
    assert_eq!(expand_pixels(PixelFormat::R8G8, false, &px), px);
    assert_eq!(expand_pixels(PixelFormat::R8G8B8A8, true, &px), px);
    assert_eq!(expand_pixels(PixelFormat::R16, true, &px), px);
}

#[test]
fn color_flags_mark_sampled_color_images() {
    let flags = texture_color_flags(4, &vec![2, 0, 2]);
    assert_eq!(flags, vec![true, false, true, false]);
    assert!(is_color_image(&flags, 0));
    assert!(!is_color_image(&flags, 1));
    assert!(!is_color_image(&flags, 7));
    assert_eq!(texture_color_flags(0, &Vec::new()), Vec::<bool>::new());
}

#[test]
fn animation_lookup_by_name() {
    let names = vec!["idle".to_string(), "walk".to_string(), "idle".to_string()];
    assert_eq!(find_animation(&names, "idle"), Some(0));
    assert_eq!(find_animation(&names, "walk"), Some(1));
    assert_eq!(find_animation(&names, "run"), None);
    assert_eq!(find_animation(&Vec::new(), "idle"), None);
}

#[test]
fn uploaded_bytes_fill_whole_texels() {
    let formats = [
        (PixelFormat::R8, 1usize),
        (PixelFormat::R8G8, 2),
        (PixelFormat::R8G8B8, 3),
        (PixelFormat::R8G8B8A8, 4),
        (PixelFormat::R16, 2),
        (PixelFormat::R16G16, 4),
        (PixelFormat::R16G16B16, 6),
        (PixelFormat::R16G16B16A16, 8),
    ];
    let texel_size = |f: TextureFormat| match f {
        TextureFormat::R8Unorm => 1usize,
        TextureFormat::R8G8Unorm | TextureFormat::R16Sfloat => 2,
        TextureFormat::R16G16B16A16Sfloat => 8,
        _ => 4,
    };
    let pixels: Vec<u8> = (0..24).collect();
    for (format, pixel_size) in formats {
        for color in [false, true] {
            let uploaded = expand_pixels(format, color, &pixels);
            let texels = pixels.len() / pixel_size;
            assert_eq!(uploaded.len(), texels * texel_size(convert_to_vk_format(format, color)));
        }
    }
}

#[test]
fn children_come_after_their_parent() {
    let g = SceneGraph::load(&sample_roots());
    for (i, node) in g.nodes.iter().enumerate() {
        for &c in &node.children {
            assert!(i < c && c < g.nodes.len());
        }
    }
}
