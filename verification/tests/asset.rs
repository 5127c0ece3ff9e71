use questcraft_core::scene::gltf_model::animation::{choose_channel, ChannelChoice, ChannelOutput};
use questcraft_core::scene::gltf_model::asset::{prepare_asset, vertex_count, AssetError};
use questcraft_core::scene::gltf_model::draw_data::PrimitiveInfo;
use questcraft_core::scene::gltf_model::hierarchy::{SceneGraph, SourceNode};
use questcraft_core::scene::gltf_model::import::{
    check_layout, import_gltf, read_structure, AccessorLayout, DocImage, DocMaterial, DocMesh, DocNode,
    DocPrimitive, GltfStructure, ViewRange,
};
use questcraft_core::scene::gltf_model::skins::SourceSkin;
use questcraft_core::scene::gltf_model::textures::{PixelFormat, TextureFormat};
use questcraft_core::scene::gltf_model::Extras;

/// Two meshes of one triangle each (the first also has a primitive with
/// positions only), a double-sided material whose base color is a 2x1 RGB
/// image, a skin, and a default scene with node 0 above node 1; node 2 is
/// not in the scene.
const TRIANGLE_ASSET: &str = r#"{"asset":{"version":"2.0"},"scene":0,"scenes":[{"nodes":[0]}],"nodes":[{"mesh":0,"children":[1]},{"mesh":1,"extras":{"is_spawnpoint":1}},{"name":"unused"}],"meshes":[{"primitives":[{"attributes":{"POSITION":0,"NORMAL":1,"TEXCOORD_0":2},"indices":3,"material":0},{"attributes":{"POSITION":0}}]},{"extras":{"is_ui_surface":1},"primitives":[{"attributes":{"POSITION":0,"NORMAL":1,"TEXCOORD_0":2},"indices":3}]}],"materials":[{"doubleSided":true,"pbrMetallicRoughness":{"baseColorTexture":{"index":0}}}],"skins":[{"joints":[1,0],"skeleton":0}],"buffers":[{"byteLength":176,"uri":"data:application/octet-stream;base64,AAAAAAAAAAAAAAAAAACAPwAAAAAAAAAAAAAAAAAAgD8AAAAAAAAAAAAAAAAAAIA/AAAAAAAAAAAAAIA/AAAAAAAAAAAAAIA/AAAAAAAAAAAAAIA/AAAAAAAAAAAAAIA/AAABAAIAAACJUE5HDQoaCgAAAA1JSERSAAAAAgAAAAEIAgAAAHtA6N0AAAAPSURBVHicY+ASkdMwsgEAAjcA01tWUdgAAAAASUVORK5CYII="}],"bufferViews":[{"buffer":0,"byteOffset":0,"byteLength":36},{"buffer":0,"byteOffset":36,"byteLength":36},{"buffer":0,"byteOffset":72,"byteLength":24},{"buffer":0,"byteOffset":96,"byteLength":6},{"buffer":0,"byteOffset":104,"byteLength":72}],"accessors":[{"bufferView":0,"componentType":5126,"count":3,"type":"VEC3","min":[0,0,0],"max":[1,1,0]},{"bufferView":1,"componentType":5126,"count":3,"type":"VEC3"},{"bufferView":2,"componentType":5126,"count":3,"type":"VEC2"},{"bufferView":3,"componentType":5123,"count":3,"type":"SCALAR"}],"images":[{"bufferView":4,"mimeType":"image/png"}],"textures":[{"source":0}]}"#;

fn stream(n: usize) -> Option<usize> {
    Some(n)
}

fn full_primitive(material: Option<usize>, n: usize, indices: usize) -> DocPrimitive {
    DocPrimitive {
        material,
        positions: stream(n),
        indices: stream(indices),
        tex_coords: stream(n),
        normals: stream(n),
        tangents: None,
        joints: None,
        weights: None,
    }
}

fn doc_node(mesh: Option<usize>, skin: Option<usize>, children: Vec<usize>) -> DocNode {
    DocNode { mesh, skin, children }
}

fn plain_structure() -> GltfStructure {
    GltfStructure {
        nodes: vec![doc_node(Some(0), None, vec![1]), doc_node(Some(1), None, vec![])],
        scene_roots: Some(vec![0]),
        meshes: vec![
            DocMesh { primitives: vec![full_primitive(Some(0), 4, 6)] },
            DocMesh { primitives: vec![full_primitive(None, 3, 3)] },
        ],
        skins: vec![],
        materials: vec![DocMaterial {
            base_color_texture: None,
            metallic_roughness_texture: None,
            normal_texture: None,
            emissive_texture: None,
            double_sided: false,
        }],
        texture_count: 0,
        images: vec![],
        mesh_extras: vec![None, None],
        node_extras: vec![None, None],
    }
}

fn no_extras(n: usize) -> Vec<Option<Extras>> {
    vec![None; n]
}

#[test]
fn import_reads_the_document_structure() {
    let g = import_gltf(TRIANGLE_ASSET.as_bytes()).expect("asset parses");
    let s = read_structure(&g).expect("every stream reads");
    assert_eq!(s.nodes.len(), 3);
    assert_eq!(s.nodes[0].mesh, Some(0));
    assert_eq!(s.nodes[0].children, vec![1]);
    assert_eq!(s.nodes[1].mesh, Some(1));
    assert_eq!(s.nodes[2].mesh, None);
    assert_eq!(s.scene_roots, Some(vec![0]));
    assert_eq!(s.meshes.len(), 2);
    assert_eq!(s.meshes[0].primitives.len(), 2);
    assert_eq!(s.meshes[0].primitives[0], full_primitive(Some(0), 3, 3));
    assert_eq!(
        s.meshes[0].primitives[1],
        DocPrimitive {
            material: None,
            positions: Some(3),
            indices: None,
            tex_coords: None,
            normals: None,
            tangents: None,
            joints: None,
            weights: None,
        }
    );
    assert_eq!(s.meshes[1].primitives[0], full_primitive(None, 3, 3));
    assert_eq!(s.skins.len(), 1);
    assert_eq!(s.skins[0].joints, vec![1, 0]);
    assert_eq!(s.skins[0].skeleton, Some(0));
    assert_eq!(s.materials.len(), 1);
    assert!(s.materials[0].double_sided);
    assert_eq!(s.materials[0].base_color_texture, Some(0));
    assert_eq!(s.materials[0].emissive_texture, None);
    assert_eq!(s.texture_count, 1);
    assert_eq!(s.images.len(), 1);
    assert_eq!(s.images[0].format, PixelFormat::R8G8B8);
    assert_eq!((s.images[0].width, s.images[0].height), (2, 1));
    assert_eq!(s.images[0].pixels, vec![10, 20, 30, 40, 50, 60]);
    assert_eq!(s.mesh_extras[0], None);
    assert!(s.mesh_extras[1].as_deref().unwrap().contains("is_ui_surface"));
    assert!(s.node_extras[1].as_deref().unwrap().contains("is_spawnpoint"));
    assert_eq!(s.node_extras[0], None);
}

fn imports(json: &str) -> bool {
    import_gltf(json.as_bytes()).is_some()
}

#[test]
fn binary_header_shorter_than_itself_is_refused() {
    let mut bytes = b"glTF".to_vec();
    bytes.extend_from_slice(&[2, 0, 0, 0, 5, 0, 0, 0, 0, 0, 0, 0]);
    assert!(import_gltf(&bytes).is_none());
}

#[test]
fn buffer_uri_without_scheme_is_refused() {
    assert!(imports(r#"{"asset":{"version":"2.0"}}"#));
    assert!(!imports(r#"{"asset":{"version":"2.0"},"buffers":[{"byteLength":4,"uri":"%FF"}]}"#));
    assert!(!imports(r#"{"asset":{"version":"2.0"},"buffers":[{"byteLength":4,"uri":"data.bin"}]}"#));
}

#[test]
fn image_outside_its_buffer_or_without_mime_type_is_refused() {
    let buffer = r#""buffers":[{"byteLength":4,"uri":"data:application/octet-stream;base64,AAAAAA=="}]"#;
    let past_end = format!(
        r#"{{"asset":{{"version":"2.0"}},{},"bufferViews":[{{"buffer":0,"byteLength":64}}],"images":[{{"bufferView":0,"mimeType":"image/png"}}]}}"#,
        buffer
    );
    assert!(!imports(&past_end));
    let no_mime = format!(
        r#"{{"asset":{{"version":"2.0"}},{},"bufferViews":[{{"buffer":0,"byteLength":4}}],"images":[{{"bufferView":0}}]}}"#,
        buffer
    );
    assert!(!imports(&no_mime));
    let no_uri = r#"{"asset":{"version":"2.0"},"images":[{}]}"#;
    assert!(!imports(no_uri));
}

#[test]
fn position_attribute_naming_no_accessor_is_refused() {
    let json = r#"{"asset":{"version":"2.0"},"meshes":[{"primitives":[{"attributes":{"POSITION":5}}]}]}"#;
    assert!(!imports(json));
}

#[test]
fn documents_failing_validation_are_refused() {
    assert!(!imports(r#"{"asset":{"version":"2.0"},"nodes":[{"mesh":3}]}"#));
    assert!(!imports(r#"{"asset":{"version":"2.0"},"scene":1,"scenes":[{"nodes":[]}]}"#));
}

#[test]
fn unreadable_streams_are_refused() {
    let with = |from: &str, to: &str| {
        let json = TRIANGLE_ASSET.replace(from, to);
        let g = import_gltf(json.as_bytes()).expect("asset parses");
        read_structure(&g).is_some()
    };
    assert!(with("", ""));
    // A stride smaller than a position.
    assert!(!with(
        r#"{"buffer":0,"byteOffset":0,"byteLength":36}"#,
        r#"{"buffer":0,"byteOffset":0,"byteLength":36,"byteStride":4}"#
    ));
    // An index accessor without items.
    assert!(!with(r#""count":3,"type":"SCALAR""#, r#""count":0,"type":"SCALAR""#));
    // Texture coordinates of a component type the reader does not take.
    assert!(!with(r#"{"bufferView":2,"componentType":5126"#, r#"{"bufferView":2,"componentType":5125"#));
}

#[test]
fn accessor_layouts_are_checked() {
    let view = Some(ViewRange { offset: 0, length: 36 });
    let layout = AccessorLayout { size: 12, count: 3, offset: 0, stride: None, view, sparse: false };
    assert!(check_layout(layout, 12));
    assert!(!check_layout(layout, 8));
    assert!(check_layout(AccessorLayout { stride: Some(16), ..layout }, 12));
    assert!(!check_layout(AccessorLayout { stride: Some(8), ..layout }, 12));
    assert!(!check_layout(AccessorLayout { count: 0, ..layout }, 12));
    assert!(!check_layout(AccessorLayout { sparse: true, ..layout }, 12));
    assert!(!check_layout(AccessorLayout { offset: usize::MAX - 20, ..layout }, 12));
}

#[test]
fn import_refuses_bytes_that_are_not_gltf() {
    assert!(import_gltf(b"not a gltf asset").is_none());
    assert!(import_gltf(&[]).is_none());
}

#[test]
fn imported_asset_lays_out() {
    let g = import_gltf(TRIANGLE_ASSET.as_bytes()).unwrap();
    let s = read_structure(&g).expect("every stream reads");
    let ui = Extras { is_ui_surface: Some(1), is_spawnpoint: None, is_grab_bar: None };
    let spawn = Extras { is_ui_surface: None, is_spawnpoint: Some(1), is_grab_bar: None };
    let l = prepare_asset(&s, &vec![None, Some(ui)], &vec![None, Some(spawn), None]).expect("lays out");
    // Only the first primitive of mesh 0 is kept; mesh 1's primitive follows it.
    assert_eq!(l.meshes.kept, vec![vec![0], vec![0]]);
    assert_eq!(
        l.meshes.meshes[0].primitives,
        vec![PrimitiveInfo { material_index: Some(0), first_index: 0, index_count: 3, base_vertex: 0, has_skinning_data: false }]
    );
    assert_eq!(
        l.meshes.meshes[1].primitives,
        vec![PrimitiveInfo { material_index: None, first_index: 3, index_count: 3, base_vertex: 3, has_skinning_data: false }]
    );
    assert!(!l.meshes.meshes[0].special);
    assert!(l.meshes.meshes[1].special);
    assert_eq!(l.meshes.keeps_cpu_data, vec![false, true]);
    assert_eq!(l.meshes.geometry.vertex_count, 6);
    assert_eq!(l.meshes.geometry.index_count, 6);
    // Scene: node 0 with child node 1; node 2 is not placed.
    assert_eq!(l.scene.graph.nodes.len(), 2);
    assert_eq!(l.scene.graph.nodes[0].gltf_index, 0);
    assert_eq!(l.scene.graph.nodes[1].gltf_index, 1);
    assert_eq!(l.scene.graph.nodes[0].children, vec![1]);
    assert_eq!(l.scene.graph.roots, vec![0]);
    assert_eq!(l.scene.graph.specials, vec![1, 1]);
    // The node's own spawn-point metadata replaces its mesh's UI metadata.
    assert_eq!(l.scene.graph.find_surface_index(), None);
    assert_eq!(l.scene.graph.find_spawnpoint_index(), Some(1));
    // Skin joints resolve to flattened nodes.
    assert_eq!(l.skins[0].joint_nodes, vec![1, 0]);
    assert_eq!(l.skins[0].skeleton_root, Some(0));
    assert_eq!(l.total_joint_count, 2);
    // Mesh 1 is special, so only node 0 draws; its material is double-sided.
    assert_eq!(l.draw.instances.len(), 1);
    assert_eq!(l.draw.culled_commands.len(), 0);
    assert_eq!(l.draw.no_cull_commands.len(), 1);
    assert_eq!(l.draw.no_cull_commands[0].index_count, 3);
    // The base color image is color data: widened to RGBA and sampled as sRGB.
    assert_eq!(l.textures.color_flags, vec![true]);
    assert_eq!(l.textures.images[0].format, TextureFormat::R8G8B8A8Srgb);
    assert_eq!(l.textures.images[0].pixels, vec![10, 20, 30, 255, 40, 50, 60, 255]);
    assert_eq!(l.draw.instances[0].base_color_idx, 0);
}

#[test]
fn primitives_without_required_streams_are_skipped_and_offsets_run_on() {
    let mut s = plain_structure();
    s.meshes[0].primitives.push(DocPrimitive { normals: None, ..full_primitive(None, 5, 9) });
    s.meshes[0].primitives.push(full_primitive(None, 2, 3));
    let l = prepare_asset(&s, &no_extras(2), &no_extras(2)).unwrap();
    assert_eq!(l.meshes.kept, vec![vec![0, 2], vec![0]]);
    let firsts: Vec<(u32, i32)> = l.meshes.meshes.iter()
        .flat_map(|m| m.primitives.iter().map(|p| (p.first_index, p.base_vertex)))
        .collect();
    assert_eq!(firsts, vec![(0, 0), (6, 4), (9, 6)]);
    assert_eq!(l.meshes.geometry.vertex_count, 9);
    assert_eq!(l.meshes.geometry.index_count, 12);
}

#[test]
fn placed_ranges_follow_one_another() {
    let mut s = plain_structure();
    s.meshes[0].primitives = vec![
        full_primitive(None, 4, 6),
        DocPrimitive { tex_coords: None, ..full_primitive(None, 8, 8) },
        DocPrimitive { tangents: Some(2), ..full_primitive(None, 5, 3) },
    ];
    let l = prepare_asset(&s, &no_extras(2), &no_extras(2)).unwrap();
    let placed: Vec<PrimitiveInfo> = l.meshes.meshes.iter().flat_map(|m| m.primitives.clone()).collect();
    let vertex_counts = [4, 2, 3];
    assert_eq!(placed.len(), 3);
    assert_eq!((placed[0].first_index, placed[0].base_vertex), (0, 0));
    for k in 0..2 {
        assert_eq!(placed[k].first_index + placed[k].index_count, placed[k + 1].first_index);
        assert_eq!(placed[k].base_vertex + vertex_counts[k], placed[k + 1].base_vertex);
    }
    assert_eq!((placed[2].first_index + placed[2].index_count) as usize, l.meshes.geometry.index_count);
    assert_eq!((placed[2].base_vertex + vertex_counts[2]) as usize, l.meshes.geometry.vertex_count);
}

#[test]
fn vertex_count_is_the_shortest_zipped_stream() {
    let p = DocPrimitive { tangents: Some(2), ..full_primitive(None, 4, 6) };
    assert_eq!(vertex_count(&p), 2);
    let p = DocPrimitive { joints: Some(3), weights: Some(1), ..full_primitive(None, 4, 6) };
    assert_eq!(vertex_count(&p), 1);
    // Joints without weights stand in with one default per position.
    let p = DocPrimitive { joints: Some(1), ..full_primitive(None, 4, 6) };
    assert_eq!(vertex_count(&p), 4);
    let p = DocPrimitive { tex_coords: Some(3), ..full_primitive(None, 4, 6) };
    assert_eq!(vertex_count(&p), 3);
}

#[test]
fn skinning_needs_joints_and_weights() {
    let mut s = plain_structure();
    s.meshes[1].primitives[0] = DocPrimitive { joints: Some(3), weights: Some(3), ..full_primitive(None, 3, 3) };
    let l = prepare_asset(&s, &no_extras(2), &no_extras(2)).unwrap();
    assert!(l.meshes.meshes[1].primitives[0].has_skinning_data);
    assert!(!l.meshes.meshes[0].primitives[0].has_skinning_data);
}

#[test]
fn missing_default_scene_is_refused() {
    let mut s = plain_structure();
    s.scene_roots = None;
    assert!(matches!(prepare_asset(&s, &no_extras(2), &no_extras(2)), Err(AssetError::NoDefaultScene)));
}

#[test]
fn cyclic_or_dangling_hierarchy_is_refused() {
    let mut s = plain_structure();
    s.nodes[1].children = vec![0];
    assert!(matches!(prepare_asset(&s, &no_extras(2), &no_extras(2)), Err(AssetError::InvalidHierarchy)));
    let mut s = plain_structure();
    s.nodes[1].children = vec![7];
    assert!(matches!(prepare_asset(&s, &no_extras(2), &no_extras(2)), Err(AssetError::InvalidHierarchy)));
}

#[test]
fn deepest_chain_fits() {
    let mut s = plain_structure();
    s.nodes[1].children = vec![2];
    s.nodes.push(doc_node(None, None, vec![]));
    let l = prepare_asset(&s, &no_extras(2), &no_extras(3)).unwrap();
    assert_eq!(l.scene.graph.nodes.len(), 3);
    assert_eq!(l.scene.graph.nodes[1].children, vec![2]);
}

#[test]
fn shared_children_are_flattened_twice() {
    let mut s = plain_structure();
    s.nodes.push(doc_node(None, None, vec![1]));
    s.scene_roots = Some(vec![0, 2]);
    let l = prepare_asset(&s, &no_extras(2), &no_extras(3)).unwrap();
    let order: Vec<usize> = l.scene.graph.nodes.iter().map(|n| n.gltf_index).collect();
    assert_eq!(order, vec![0, 1, 2, 1]);
}

#[test]
fn joints_outside_the_scene_are_refused() {
    let mut s = plain_structure();
    s.nodes.push(doc_node(None, None, vec![]));
    s.skins = vec![SourceSkin { joints: vec![2], skeleton: None }];
    assert!(matches!(prepare_asset(&s, &no_extras(2), &no_extras(3)), Err(AssetError::UnresolvedJoint)));
}

#[test]
fn color_texture_past_the_texture_count_is_refused() {
    let mut s = plain_structure();
    s.materials[0].emissive_texture = Some(0);
    assert!(matches!(
        prepare_asset(&s, &no_extras(2), &no_extras(2)),
        Err(AssetError::ColorTextureOutOfRange)
    ));
}

#[test]
fn float_images_are_refused() {
    let mut s = plain_structure();
    s.images = vec![DocImage { format: PixelFormat::R32G32B32Float, width: 1, height: 1, pixels: vec![0; 12] }];
    assert!(matches!(
        prepare_asset(&s, &no_extras(2), &no_extras(2)),
        Err(AssetError::UnsupportedImageFormat)
    ));
}

#[test]
fn missing_references_are_refused() {
    let mut s = plain_structure();
    s.meshes[0].primitives[0].material = Some(5);
    assert!(matches!(prepare_asset(&s, &no_extras(2), &no_extras(2)), Err(AssetError::InvalidIndex)));
    let mut s = plain_structure();
    s.nodes[1].skin = Some(0);
    assert!(matches!(prepare_asset(&s, &no_extras(2), &no_extras(2)), Err(AssetError::InvalidIndex)));
    // A dropped primitive's material is never used.
    let mut s = plain_structure();
    s.meshes[0].primitives.push(DocPrimitive { indices: None, ..full_primitive(Some(9), 3, 3) });
    assert!(prepare_asset(&s, &no_extras(2), &no_extras(2)).is_ok());
}

#[test]
fn geometry_beyond_usize_is_refused() {
    let mut s = plain_structure();
    let half = usize::MAX / 2 + 1;
    s.meshes[0].primitives = vec![full_primitive(None, half, 3), full_primitive(None, half, 3)];
    assert!(matches!(prepare_asset(&s, &no_extras(2), &no_extras(2)), Err(AssetError::GeometryTooLarge)));
}

#[test]
fn images_are_widened_and_given_formats() {
    let mut s = plain_structure();
    s.texture_count = 2;
    s.materials[0].base_color_texture = Some(1);
    s.images = vec![
        DocImage { format: PixelFormat::R8G8B8, width: 1, height: 2, pixels: vec![1, 2, 3, 4, 5, 6] },
        DocImage { format: PixelFormat::R8, width: 2, height: 1, pixels: vec![7, 8] },
    ];
    let l = prepare_asset(&s, &no_extras(2), &no_extras(2)).unwrap();
    assert_eq!(l.textures.color_flags, vec![false, true]);
    assert_eq!(l.textures.images[0].format, TextureFormat::R8G8B8A8Unorm);
    assert_eq!(l.textures.images[0].pixels, vec![1, 2, 3, 255, 4, 5, 6, 255]);
    assert_eq!(l.textures.images[1].format, TextureFormat::R8G8B8A8Srgb);
    assert_eq!(l.textures.images[1].pixels, vec![7, 7, 7, 255, 8, 8, 8, 255]);
    assert_eq!((l.textures.images[1].width, l.textures.images[1].height), (2, 1));
}

fn leaf(gltf_index: usize) -> SourceNode {
    SourceNode { gltf_index, mesh_index: None, skin_index: None, mesh_extras: None, node_extras: None, children: vec![] }
}

#[test]
fn animation_channels_are_chosen() {
    let g = SceneGraph::load(&vec![leaf(4)]);
    let keep = choose_channel(&g, 4, true, Some(ChannelOutput::Rotations));
    assert_eq!(keep, ChannelChoice { extends_duration: true, target: Some(0) });
    let morph = choose_channel(&g, 4, true, Some(ChannelOutput::MorphTargetWeights));
    assert_eq!(morph, ChannelChoice { extends_duration: true, target: None });
    let no_outputs = choose_channel(&g, 4, true, None);
    assert_eq!(no_outputs, ChannelChoice { extends_duration: true, target: None });
    let no_times = choose_channel(&g, 4, false, Some(ChannelOutput::Scales));
    assert_eq!(no_times, ChannelChoice { extends_duration: false, target: None });
    let outside = choose_channel(&g, 3, true, Some(ChannelOutput::Translations));
    assert_eq!(outside, ChannelChoice { extends_duration: false, target: None });
}
