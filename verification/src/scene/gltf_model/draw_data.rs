//! Construction of the per-instance records and indirect draw commands of an
//! asset: one instance and one command per primitive of every drawable node.
use vstd::prelude::*;
use super::{DrawIndexedIndirectCommand, NodeIndex};
use super::hierarchy::SceneNode;
use super::skins::SkinLayout;

verus! {

/// Texture slots and culling mode of a material.
#[derive(Debug, PartialEq, Eq, Structural, Copy, Clone)]
pub struct MaterialSlots {
    pub base_color_texture_index: Option<usize>,
    pub metallic_roughness_texture_index: Option<usize>,
    pub normal_texture_index: Option<usize>,
    pub double_sided: bool,
}

/// Where a primitive's geometry lives in the shared buffers.
#[derive(Debug, PartialEq, Eq, Structural, Copy, Clone)]
pub struct PrimitiveInfo {
    pub material_index: Option<usize>,
    pub first_index: u32,
    pub index_count: u32,
    pub base_vertex: i32,
    pub has_skinning_data: bool,
}

/// A mesh: whether it is kept out of the draw list, and its primitives.
pub struct MeshInfo {
    pub special: bool,
    pub primitives: Vec<PrimitiveInfo>,
}

/// What the shader needs to know about one drawn primitive, besides its
/// transform and base color factor (which the caller takes from the node and
/// from `material_index`).
#[derive(Debug, PartialEq, Eq, Structural, Copy, Clone)]
pub struct InstanceRecord {
    pub node_index: NodeIndex,
    /// A skinned instance takes its transform from the joint matrices.
    pub is_skinned: bool,
    pub material_index: Option<usize>,
    pub base_color_idx: i32,
    pub metallic_roughness_idx: i32,
    pub normal_map_idx: i32,
    pub skin_joint_offset: i32,
}

/// The instance records and the two command lists (back-face culled, and
/// double-sided) of an asset.
pub struct DrawData {
    pub instances: Vec<InstanceRecord>,
    pub culled_commands: Vec<DrawIndexedIndirectCommand>,
    pub no_cull_commands: Vec<DrawIndexedIndirectCommand>,
}

/// A primitive to draw, with the node that draws it.
pub struct DrawEntry {
    pub node_index: NodeIndex,
    pub skin_index: Option<usize>,
    pub primitive: PrimitiveInfo,
}

/// The primitives that node `node` at position `i` draws: none when it has no
/// mesh or its mesh is special.
pub open spec fn node_entries(node: SceneNode, i: int, meshes: Seq<MeshInfo>) -> Seq<DrawEntry> {
    match node.mesh_index {
        Some(m) => if meshes[m as int].special {
            Seq::empty()
        } else {
            meshes[m as int].primitives@.map_values(
                |p: PrimitiveInfo|
                    DrawEntry { node_index: i as NodeIndex, skin_index: node.skin_index, primitive: p },
            )
        },
        None => Seq::empty(),
    }
}

/// The primitives that the nodes draw, node by node.
pub open spec fn draw_entries(nodes: Seq<SceneNode>, meshes: Seq<MeshInfo>) -> Seq<DrawEntry>
    decreases nodes.len(),
{
    if nodes.len() == 0 {
        Seq::empty()
    } else {
        draw_entries(nodes.drop_last(), meshes) + node_entries(
            nodes.last(),
            nodes.len() - 1,
            meshes,
        )
    }
}

/// An optional texture slot as the shader sees it: the index, or -1.
pub open spec fn slot_index(slot: Option<usize>) -> i32 {
    match slot {
        Some(i) => i as i32,
        None => -1i32,
    }
}

/// Whether the entry's primitive is drawn through the skinning path.
pub open spec fn entry_is_skinned(e: DrawEntry) -> bool {
    e.skin_index is Some && e.primitive.has_skinning_data
}

/// The instance record of entry `e`.
pub open spec fn spec_instance(
    e: DrawEntry,
    materials: Seq<MaterialSlots>,
    skins: Seq<SkinLayout>,
) -> InstanceRecord {
    let skinned = entry_is_skinned(e);
    let (b, mr, n) = match e.primitive.material_index {
        Some(k) => (
            slot_index(materials[k as int].base_color_texture_index),
            slot_index(materials[k as int].metallic_roughness_texture_index),
            slot_index(materials[k as int].normal_texture_index),
        ),
        None => (-1i32, -1i32, -1i32),
    };
    InstanceRecord {
        node_index: e.node_index,
        is_skinned: skinned,
        material_index: e.primitive.material_index,
        base_color_idx: b,
        metallic_roughness_idx: mr,
        normal_map_idx: n,
        skin_joint_offset: if skinned {
            skins[e.skin_index->0 as int].joint_matrix_offset as i32
        } else {
            -1i32
        },
    }
}

/// Whether entry `e` is drawn without back-face culling.
pub open spec fn entry_double_sided(e: DrawEntry, materials: Seq<MaterialSlots>) -> bool {
    match e.primitive.material_index {
        Some(k) => materials[k as int].double_sided,
        None => false,
    }
}

/// The single-instance indexed draw of `p` using instance `first_instance`.
pub open spec fn spec_command(p: PrimitiveInfo, first_instance: u32) -> DrawIndexedIndirectCommand {
    DrawIndexedIndirectCommand {
        index_count: p.index_count,
        instance_count: 1,
        first_index: p.first_index,
        vertex_offset: p.base_vertex,
        first_instance,
    }
}

/// The commands of the entries, the i-th drawing instance i, split into the
/// culled list and the double-sided list, each in entry order.
pub open spec fn split_commands(entries: Seq<DrawEntry>, materials: Seq<MaterialSlots>) -> (
    Seq<DrawIndexedIndirectCommand>,
    Seq<DrawIndexedIndirectCommand>,
)
    decreases entries.len(),
{
    if entries.len() == 0 {
        (Seq::empty(), Seq::empty())
    } else {
        let (c, n) = split_commands(entries.drop_last(), materials);
        let cmd = spec_command(entries.last().primitive, (entries.len() - 1) as u32);
        if entry_double_sided(entries.last(), materials) {
            (c, n.push(cmd))
        } else {
            (c.push(cmd), n)
        }
    }
}

/// Every index the construction follows names an existing mesh, material and
/// skin.
pub open spec fn draw_inputs_valid(
    nodes: Seq<SceneNode>,
    meshes: Seq<MeshInfo>,
    materials: Seq<MaterialSlots>,
    skins: Seq<SkinLayout>,
) -> bool {
    &&& forall|i: int|
        0 <= i < nodes.len() && (#[trigger] nodes[i]).mesh_index is Some ==> nodes[i].mesh_index->0
            < meshes.len()
    &&& forall|k: int|
        0 <= k < draw_entries(nodes, meshes).len() ==> entry_valid(
            #[trigger] draw_entries(nodes, meshes)[k],
            materials,
            skins,
        )
}

/// The material and skin that entry `e` refers to exist.
pub open spec fn entry_valid(e: DrawEntry, materials: Seq<MaterialSlots>, skins: Seq<SkinLayout>) -> bool {
    &&& (e.primitive.material_index is Some ==> e.primitive.material_index->0 < materials.len())
    &&& (entry_is_skinned(e) ==> e.skin_index->0 < skins.len())
}

proof fn lemma_draw_entries_take_step(nodes: Seq<SceneNode>, meshes: Seq<MeshInfo>, i: int)
    requires
        0 <= i < nodes.len(),
    ensures
        draw_entries(nodes.take(i + 1), meshes) == draw_entries(nodes.take(i), meshes)
            + node_entries(nodes[i], i, meshes),
{
    assert(nodes.take(i + 1).drop_last() =~= nodes.take(i));
}

proof fn lemma_draw_entries_prefix(nodes: Seq<SceneNode>, meshes: Seq<MeshInfo>, i: int)
    requires
        0 <= i <= nodes.len(),
    ensures
        draw_entries(nodes.take(i), meshes).len() <= draw_entries(nodes, meshes).len(),
        forall|k: int|
            0 <= k < draw_entries(nodes.take(i), meshes).len() ==> #[trigger] draw_entries(
                nodes.take(i),
                meshes,
            )[k] == draw_entries(nodes, meshes)[k],
    decreases nodes.len() - i,
{
    if i < nodes.len() {
        lemma_draw_entries_prefix(nodes, meshes, i + 1);
        lemma_draw_entries_take_step(nodes, meshes, i);
        let short = draw_entries(nodes.take(i), meshes);
        let long = draw_entries(nodes.take(i + 1), meshes);
        assert forall|k: int| 0 <= k < short.len() implies #[trigger] short[k] == draw_entries(
            nodes,
            meshes,
        )[k] by {
            assert(short[k] == long[k]);
        }
    } else {
        assert(nodes.take(i) =~= nodes);
    }
}

proof fn lemma_split_step(entries: Seq<DrawEntry>, materials: Seq<MaterialSlots>, e: DrawEntry)
    ensures
        split_commands(entries.push(e), materials) == (if entry_double_sided(e, materials) {
            (
                split_commands(entries, materials).0,
                split_commands(entries, materials).1.push(
                    spec_command(e.primitive, entries.len() as u32),
                ),
            )
        } else {
            (
                split_commands(entries, materials).0.push(
                    spec_command(e.primitive, entries.len() as u32),
                ),
                split_commands(entries, materials).1,
            )
        }),
{
    assert(entries.push(e).drop_last() =~= entries);
}

/// Builds one instance record and one draw command per primitive of every
/// node that has a mesh which is not special, node by node and primitive by
/// primitive. The k-th command draws instance k; commands of double-sided
/// materials go to the no-cull list, the others to the culled list.
pub fn build_draw_data(
    nodes: &Vec<SceneNode>,
    meshes: &Vec<MeshInfo>,
    materials: &Vec<MaterialSlots>,
    skins: &Vec<SkinLayout>,
) -> (d: DrawData)
    requires
        draw_inputs_valid(nodes@, meshes@, materials@, skins@),
    ensures
        d.instances@ == draw_entries(nodes@, meshes@).map_values(
            |e: DrawEntry| spec_instance(e, materials@, skins@),
        ),
        (d.culled_commands@, d.no_cull_commands@) == split_commands(
            draw_entries(nodes@, meshes@),
            materials@,
        ),
{
    let ghost all = draw_entries(nodes@, meshes@);
    let mut instances: Vec<InstanceRecord> = Vec::new();
    let mut culled: Vec<DrawIndexedIndirectCommand> = Vec::new();
    let mut no_cull: Vec<DrawIndexedIndirectCommand> = Vec::new();
    proof {
        assert(nodes@.take(0) =~= Seq::<SceneNode>::empty());
        assert(instances@ =~= draw_entries(nodes@.take(0), meshes@).map_values(
            |e: DrawEntry| spec_instance(e, materials@, skins@),
        ));
    }
    let mut i: usize = 0;
    while i < nodes.len()
        invariant
            i <= nodes@.len(),
            draw_inputs_valid(nodes@, meshes@, materials@, skins@),
            all == draw_entries(nodes@, meshes@),
            instances@ == draw_entries(nodes@.take(i as int), meshes@).map_values(
                |e: DrawEntry| spec_instance(e, materials@, skins@),
            ),
            (culled@, no_cull@) == split_commands(draw_entries(nodes@.take(i as int), meshes@), materials@),
        decreases nodes@.len() - i,
    {
        let node = &nodes[i];
        let ghost before = draw_entries(nodes@.take(i as int), meshes@);
        proof {
            lemma_draw_entries_take_step(nodes@, meshes@, i as int);
            lemma_draw_entries_prefix(nodes@, meshes@, i as int + 1);
        }
        match node.mesh_index {
            Some(mesh_idx) => {
                let mesh = &meshes[mesh_idx];
                if !mesh.special {
                    let ghost row = node_entries(nodes@[i as int], i as int, meshes@);
                    let mut j: usize = 0;
                    while j < mesh.primitives.len()
                        invariant
                            j <= mesh.primitives@.len(),
                            i < nodes@.len(),
                            node == nodes@[i as int],
                            node.mesh_index == Some(mesh_idx),
                            mesh_idx < meshes@.len(),
                            mesh == meshes@[mesh_idx as int],
                            !mesh.special,
                            row == node_entries(nodes@[i as int], i as int, meshes@),
                            row.len() == mesh.primitives@.len(),
                            draw_inputs_valid(nodes@, meshes@, materials@, skins@),
                            all == draw_entries(nodes@, meshes@),
                            before == draw_entries(nodes@.take(i as int), meshes@),
                            before + row == draw_entries(nodes@.take(i + 1), meshes@),
                            draw_entries(nodes@.take(i + 1), meshes@).len() <= all.len(),
                            forall|k: int|
                                0 <= k < draw_entries(nodes@.take(i + 1), meshes@).len()
                                    ==> #[trigger] draw_entries(nodes@.take(i + 1), meshes@)[k]
                                    == all[k],
                            instances@ == (before + row.take(j as int)).map_values(
                                |e: DrawEntry| spec_instance(e, materials@, skins@),
                            ),
                            (culled@, no_cull@) == split_commands(
                                before + row.take(j as int),
                                materials@,
                            ),
                        decreases mesh.primitives@.len() - j,
                    {
                        let primitive = mesh.primitives[j];
                        let ghost e = row[j as int];
                        proof {
                            assert(e == DrawEntry {
                                node_index: i as NodeIndex,
                                skin_index: node.skin_index,
                                primitive,
                            });
                            assert((before + row)[before.len() + j] == e);
                            assert(all[before.len() + j] == e);
                            assert(entry_valid(all[before.len() + j], materials@, skins@));
                        }
                        let is_skinned = node.skin_index.is_some() && primitive.has_skinning_data;
                        let skin_joint_offset: i32 = if is_skinned {
                            match node.skin_index {
                                Some(idx) => skins[idx].joint_matrix_offset as i32,
                                None => -1,
                            }
                        } else {
                            -1
                        };
                        let (base_color_idx, metallic_roughness_idx, normal_map_idx, double_sided) =
                            match primitive.material_index {
                            Some(material_idx) => {
                                let material = materials[material_idx];
                                (
                                    slot_to_shader_index(material.base_color_texture_index),
                                    slot_to_shader_index(material.metallic_roughness_texture_index),
                                    slot_to_shader_index(material.normal_texture_index),
                                    material.double_sided,
                                )
                            },
                            None => (-1i32, -1i32, -1i32, false),
                        };
                        let first_instance = instances.len() as u32;
                        let ghost prefix = before + row.take(j as int);
                        instances.push(
                            InstanceRecord {
                                node_index: i,
                                is_skinned,
                                material_index: primitive.material_index,
                                base_color_idx,
                                metallic_roughness_idx,
                                normal_map_idx,
                                skin_joint_offset,
                            },
                        );
                        let command = DrawIndexedIndirectCommand {
                            index_count: primitive.index_count,
                            instance_count: 1,
                            first_index: primitive.first_index,
                            vertex_offset: primitive.base_vertex,
                            first_instance,
                        };
                        if double_sided {
                            no_cull.push(command);
                        } else {
                            culled.push(command);
                        }
                        proof {
                            assert(before + row.take(j + 1) =~= prefix.push(e));
                            lemma_split_step(prefix, materials@, e);
                            assert(instances@ =~= prefix.push(e).map_values(
                                |e: DrawEntry| spec_instance(e, materials@, skins@),
                            ));
                        }
                        j += 1;
                    }
                    proof {
                        assert(row.take(j as int) =~= row);
                    }
                } else {
                    proof {
                        assert(node_entries(nodes@[i as int], i as int, meshes@) =~= Seq::<
                            DrawEntry,
                        >::empty());
                        assert(before + Seq::<DrawEntry>::empty() =~= before);
                    }
                }
            },
            None => {
                proof {
                    assert(before + Seq::<DrawEntry>::empty() =~= before);
                }
            },
        }
        i += 1;
    }
    proof {
        assert(nodes@.take(i as int) =~= nodes@);
    }
    DrawData { instances, culled_commands: culled, no_cull_commands: no_cull }
}

/// Every drawn primitive gets exactly one command: the culled and no-cull
/// lists together hold as many commands as there are instance records. Each
/// command draws the instance record with the same number (its
/// `first_instance`), takes that primitive's index range, and sits in the list
/// that matches the primitive's material; within each list the commands keep
/// the order of the primitives.
pub proof fn commands_match_instances(entries: Seq<DrawEntry>, materials: Seq<MaterialSlots>)
    requires
        entries.len() <= u32::MAX + 1,
    ensures
        ({
            let (c, n) = split_commands(entries, materials);
            &&& c.len() + n.len() == entries.len()
            &&& forall|m: int|
                0 <= m < c.len() ==> {
                    let k = (#[trigger] c[m]).first_instance as int;
                    &&& k < entries.len()
                    &&& c[m] == spec_command(entries[k].primitive, k as u32)
                    &&& !entry_double_sided(entries[k], materials)
                }
            &&& forall|m: int|
                0 <= m < n.len() ==> {
                    let k = (#[trigger] n[m]).first_instance as int;
                    &&& k < entries.len()
                    &&& n[m] == spec_command(entries[k].primitive, k as u32)
                    &&& entry_double_sided(entries[k], materials)
                }
            &&& forall|a: int, b: int|
                0 <= a < b < c.len() ==> #[trigger] c[a].first_instance < #[trigger] c[b].first_instance
            &&& forall|a: int, b: int|
                0 <= a < b < n.len() ==> #[trigger] n[a].first_instance < #[trigger] n[b].first_instance
        }),
    decreases entries.len(),
{
    if entries.len() > 0 {
        let front = entries.drop_last();
        commands_match_instances(front, materials);
        let (c0, n0) = split_commands(front, materials);
        let (c, n) = split_commands(entries, materials);
        let last = (entries.len() - 1) as int;
        assert forall|k: int| 0 <= k < front.len() implies front[k] == entries[k] by {}
        assert forall|m: int| 0 <= m < c0.len() implies (c0[m].first_instance as int) < last by {
            let k = c0[m].first_instance as int;
            assert(k < front.len());
        }
        assert forall|m: int| 0 <= m < n0.len() implies (n0[m].first_instance as int) < last by {
            let k = n0[m].first_instance as int;
            assert(k < front.len());
        }
        if entry_double_sided(entries.last(), materials) {
            assert(c == c0);
            assert(n == n0.push(spec_command(entries.last().primitive, last as u32)));
        } else {
            assert(n == n0);
            assert(c == c0.push(spec_command(entries.last().primitive, last as u32)));
        }
    }
}

proof fn lemma_entries_come_from_nodes(nodes: Seq<SceneNode>, meshes: Seq<MeshInfo>)
    requires
        nodes.len() <= usize::MAX,
    ensures
        forall|k: int|
            0 <= k < draw_entries(nodes, meshes).len() ==> {
                let e = #[trigger] draw_entries(nodes, meshes)[k];
                &&& e.node_index < nodes.len()
                &&& e.skin_index == nodes[e.node_index as int].skin_index
                &&& nodes[e.node_index as int].mesh_index is Some
                &&& !meshes[nodes[e.node_index as int].mesh_index->0 as int].special
                &&& meshes[nodes[e.node_index as int].mesh_index->0 as int].primitives@.contains(
                    e.primitive,
                )
            },
    decreases nodes.len(),
{
    if nodes.len() > 0 {
        let front = nodes.drop_last();
        lemma_entries_come_from_nodes(front, meshes);
        let a = draw_entries(front, meshes);
        let last = nodes.len() - 1;
        let b = node_entries(nodes[last], last, meshes);
        assert(draw_entries(nodes, meshes) == a + b);
        assert forall|k: int| 0 <= k < (a + b).len() implies {
            let e = #[trigger] (a + b)[k];
            &&& e.node_index < nodes.len()
            &&& e.skin_index == nodes[e.node_index as int].skin_index
            &&& nodes[e.node_index as int].mesh_index is Some
            &&& !meshes[nodes[e.node_index as int].mesh_index->0 as int].special
            &&& meshes[nodes[e.node_index as int].mesh_index->0 as int].primitives@.contains(e.primitive)
        } by {
            if k < a.len() {
                assert((a + b)[k] == a[k]);
                assert(front[a[k].node_index as int] == nodes[a[k].node_index as int]);
            } else {
                let j = k - a.len();
                assert((a + b)[k] == b[j]);
                assert(b[j].node_index == last);
                let m = nodes[last].mesh_index->0 as int;
                assert(meshes[m].primitives@[j] == b[j].primitive);
            }
        }
    }
}

/// Every instance record is drawn for a node of the list; a skinned record's
/// joint offset is the first joint-matrix slot of the skin that its own node
/// names, and it is skinned only when that node has a skin and the primitive
/// has skinning data; an unskinned record has offset -1.
pub proof fn skinned_records_use_their_nodes_skin(
    nodes: Seq<SceneNode>,
    meshes: Seq<MeshInfo>,
    materials: Seq<MaterialSlots>,
    skins: Seq<SkinLayout>,
    k: int,
)
    requires
        nodes.len() <= usize::MAX,
        draw_inputs_valid(nodes, meshes, materials, skins),
        0 <= k < draw_entries(nodes, meshes).len(),
    ensures
        ({
            let e = draw_entries(nodes, meshes)[k];
            let r = draw_entries(nodes, meshes).map_values(
                |e: DrawEntry| spec_instance(e, materials, skins),
            )[k];
            let node = nodes[r.node_index as int];
            &&& r.node_index < nodes.len()
            &&& r.is_skinned == (node.skin_index is Some && e.primitive.has_skinning_data)
            &&& r.is_skinned ==> node.skin_index->0 < skins.len() && r.skin_joint_offset
                == skins[node.skin_index->0 as int].joint_matrix_offset as i32
            &&& !r.is_skinned ==> r.skin_joint_offset == -1i32
        }),
{
    lemma_entries_come_from_nodes(nodes, meshes);
    let e = draw_entries(nodes, meshes)[k];
    assert(entry_valid(e, materials, skins));
}

/// Every instance record is made from a primitive of the mesh of its own
/// node (a mesh that is not special); the record carries that primitive's
/// material and the texture slots of that material (-1 for an empty slot or
/// no material), and the primitive's draw command takes its index range and
/// base vertex and draws one instance, the record with the command's number.
pub proof fn records_follow_their_primitives(
    nodes: Seq<SceneNode>,
    meshes: Seq<MeshInfo>,
    materials: Seq<MaterialSlots>,
    skins: Seq<SkinLayout>,
    k: int,
)
    requires
        nodes.len() <= usize::MAX,
        draw_inputs_valid(nodes, meshes, materials, skins),
        0 <= k < draw_entries(nodes, meshes).len(),
    ensures
        ({
            let e = draw_entries(nodes, meshes)[k];
            let p = e.primitive;
            let r = spec_instance(e, materials, skins);
            let node = nodes[r.node_index as int];
            let c = spec_command(p, k as u32);
            &&& r.node_index < nodes.len()
            &&& node.mesh_index is Some
            &&& !meshes[node.mesh_index->0 as int].special
            &&& meshes[node.mesh_index->0 as int].primitives@.contains(p)
            &&& r.material_index == p.material_index
            &&& p.material_index is None ==> r.base_color_idx == -1i32 && r.metallic_roughness_idx
                == -1i32 && r.normal_map_idx == -1i32
            &&& p.material_index matches Some(m) ==> {
                &&& m < materials.len()
                &&& r.base_color_idx == (match materials[m as int].base_color_texture_index {
                    Some(i) => i as i32,
                    None => -1i32,
                })
                &&& r.metallic_roughness_idx == (match materials[m as int].metallic_roughness_texture_index {
                    Some(i) => i as i32,
                    None => -1i32,
                })
                &&& r.normal_map_idx == (match materials[m as int].normal_texture_index {
                    Some(i) => i as i32,
                    None => -1i32,
                })
            }
            &&& c.index_count == p.index_count
            &&& c.first_index == p.first_index
            &&& c.vertex_offset == p.base_vertex
            &&& c.instance_count == 1
            &&& c.first_instance == k as u32
        }),
{
    lemma_entries_come_from_nodes(nodes, meshes);
    assert(entry_valid(draw_entries(nodes, meshes)[k], materials, skins));
}

/// Running totals of the vertices and indices already placed in the shared
/// vertex and index buffers.
pub struct GeometryLayout {
    pub vertex_count: usize,
    pub index_count: usize,
}

impl GeometryLayout {
    /// Empty buffers.
    pub fn new() -> (l: GeometryLayout)
        ensures
            l.vertex_count == 0,
            l.index_count == 0,
    {
        GeometryLayout { vertex_count: 0, index_count: 0 }
    }

    /// Places a primitive of `vertex_count` vertices and `index_count`
    /// indices right after everything placed so far: its indices start where
    /// the placed indices end, and its indices count from the first vertex
    /// after the placed vertices.
    pub fn place_primitive(
        &mut self,
        material_index: Option<usize>,
        vertex_count: usize,
        index_count: usize,
        has_skinning_data: bool,
    ) -> (p: PrimitiveInfo)
        requires
            old(self).vertex_count + vertex_count <= usize::MAX,
            old(self).index_count + index_count <= usize::MAX,
        ensures
            p == (PrimitiveInfo {
                material_index,
                first_index: old(self).index_count as u32,
                index_count: index_count as u32,
                base_vertex: old(self).vertex_count as i32,
                has_skinning_data,
            }),
            final(self).vertex_count == old(self).vertex_count + vertex_count,
            final(self).index_count == old(self).index_count + index_count,
    {
        let p = PrimitiveInfo {
            material_index,
            first_index: self.index_count as u32,
            index_count: index_count as u32,
            base_vertex: self.vertex_count as i32,
            has_skinning_data,
        };
        self.vertex_count = self.vertex_count + vertex_count;
        self.index_count = self.index_count + index_count;
        p
    }
}

/// An optional texture slot as the shader sees it: the index, or -1.
fn slot_to_shader_index(slot: Option<usize>) -> (r: i32)
    ensures
        r == slot_index(slot),
{
    match slot {
        Some(i) => i as i32,
        None => -1,
    }
}

} // verus!
