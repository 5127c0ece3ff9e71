//! From the structure of a parsed document to the layout of an asset: which
//! primitives are kept and where their geometry goes in the shared buffers,
//! how materials and images are prepared, the flattened scene, the skins and
//! the draw lists.
use vstd::prelude::*;
use super::{NodeIndex, spec_mesh_is_special, spec_mesh_keeps_cpu_data, mesh_is_special, mesh_keeps_cpu_data, Extras};
use super::draw_data::{
    build_draw_data, draw_entries, entry_valid, node_entries, spec_instance,
    split_commands, DrawData, DrawEntry, GeometryLayout, MaterialSlots, MeshInfo, PrimitiveInfo,
};
use super::import::{DocImage, DocMaterial, DocMesh, DocNode, DocPrimitive};
use super::skins::{
    joints_resolvable, lemma_source_total_monotone, lemma_totals_agree, load_skins, resolved_skin,
    source_joint_total, total_joint_count, SkinLayout, SourceSkin,
};
use super::import::GltfStructure;
use super::hierarchy::{
    aux_fold, aux_step, appended_views, child_positions, empty_aux, preorder, preorder_forest, FlatAux,
    SceneGraph, SceneNode, SourceNode,
};
use super::textures::{
    convert_to_vk_format, expand_pixels, expanded_pixels, is_color_image, is_supported_format,
    spec_texture_format, texture_color_flags, PixelFormat, TextureFormat,
};

verus! {

/// The metadata at position `i`, or none past the end.
pub open spec fn extras_at(v: Seq<Option<Extras>>, i: int) -> Option<Extras> {
    if 0 <= i < v.len() {
        v[i]
    } else {
        None
    }
}

/// The metadata at position `i`, or none past the end.
pub fn extras_get(v: &Vec<Option<Extras>>, i: usize) -> (r: Option<Extras>)
    ensures
        r == extras_at(v@, i as int),
{
    if i < v.len() {
        v[i]
    } else {
        None
    }
}

// ---------------------------------------------------------------------------
// Primitives and their geometry
// ---------------------------------------------------------------------------

/// A primitive is drawn only when it has positions, indices, texture
/// coordinates and normals.
pub open spec fn is_kept(p: DocPrimitive) -> bool {
    &&& p.positions is Some
    &&& p.indices is Some
    &&& p.tex_coords is Some
    &&& p.normals is Some
}

/// A primitive is skinned when it has both joint indices and joint weights.
pub open spec fn has_skinning(p: DocPrimitive) -> bool {
    p.joints is Some && p.weights is Some
}

/// The smaller of two integers.
pub open spec fn min_of(a: int, b: int) -> int {
    if a <= b {
        a
    } else {
        b
    }
}

/// Number of vertices built for a kept primitive: the streams are zipped, so
/// the shortest one decides. Missing tangents and missing joint data stand in
/// with one default per position; joint indices and weights are zipped with
/// each other first.
pub open spec fn spec_vertex_count(p: DocPrimitive) -> int {
    let n = p.positions->0 as int;
    let tangents = match p.tangents {
        Some(t) => t as int,
        None => n,
    };
    let joints = match (p.joints, p.weights) {
        (Some(j), Some(w)) => min_of(j as int, w as int),
        _ => n,
    };
    min_of(min_of(min_of(n, p.tex_coords->0 as int), min_of(p.normals->0 as int, tangents)), joints)
}

/// Number of indices of a kept primitive.
pub open spec fn spec_index_count(p: DocPrimitive) -> int {
    p.indices->0 as int
}

/// Vertices placed for the kept primitives among `ps`.
pub open spec fn kept_vertex_total(ps: Seq<DocPrimitive>) -> int
    decreases ps.len(),
{
    if ps.len() == 0 {
        0
    } else {
        kept_vertex_total(ps.drop_last()) + if is_kept(ps.last()) {
            spec_vertex_count(ps.last())
        } else {
            0
        }
    }
}

/// Indices placed for the kept primitives among `ps`.
pub open spec fn kept_index_total(ps: Seq<DocPrimitive>) -> int
    decreases ps.len(),
{
    if ps.len() == 0 {
        0
    } else {
        kept_index_total(ps.drop_last()) + if is_kept(ps.last()) {
            spec_index_count(ps.last())
        } else {
            0
        }
    }
}

/// The kept primitives among `ps`, in order, each placed right after the
/// ones before it, counting from `v` vertices and `i` indices already placed.
pub open spec fn placed_primitives(ps: Seq<DocPrimitive>, v: int, i: int) -> Seq<PrimitiveInfo>
    decreases ps.len(),
{
    if ps.len() == 0 {
        Seq::empty()
    } else {
        let front = ps.drop_last();
        let p = ps.last();
        if is_kept(p) {
            placed_primitives(front, v, i).push(
                PrimitiveInfo {
                    material_index: p.material,
                    first_index: (i + kept_index_total(front)) as u32,
                    index_count: spec_index_count(p) as u32,
                    base_vertex: (v + kept_vertex_total(front)) as i32,
                    has_skinning_data: has_skinning(p),
                },
            )
        } else {
            placed_primitives(front, v, i)
        }
    }
}

/// Positions, among `ps`, of the kept primitives.
pub open spec fn kept_slots(ps: Seq<DocPrimitive>) -> Seq<usize>
    decreases ps.len(),
{
    if ps.len() == 0 {
        Seq::empty()
    } else if is_kept(ps.last()) {
        kept_slots(ps.drop_last()).push((ps.len() - 1) as usize)
    } else {
        kept_slots(ps.drop_last())
    }
}

/// The primitives of all meshes, mesh after mesh.
pub open spec fn flat_primitives(meshes: Seq<DocMesh>) -> Seq<DocPrimitive>
    decreases meshes.len(),
{
    if meshes.len() == 0 {
        Seq::empty()
    } else {
        flat_primitives(meshes.drop_last()) + meshes.last().primitives@
    }
}

proof fn lemma_totals_nonneg(ps: Seq<DocPrimitive>)
    ensures
        kept_vertex_total(ps) >= 0,
        kept_index_total(ps) >= 0,
    decreases ps.len(),
{
    if ps.len() > 0 {
        lemma_totals_nonneg(ps.drop_last());
    }
}

proof fn lemma_totals_concat(a: Seq<DocPrimitive>, b: Seq<DocPrimitive>)
    ensures
        kept_vertex_total(a + b) == kept_vertex_total(a) + kept_vertex_total(b),
        kept_index_total(a + b) == kept_index_total(a) + kept_index_total(b),
    decreases b.len(),
{
    if b.len() == 0 {
        assert(a + b =~= a);
    } else {
        assert((a + b).drop_last() =~= a + b.drop_last());
        lemma_totals_concat(a, b.drop_last());
    }
}

proof fn lemma_flat_take(meshes: Seq<DocMesh>, m: int)
    requires
        0 <= m < meshes.len(),
    ensures
        flat_primitives(meshes.take(m + 1)) == flat_primitives(meshes.take(m)) + meshes[m].primitives@,
{
    assert(meshes.take(m + 1).drop_last() =~= meshes.take(m));
}

proof fn lemma_flat_prefix_totals(meshes: Seq<DocMesh>, m: int)
    requires
        0 <= m <= meshes.len(),
    ensures
        kept_vertex_total(flat_primitives(meshes.take(m))) <= kept_vertex_total(flat_primitives(meshes)),
        kept_index_total(flat_primitives(meshes.take(m))) <= kept_index_total(flat_primitives(meshes)),
    decreases meshes.len() - m,
{
    if m < meshes.len() {
        lemma_flat_prefix_totals(meshes, m + 1);
        lemma_flat_take(meshes, m);
        lemma_totals_concat(flat_primitives(meshes.take(m)), meshes[m].primitives@);
        lemma_totals_nonneg(meshes[m].primitives@);
    } else {
        assert(meshes.take(m) =~= meshes);
    }
}

fn min_usize(a: usize, b: usize) -> (r: usize)
    ensures
        r == min_of(a as int, b as int),
{
    if a <= b {
        a
    } else {
        b
    }
}

/// Number of vertices built for a kept primitive.
pub fn vertex_count(p: &DocPrimitive) -> (n: usize)
    requires
        is_kept(*p),
    ensures
        n == spec_vertex_count(*p),
{
    let n = match p.positions {
        Some(n) => n,
        None => 0,
    };
    let tex = match p.tex_coords {
        Some(t) => t,
        None => 0,
    };
    let normals = match p.normals {
        Some(t) => t,
        None => 0,
    };
    let tangents = match p.tangents {
        Some(t) => t,
        None => n,
    };
    let joints = match (p.joints, p.weights) {
        (Some(j), Some(w)) => min_usize(j, w),
        _ => n,
    };
    min_usize(min_usize(min_usize(n, tex), min_usize(normals, tangents)), joints)
}

/// Whether a primitive is drawn (it has positions, indices, texture
/// coordinates and normals).
pub fn keeps_primitive(p: &DocPrimitive) -> (b: bool)
    ensures
        b == is_kept(*p),
{
    p.positions.is_some() && p.indices.is_some() && p.tex_coords.is_some() && p.normals.is_some()
}

/// The geometry layout of the meshes of an asset.
pub struct MeshLayout {
    /// Per mesh: whether it is special, and its kept primitives placed in
    /// the shared buffers.
    pub meshes: Vec<MeshInfo>,
    /// Per mesh: positions of the kept primitives among its primitives.
    pub kept: Vec<Vec<usize>>,
    /// Per mesh: whether it keeps a CPU-side copy of its geometry.
    pub keeps_cpu_data: Vec<bool>,
    /// Vertices and indices placed in all.
    pub geometry: GeometryLayout,
}

/// Whether `l` lays out `meshes` with metadata `extras`: mesh `m` holds its
/// kept primitives placed after those of the meshes before it.
pub open spec fn lays_out_meshes(l: MeshLayout, meshes: Seq<DocMesh>, extras: Seq<Option<Extras>>) -> bool {
    &&& l.meshes@.len() == meshes.len()
    &&& l.kept@.len() == meshes.len()
    &&& l.keeps_cpu_data@.len() == meshes.len()
    &&& forall|m: int|
        0 <= m < meshes.len() ==> {
            &&& (#[trigger] l.meshes@[m]).special == spec_mesh_is_special(extras_at(extras, m))
            &&& l.meshes@[m].primitives@ == placed_primitives(
                meshes[m].primitives@,
                kept_vertex_total(flat_primitives(meshes.take(m))),
                kept_index_total(flat_primitives(meshes.take(m))),
            )
            &&& l.kept@[m]@ == kept_slots(meshes[m].primitives@)
            &&& l.keeps_cpu_data@[m] == spec_mesh_keeps_cpu_data(extras_at(extras, m))
        }
    &&& l.geometry.vertex_count == kept_vertex_total(flat_primitives(meshes))
    &&& l.geometry.index_count == kept_index_total(flat_primitives(meshes))
}

/// Lays out the meshes of an asset: the primitives that have positions,
/// indices, texture coordinates and normals are kept, in order; each kept
/// primitive's indices start where those of the kept primitives before it
/// (in this mesh and all earlier meshes) end, and its base vertex is the
/// number of vertices placed before it. `None` when the totals do not fit in
/// a `usize`.
#[verifier::spinoff_prover]
pub fn layout_meshes(meshes: &Vec<DocMesh>, extras: &Vec<Option<Extras>>) -> (r: Option<MeshLayout>)
    ensures
        r is Some == (kept_vertex_total(flat_primitives(meshes@)) <= usize::MAX && kept_index_total(
            flat_primitives(meshes@),
        ) <= usize::MAX),
        r matches Some(l) ==> lays_out_meshes(l, meshes@, extras@),
{
    let mut infos: Vec<MeshInfo> = Vec::new();
    let mut kept: Vec<Vec<usize>> = Vec::new();
    let mut cpu: Vec<bool> = Vec::new();
    let mut geometry = GeometryLayout::new();
    let mut m: usize = 0;
    proof {
        assert(meshes@.take(0) =~= Seq::<DocMesh>::empty());
    }
    while m < meshes.len()
        invariant
            m <= meshes@.len(),
            infos@.len() == m,
            kept@.len() == m,
            cpu@.len() == m,
            geometry.vertex_count == kept_vertex_total(flat_primitives(meshes@.take(m as int))),
            geometry.index_count == kept_index_total(flat_primitives(meshes@.take(m as int))),
            forall|k: int|
                0 <= k < m ==> {
                    &&& (#[trigger] infos@[k]).special == spec_mesh_is_special(extras_at(extras@, k))
                    &&& infos@[k].primitives@ == placed_primitives(
                        meshes@[k].primitives@,
                        kept_vertex_total(flat_primitives(meshes@.take(k))),
                        kept_index_total(flat_primitives(meshes@.take(k))),
                    )
                    &&& kept@[k]@ == kept_slots(meshes@[k].primitives@)
                    &&& cpu@[k] == spec_mesh_keeps_cpu_data(extras_at(extras@, k))
                },
        decreases meshes@.len() - m,
    {
        let mesh = &meshes[m];
        let mesh_extras = extras_get(extras, m);
        let ghost base = flat_primitives(meshes@.take(m as int));
        let ghost bv = kept_vertex_total(base);
        let ghost bi = kept_index_total(base);
        let mut prims: Vec<PrimitiveInfo> = Vec::new();
        let mut slots: Vec<usize> = Vec::new();
        let mut j: usize = 0;
        proof {
            assert(mesh.primitives@.take(0) =~= Seq::<DocPrimitive>::empty());
            assert(base + Seq::<DocPrimitive>::empty() =~= base);
        }
        while j < mesh.primitives.len()
            invariant
                m < meshes@.len(),
                mesh == meshes@[m as int],
                base == flat_primitives(meshes@.take(m as int)),
                bv == kept_vertex_total(base),
                bi == kept_index_total(base),
                j <= mesh.primitives@.len(),
                geometry.vertex_count == kept_vertex_total(base + mesh.primitives@.take(j as int)),
                geometry.index_count == kept_index_total(base + mesh.primitives@.take(j as int)),
                prims@ == placed_primitives(mesh.primitives@.take(j as int), bv, bi),
                slots@ == kept_slots(mesh.primitives@.take(j as int)),
            decreases mesh.primitives@.len() - j,
        {
            let p = mesh.primitives[j];
            let ghost front = mesh.primitives@.take(j as int);
            proof {
                assert(mesh.primitives@.take(j + 1).drop_last() =~= front);
                assert(mesh.primitives@.take(j + 1).last() == p);
                assert((base + mesh.primitives@.take(j + 1)).drop_last() =~= base + front);
                lemma_totals_concat(base, front);
            }
            if keeps_primitive(&p) {
                let vc = vertex_count(&p);
                let ic = match p.indices {
                    Some(n) => n,
                    None => 0,
                };
                if geometry.vertex_count > usize::MAX - vc || geometry.index_count > usize::MAX - ic {
                    proof {
                        lemma_prefix_totals_bound(meshes@, m as int, j as int + 1);
                    }
                    return None;
                }
                let info = geometry.place_primitive(p.material, vc, ic, p.joints.is_some() && p.weights.is_some());
                prims.push(info);
                slots.push(j);
            }
            j += 1;
        }
        proof {
            assert(mesh.primitives@.take(j as int) =~= mesh.primitives@);
            lemma_flat_take(meshes@, m as int);
            assert(meshes@.take(m + 1).take(m as int) =~= meshes@.take(m as int));
        }
        let ghost prims_view = prims@;
        let ghost slots_view = slots@;
        let ghost old_infos = infos@;
        let ghost old_kept = kept@;
        let ghost old_cpu = cpu@;
        assert(forall|k: int|
            0 <= k < m ==> {
                &&& (#[trigger] old_infos[k]).special == spec_mesh_is_special(extras_at(extras@, k))
                &&& old_infos[k].primitives@ == placed_primitives(
                    meshes@[k].primitives@,
                    kept_vertex_total(flat_primitives(meshes@.take(k))),
                    kept_index_total(flat_primitives(meshes@.take(k))),
                )
                &&& old_kept[k]@ == kept_slots(meshes@[k].primitives@)
                &&& old_cpu[k] == spec_mesh_keeps_cpu_data(extras_at(extras@, k))
            });
        infos.push(MeshInfo { special: mesh_is_special(&mesh_extras), primitives: prims });
        kept.push(slots);
        cpu.push(mesh_keeps_cpu_data(&mesh_extras));
        proof {
            assert(prims_view == placed_primitives(meshes@[m as int].primitives@, bv, bi));
            assert(infos@[m as int].primitives@ == prims_view);
            assert(kept@[m as int]@ == slots_view);
            assert(slots_view == kept_slots(meshes@[m as int].primitives@));
            assert(infos@[m as int].special == spec_mesh_is_special(extras_at(extras@, m as int)));
            assert(cpu@[m as int] == spec_mesh_keeps_cpu_data(extras_at(extras@, m as int)));
            assert forall|k: int| 0 <= k < m implies infos@[k] == old_infos[k] && kept@[k] == old_kept[k]
                && cpu@[k] == old_cpu[k] by {}
        }
        m += 1;
    }
    proof {
        assert(meshes@.take(m as int) =~= meshes@);
    }
    Some(MeshLayout { meshes: infos, kept, keeps_cpu_data: cpu, geometry })
}

/// The totals over the primitives of the first `m` meshes and the first `j`
/// primitives of mesh `m` are at most the totals over all meshes.
proof fn lemma_prefix_totals_bound(meshes: Seq<DocMesh>, m: int, j: int)
    requires
        0 <= m < meshes.len(),
        0 <= j <= meshes[m].primitives@.len(),
    ensures
        kept_vertex_total(flat_primitives(meshes.take(m)) + meshes[m].primitives@.take(j))
            <= kept_vertex_total(flat_primitives(meshes)),
        kept_index_total(flat_primitives(meshes.take(m)) + meshes[m].primitives@.take(j))
            <= kept_index_total(flat_primitives(meshes)),
{
    let ps = meshes[m].primitives@;
    let base = flat_primitives(meshes.take(m));
    lemma_totals_concat(base, ps.take(j));
    lemma_totals_concat(ps.take(j), ps.skip(j));
    assert(ps.take(j) + ps.skip(j) =~= ps);
    lemma_totals_nonneg(ps.skip(j));
    lemma_flat_take(meshes, m);
    lemma_totals_concat(base, ps);
    lemma_flat_prefix_totals(meshes, m + 1);
}

/// The placed primitives of the meshes, mesh after mesh.
pub open spec fn all_placed(meshes: Seq<MeshInfo>) -> Seq<PrimitiveInfo>
    decreases meshes.len(),
{
    if meshes.len() == 0 {
        Seq::empty()
    } else {
        all_placed(meshes.drop_last()) + meshes.last().primitives@
    }
}

proof fn lemma_placed_concat(a: Seq<DocPrimitive>, b: Seq<DocPrimitive>, v: int, i: int)
    ensures
        placed_primitives(a + b, v, i) == placed_primitives(a, v, i) + placed_primitives(
            b,
            v + kept_vertex_total(a),
            i + kept_index_total(a),
        ),
    decreases b.len(),
{
    if b.len() == 0 {
        assert(a + b =~= a);
        assert(placed_primitives(a, v, i) + Seq::<PrimitiveInfo>::empty() =~= placed_primitives(a, v, i));
    } else {
        let bf = b.drop_last();
        assert((a + b).drop_last() =~= a + bf);
        assert((a + b).last() == b.last());
        lemma_placed_concat(a, bf, v, i);
        lemma_totals_concat(a, bf);
        let x = placed_primitives(a, v, i);
        let y = placed_primitives(bf, v + kept_vertex_total(a), i + kept_index_total(a));
        if is_kept(b.last()) {
            let e = placed_primitives(b, v + kept_vertex_total(a), i + kept_index_total(a)).last();
            assert((x + y).push(e) =~= x + y.push(e));
        }
    }
}

/// Laying out the meshes one after another places every kept primitive of
/// the asset as if all primitives formed one list placed from offset zero:
/// the running offsets carry on from mesh to mesh.
pub proof fn mesh_layouts_concatenate(l: MeshLayout, meshes: Seq<DocMesh>, extras: Seq<Option<Extras>>)
    requires
        lays_out_meshes(l, meshes, extras),
    ensures
        all_placed(l.meshes@) == placed_primitives(flat_primitives(meshes), 0, 0),
{
    lemma_all_placed_prefix(l, meshes, extras, meshes.len() as int);
    assert(l.meshes@.take(meshes.len() as int) =~= l.meshes@);
    assert(meshes.take(meshes.len() as int) =~= meshes);
}

proof fn lemma_all_placed_prefix(l: MeshLayout, meshes: Seq<DocMesh>, extras: Seq<Option<Extras>>, m: int)
    requires
        lays_out_meshes(l, meshes, extras),
        0 <= m <= meshes.len(),
    ensures
        all_placed(l.meshes@.take(m)) == placed_primitives(flat_primitives(meshes.take(m)), 0, 0),
    decreases m,
{
    if m == 0 {
        assert(meshes.take(0) =~= Seq::<DocMesh>::empty());
        assert(l.meshes@.take(0) =~= Seq::<MeshInfo>::empty());
    } else {
        lemma_all_placed_prefix(l, meshes, extras, m - 1);
        assert(l.meshes@.take(m).drop_last() =~= l.meshes@.take(m - 1));
        lemma_flat_take(meshes, m - 1);
        let base = flat_primitives(meshes.take(m - 1));
        lemma_placed_concat(base, meshes[m - 1].primitives@, 0, 0);
        assert(l.meshes@.take(m).last() == l.meshes@[m - 1]);
    }
}

/// The placed primitives tile the index and vertex ranges they were given:
/// placed primitive `k` is the `k`-th kept one, takes that primitive's index
/// count, and its index and vertex ranges end where those of the next one
/// start (the last ones where the totals end); the first starts at the given
/// offsets. Stated for totals that fit the buffers' 32-bit offsets.
pub proof fn placed_ranges_tile(ps: Seq<DocPrimitive>, v: int, i: int)
    requires
        ps.len() <= usize::MAX,
        0 <= v,
        0 <= i,
        v + kept_vertex_total(ps) <= i32::MAX,
        i + kept_index_total(ps) <= u32::MAX,
    ensures
        ({
            let placed = placed_primitives(ps, v, i);
            let slots = kept_slots(ps);
            &&& slots.len() == placed.len()
            &&& placed.len() > 0 ==> placed[0].first_index == i && placed[0].base_vertex == v
            &&& placed.len() == 0 ==> kept_index_total(ps) == 0 && kept_vertex_total(ps) == 0
            &&& forall|k: int|
                0 <= k < placed.len() ==> {
                    let p = ps[#[trigger] slots[k] as int];
                    &&& slots[k] < ps.len()
                    &&& is_kept(p)
                    &&& placed[k].index_count == spec_index_count(p)
                    &&& placed[k].material_index == p.material
                    &&& placed[k].first_index + placed[k].index_count == if k + 1 < placed.len() {
                        placed[k + 1].first_index as int
                    } else {
                        i + kept_index_total(ps)
                    }
                    &&& placed[k].base_vertex + spec_vertex_count(p) == if k + 1 < placed.len() {
                        placed[k + 1].base_vertex as int
                    } else {
                        v + kept_vertex_total(ps)
                    }
                }
        }),
    decreases ps.len(),
{
    if ps.len() > 0 {
        let front = ps.drop_last();
        let last = ps.last();
        lemma_totals_nonneg(front);
        lemma_totals_nonneg(ps);
        assert(spec_vertex_count(last) >= 0);
        placed_ranges_tile(front, v, i);
        let pf = placed_primitives(front, v, i);
        let sf = kept_slots(front);
        let placed = placed_primitives(ps, v, i);
        let slots = kept_slots(ps);
        assert forall|k: int| 0 <= k < sf.len() implies #[trigger] ps[sf[k] as int] == front[sf[k] as int] by {
            assert(sf[k] < front.len());
        }
        if is_kept(last) {
            assert(placed == pf.push(placed[placed.len() - 1]));
            assert(slots == sf.push((ps.len() - 1) as usize));
            assert forall|k: int| 0 <= k < placed.len() implies {
                let p = ps[#[trigger] slots[k] as int];
                &&& slots[k] < ps.len()
                &&& is_kept(p)
                &&& placed[k].index_count == spec_index_count(p)
                &&& placed[k].material_index == p.material
                &&& placed[k].first_index + placed[k].index_count == if k + 1 < placed.len() {
                    placed[k + 1].first_index as int
                } else {
                    i + kept_index_total(ps)
                }
                &&& placed[k].base_vertex + spec_vertex_count(p) == if k + 1 < placed.len() {
                    placed[k + 1].base_vertex as int
                } else {
                    v + kept_vertex_total(ps)
                }
            } by {
                if k < pf.len() {
                    assert(placed[k] == pf[k]);
                    assert(slots[k] == sf[k]);
                    if k + 1 == pf.len() {
                        assert(placed[k + 1] == placed[placed.len() - 1]);
                    } else {
                        assert(placed[k + 1] == pf[k + 1]);
                    }
                } else {
                    assert(slots[k] == (ps.len() - 1) as usize);
                    assert(ps[slots[k] as int] == last);
                }
            }
            if pf.len() == 0 {
                assert(placed[0] == placed[placed.len() - 1]);
            } else {
                assert(placed[0] == pf[0]);
            }
        } else {
            assert(placed == pf);
            assert(slots == sf);
            assert forall|k: int| 0 <= k < sf.len() implies #[trigger] slots[k] == sf[k] by {}
        }
    }
}

// ---------------------------------------------------------------------------
// Materials and images
// ---------------------------------------------------------------------------

/// Why an asset cannot be laid out.
#[derive(Debug, PartialEq, Eq, Structural, Copy, Clone)]
pub enum AssetError {
    /// A material samples, as color, an image index past the texture count.
    ColorTextureOutOfRange,
    /// An image has 32-bit float channels.
    UnsupportedImageFormat,
    /// The vertex or index totals do not fit in a `usize`.
    GeometryTooLarge,
    /// The document names no default scene.
    NoDefaultScene,
    /// The node hierarchy names a missing node or does not end.
    InvalidHierarchy,
    /// A skin's joint is not a node of the default scene.
    UnresolvedJoint,
    /// The skins' joint matrices do not fit in 32-bit offsets.
    TooManyJoints,
    /// A node names a missing mesh or skin, or a kept primitive a missing
    /// material.
    InvalidIndex,
}

/// The texture slots and culling mode of a material.
pub open spec fn slots_of(m: DocMaterial) -> MaterialSlots {
    MaterialSlots {
        base_color_texture_index: m.base_color_texture,
        metallic_roughness_texture_index: m.metallic_roughness_texture,
        normal_texture_index: m.normal_texture,
        double_sided: m.double_sided,
    }
}

/// The images that the materials sample as color, material after material:
/// the base color image, then the emissive image.
pub open spec fn color_images(ms: Seq<DocMaterial>) -> Seq<usize>
    decreases ms.len(),
{
    if ms.len() == 0 {
        Seq::empty()
    } else {
        let front = color_images(ms.drop_last());
        let m = ms.last();
        let with_base = match m.base_color_texture {
            Some(i) => front.push(i),
            None => front,
        };
        match m.emissive_texture {
            Some(i) => with_base.push(i),
            None => with_base,
        }
    }
}

/// Whether every image sampled as color is below the texture count.
pub open spec fn color_images_in_range(ms: Seq<DocMaterial>, texture_count: usize) -> bool {
    forall|k: int| 0 <= k < color_images(ms).len() ==> #[trigger] color_images(ms)[k] < texture_count
}

/// Whether every image has a supported pixel layout.
pub open spec fn images_supported(images: Seq<DocImage>) -> bool {
    forall|i: int| 0 <= i < images.len() ==> is_supported_format(#[trigger] images[i].format)
}

/// Whether image `i` holds color data according to `flags`.
pub open spec fn flagged_color(flags: Seq<bool>, i: int) -> bool {
    i < flags.len() && flags[i]
}

/// An image ready for upload.
pub struct PreparedImage {
    pub format: TextureFormat,
    pub width: u32,
    pub height: u32,
    pub pixels: Vec<u8>,
}

/// Whether `img` is `src` prepared for upload as color data when `color`.
pub open spec fn prepared_from(img: PreparedImage, src: DocImage, color: bool) -> bool {
    &&& img.format == spec_texture_format(src.format, color)
    &&& img.width == src.width
    &&& img.height == src.height
    &&& img.pixels@ == expanded_pixels(src.format, color, src.pixels@)
}

/// Material slots, color flags and prepared images of an asset.
pub struct TextureLayout {
    pub materials: Vec<MaterialSlots>,
    /// Per texture: whether some material samples it as color.
    pub color_flags: Vec<bool>,
    pub images: Vec<PreparedImage>,
}

/// Whether `t` holds the materials, color flags and images prepared from
/// the given parts of a document.
pub open spec fn lays_out_textures(
    t: TextureLayout,
    materials: Seq<DocMaterial>,
    texture_count: usize,
    images: Seq<DocImage>,
) -> bool {
    &&& t.materials@ == materials.map_values(|m: DocMaterial| slots_of(m))
    &&& t.color_flags@.len() == texture_count
    &&& forall|i: int|
        0 <= i < texture_count ==> #[trigger] t.color_flags@[i] == color_images(materials).contains(
            i as usize,
        )
    &&& t.images@.len() == images.len()
    &&& forall|i: int|
        0 <= i < images.len() ==> prepared_from(
            #[trigger] t.images@[i],
            images[i],
            flagged_color(t.color_flags@, i),
        )
}

/// Each prepared material keeps the document material's own textures and
/// culling mode: base color, metallic-roughness and normal slots hold the
/// images of the same slots of the document material.
pub proof fn prepared_materials_keep_their_slots(
    t: TextureLayout,
    materials: Seq<DocMaterial>,
    texture_count: usize,
    images: Seq<DocImage>,
    k: int,
)
    requires
        lays_out_textures(t, materials, texture_count, images),
        0 <= k < materials.len(),
    ensures
        t.materials@.len() == materials.len(),
        t.materials@[k].base_color_texture_index == materials[k].base_color_texture,
        t.materials@[k].metallic_roughness_texture_index == materials[k].metallic_roughness_texture,
        t.materials@[k].normal_texture_index == materials[k].normal_texture,
        t.materials@[k].double_sided == materials[k].double_sided,
{
}

/// Whether some material samples image `x` as base color or emissive
/// texture.
pub open spec fn sampled_as_color(ms: Seq<DocMaterial>, x: usize) -> bool {
    exists|k: int|
        0 <= k < ms.len() && ((#[trigger] ms[k]).base_color_texture == Some(x) || ms[k].emissive_texture
            == Some(x))
}

proof fn lemma_color_images_contains(ms: Seq<DocMaterial>, x: usize)
    ensures
        color_images(ms).contains(x) <==> sampled_as_color(ms, x),
    decreases ms.len(),
{
    if ms.len() > 0 {
        let front = ms.drop_last();
        let m = ms.last();
        lemma_color_images_contains(front, x);
        let cf = color_images(front);
        let with_base = match m.base_color_texture {
            Some(i) => cf.push(i),
            None => cf,
        };
        let all = color_images(ms);
        assert(with_base.contains(x) <==> (cf.contains(x) || m.base_color_texture == Some(x))) by {
            if let Some(i) = m.base_color_texture {
                if with_base.contains(x) {
                    let j = choose|j: int| 0 <= j < with_base.len() && with_base[j] == x;
                    if j < cf.len() {
                        assert(cf[j] == x);
                    }
                }
                if cf.contains(x) {
                    let j = choose|j: int| 0 <= j < cf.len() && cf[j] == x;
                    assert(with_base[j] == x);
                }
                assert(with_base[cf.len() as int] == i);
            }
        }
        assert(all.contains(x) <==> (with_base.contains(x) || m.emissive_texture == Some(x))) by {
            if let Some(i) = m.emissive_texture {
                if all.contains(x) {
                    let j = choose|j: int| 0 <= j < all.len() && all[j] == x;
                    if j < with_base.len() {
                        assert(with_base[j] == x);
                    }
                }
                if with_base.contains(x) {
                    let j = choose|j: int| 0 <= j < with_base.len() && with_base[j] == x;
                    assert(all[j] == x);
                }
                assert(all[with_base.len() as int] == i);
            }
        }
        if sampled_as_color(ms, x) {
            let k = choose|k: int|
                0 <= k < ms.len() && ((#[trigger] ms[k]).base_color_texture == Some(x)
                    || ms[k].emissive_texture == Some(x));
            if k < front.len() {
                assert(front[k] == ms[k]);
            }
        }
        if sampled_as_color(front, x) {
            let k = choose|k: int|
                0 <= k < front.len() && ((#[trigger] front[k]).base_color_texture == Some(x)
                    || front[k].emissive_texture == Some(x));
            assert(ms[k] == front[k]);
        }
        if m.base_color_texture == Some(x) || m.emissive_texture == Some(x) {
            assert(ms[ms.len() - 1] == m);
        }
    }
}

/// A texture is marked as color data exactly when some material samples it
/// as its base color or emissive texture; metallic-roughness and normal
/// textures alone never make it color data.
pub proof fn color_flags_mark_color_textures(
    t: TextureLayout,
    materials: Seq<DocMaterial>,
    texture_count: usize,
    images: Seq<DocImage>,
    i: int,
)
    requires
        lays_out_textures(t, materials, texture_count, images),
        0 <= i < texture_count,
    ensures
        t.color_flags@[i] == sampled_as_color(materials, i as usize),
{
    lemma_color_images_contains(materials, i as usize);
}

fn collect_color_images(materials: &Vec<DocMaterial>) -> (r: Vec<usize>)
    ensures
        r@ == color_images(materials@),
{
    let mut r: Vec<usize> = Vec::new();
    let mut k: usize = 0;
    while k < materials.len()
        invariant
            k <= materials@.len(),
            r@ == color_images(materials@.take(k as int)),
        decreases materials@.len() - k,
    {
        proof {
            assert(materials@.take(k + 1).drop_last() =~= materials@.take(k as int));
        }
        let m = materials[k];
        if let Some(i) = m.base_color_texture {
            r.push(i);
        }
        if let Some(i) = m.emissive_texture {
            r.push(i);
        }
        k += 1;
    }
    proof {
        assert(materials@.take(k as int) =~= materials@);
    }
    r
}

fn pixel_format_supported(format: PixelFormat) -> (b: bool)
    ensures
        b == is_supported_format(format),
{
    match format {
        PixelFormat::R32G32B32Float | PixelFormat::R32G32B32A32Float => false,
        _ => true,
    }
}

/// Prepares the materials and images of an asset: the material slots are
/// kept as they are; an image is color data when some material samples it
/// as base color or emissive texture; each image is widened and given the
/// GPU format that [`spec_texture_format`] names.
/// Fails when a color image index is not below the texture count, and then
/// when an image has float channels.
pub fn prepare_textures(materials: &Vec<DocMaterial>, texture_count: usize, images: &Vec<DocImage>) -> (r: Result<TextureLayout, AssetError>)
    ensures
        r matches Err(AssetError::ColorTextureOutOfRange) <==> !color_images_in_range(
            materials@,
            texture_count,
        ),
        r matches Err(AssetError::UnsupportedImageFormat) <==> color_images_in_range(
            materials@,
            texture_count,
        ) && !images_supported(images@),
        r is Ok <==> color_images_in_range(materials@, texture_count) && images_supported(images@),
        r matches Ok(t) ==> lays_out_textures(t, materials@, texture_count, images@),
{
    let color = collect_color_images(materials);
    let mut k: usize = 0;
    while k < color.len()
        invariant
            k <= color@.len(),
            color@ == color_images(materials@),
            forall|j: int| 0 <= j < k ==> #[trigger] color@[j] < texture_count,
        decreases color@.len() - k,
    {
        if color[k] >= texture_count {
            return Err(AssetError::ColorTextureOutOfRange);
        }
        k += 1;
    }
    let mut i: usize = 0;
    while i < images.len()
        invariant
            i <= images@.len(),
            color@ == color_images(materials@),
            forall|j: int| 0 <= j < color@.len() ==> #[trigger] color@[j] < texture_count,
            forall|j: int| 0 <= j < i ==> is_supported_format(#[trigger] images@[j].format),
        decreases images@.len() - i,
    {
        if !pixel_format_supported(images[i].format) {
            return Err(AssetError::UnsupportedImageFormat);
        }
        i += 1;
    }
    let flags = texture_color_flags(texture_count, &color);
    let mut slots: Vec<MaterialSlots> = Vec::new();
    let mut k: usize = 0;
    while k < materials.len()
        invariant
            k <= materials@.len(),
            slots@ == materials@.take(k as int).map_values(|m: DocMaterial| slots_of(m)),
        decreases materials@.len() - k,
    {
        let m = materials[k];
        slots.push(
            MaterialSlots {
                base_color_texture_index: m.base_color_texture,
                metallic_roughness_texture_index: m.metallic_roughness_texture,
                normal_texture_index: m.normal_texture,
                double_sided: m.double_sided,
            },
        );
        proof {
            assert(materials@.take(k + 1).map_values(|m: DocMaterial| slots_of(m)) =~= materials@.take(
                k as int,
            ).map_values(|m: DocMaterial| slots_of(m)).push(slots_of(m)));
        }
        k += 1;
    }
    proof {
        assert(materials@.take(k as int) =~= materials@);
    }
    let mut prepared: Vec<PreparedImage> = Vec::new();
    let mut i: usize = 0;
    while i < images.len()
        invariant
            i <= images@.len(),
            images_supported(images@),
            prepared@.len() == i,
            forall|j: int|
                0 <= j < i ==> prepared_from(
                    #[trigger] prepared@[j],
                    images@[j],
                    flagged_color(flags@, j),
                ),
        decreases images@.len() - i,
    {
        let image = &images[i];
        let is_color = is_color_image(&flags, i);
        let pixels = expand_pixels(image.format, is_color, &image.pixels);
        let format = convert_to_vk_format(image.format, is_color);
        prepared.push(PreparedImage { format, width: image.width, height: image.height, pixels });
        i += 1;
    }
    Ok(TextureLayout { materials: slots, color_flags: flags, images: prepared })
}

// ---------------------------------------------------------------------------
// Node trees of the default scene
// ---------------------------------------------------------------------------

/// Whether node `index` exists and the tree below it, followed through
/// children, names existing nodes and has at most `depth` levels.
pub open spec fn tree_fits(nodes: Seq<DocNode>, index: usize, depth: nat) -> bool
    decreases depth,
{
    &&& index < nodes.len()
    &&& depth > 0
    &&& forall|k: int|
        0 <= k < nodes[index as int].children@.len() ==> tree_fits(
            nodes,
            #[trigger] nodes[index as int].children@[k],
            (depth - 1) as nat,
        )
}

/// Whether `t` is the tree below document node `index`: each node carries
/// its document index, mesh, skin, its mesh's metadata and its own metadata,
/// and its children in document order.
pub open spec fn is_document_tree(
    nodes: Seq<DocNode>,
    mesh_extras: Seq<Option<Extras>>,
    node_extras: Seq<Option<Extras>>,
    t: SourceNode,
    index: usize,
    depth: nat,
) -> bool
    decreases depth,
{
    &&& index < nodes.len()
    &&& depth > 0
    &&& t.gltf_index == index
    &&& t.mesh_index == nodes[index as int].mesh
    &&& t.skin_index == nodes[index as int].skin
    &&& t.mesh_extras == match nodes[index as int].mesh {
        Some(m) => extras_at(mesh_extras, m as int),
        None => None,
    }
    &&& t.node_extras == extras_at(node_extras, index as int)
    &&& t.children@.len() == nodes[index as int].children@.len()
    &&& forall|k: int|
        0 <= k < t.children@.len() ==> is_document_tree(
            nodes,
            mesh_extras,
            node_extras,
            #[trigger] t.children@[k],
            nodes[index as int].children@[k],
            (depth - 1) as nat,
        )
}

fn build_tree(
    nodes: &Vec<DocNode>,
    mesh_extras: &Vec<Option<Extras>>,
    node_extras: &Vec<Option<Extras>>,
    index: usize,
    depth: usize,
) -> (r: Option<SourceNode>)
    ensures
        r is Some == tree_fits(nodes@, index, depth as nat),
        r matches Some(t) ==> is_document_tree(
            nodes@,
            mesh_extras@,
            node_extras@,
            t,
            index,
            depth as nat,
        ),
    decreases depth,
{
    if index >= nodes.len() || depth == 0 {
        return None;
    }
    let node = &nodes[index];
    let mut children: Vec<SourceNode> = Vec::new();
    let mut k: usize = 0;
    while k < node.children.len()
        invariant
            index < nodes@.len(),
            depth > 0,
            node == nodes@[index as int],
            k <= node.children@.len(),
            children@.len() == k,
            forall|j: int|
                0 <= j < k ==> tree_fits(nodes@, #[trigger] node.children@[j], (depth - 1) as nat),
            forall|j: int|
                0 <= j < k ==> is_document_tree(
                    nodes@,
                    mesh_extras@,
                    node_extras@,
                    #[trigger] children@[j],
                    node.children@[j],
                    (depth - 1) as nat,
                ),
        decreases node.children@.len() - k,
    {
        match build_tree(nodes, mesh_extras, node_extras, node.children[k], depth - 1) {
            Some(t) => {
                children.push(t);
            },
            None => {
                return None;
            },
        }
        k += 1;
    }
    let own_mesh_extras = match node.mesh {
        Some(m) => extras_get(mesh_extras, m),
        None => None,
    };
    let t = SourceNode {
        gltf_index: index,
        mesh_index: node.mesh,
        skin_index: node.skin,
        mesh_extras: own_mesh_extras,
        node_extras: extras_get(node_extras, index),
        children,
    };
    proof {
        assert(t.children@ == children@);
    }
    Some(t)
}

/// Whether every root's tree fits in `depth` levels.
pub open spec fn forest_fits(nodes: Seq<DocNode>, roots: Seq<usize>, depth: nat) -> bool {
    forall|k: int| 0 <= k < roots.len() ==> tree_fits(nodes, #[trigger] roots[k], depth)
}

/// Builds the trees below `roots`, allowing as many levels as there are
/// nodes (so every hierarchy without a cycle fits). `None` when a node is
/// missing or the hierarchy has a cycle.
pub fn scene_trees(
    nodes: &Vec<DocNode>,
    mesh_extras: &Vec<Option<Extras>>,
    node_extras: &Vec<Option<Extras>>,
    roots: &Vec<usize>,
) -> (r: Option<Vec<SourceNode>>)
    ensures
        r is Some == forest_fits(nodes@, roots@, nodes@.len()),
        r matches Some(ts) ==> ts@.len() == roots@.len() && forall|k: int|
            0 <= k < roots@.len() ==> is_document_tree(
                nodes@,
                mesh_extras@,
                node_extras@,
                #[trigger] ts@[k],
                roots@[k],
                nodes@.len(),
            ),
{
    let depth = nodes.len();
    let mut trees: Vec<SourceNode> = Vec::new();
    let mut k: usize = 0;
    while k < roots.len()
        invariant
            depth == nodes@.len(),
            k <= roots@.len(),
            trees@.len() == k,
            forall|j: int| 0 <= j < k ==> tree_fits(nodes@, #[trigger] roots@[j], depth as nat),
            forall|j: int|
                0 <= j < k ==> is_document_tree(
                    nodes@,
                    mesh_extras@,
                    node_extras@,
                    #[trigger] trees@[j],
                    roots@[j],
                    depth as nat,
                ),
        decreases roots@.len() - k,
    {
        match build_tree(nodes, mesh_extras, node_extras, roots[k], depth) {
            Some(t) => {
                trees.push(t);
            },
            None => {
                return None;
            },
        }
        k += 1;
    }
    Some(trees)
}

/// Whether `rank` ranks the nodes from 1 to their number so that every child
/// names an existing node that ranks below its parent.
pub open spec fn ranks_hierarchy(nodes: Seq<DocNode>, rank: Seq<nat>) -> bool {
    &&& rank.len() == nodes.len()
    &&& forall|i: int| 0 <= i < nodes.len() ==> 1 <= #[trigger] rank[i] <= nodes.len()
    &&& forall|i: int, k: int|
        0 <= i < nodes.len() && 0 <= k < nodes[i].children@.len() ==> {
            let c = #[trigger] nodes[i].children@[k];
            c < nodes.len() && rank[c as int] < rank[i]
        }
}

proof fn lemma_ranked_tree_fits(nodes: Seq<DocNode>, rank: Seq<nat>, index: usize, depth: nat)
    requires
        ranks_hierarchy(nodes, rank),
        index < nodes.len(),
        rank[index as int] <= depth,
    ensures
        tree_fits(nodes, index, depth),
    decreases depth,
{
    assert(1 <= rank[index as int]);
    let children = nodes[index as int].children@;
    assert forall|k: int| 0 <= k < children.len() implies tree_fits(
        nodes,
        #[trigger] children[k],
        (depth - 1) as nat,
    ) by {
        assert(children[k] == nodes[index as int].children@[k]);
        lemma_ranked_tree_fits(nodes, rank, children[k], (depth - 1) as nat);
    }
}

/// A hierarchy whose nodes can be ranked from 1 to their number, every child
/// below its parent, always fits: building the trees below any roots that
/// name existing nodes succeeds.
pub proof fn ranked_hierarchies_fit(nodes: Seq<DocNode>, rank: Seq<nat>, roots: Seq<usize>)
    requires
        ranks_hierarchy(nodes, rank),
        forall|k: int| 0 <= k < roots.len() ==> #[trigger] roots[k] < nodes.len(),
    ensures
        forest_fits(nodes, roots, nodes.len()),
{
    assert forall|k: int| 0 <= k < roots.len() implies tree_fits(nodes, #[trigger] roots[k], nodes.len()) by {
        lemma_ranked_tree_fits(nodes, rank, roots[k], nodes.len());
    }
}

// ---------------------------------------------------------------------------
// The flattened scene
// ---------------------------------------------------------------------------

/// Document indices of the nodes below `index`, in pre-order, following at
/// most `depth` levels.
pub open spec fn doc_preorder(nodes: Seq<DocNode>, index: usize, depth: nat) -> Seq<usize>
    decreases depth, 0nat, 0nat,
{
    if index < nodes.len() && depth > 0 {
        seq![index] + doc_preorder_forest(nodes, nodes[index as int].children@, (depth - 1) as nat)
    } else {
        seq![index]
    }
}

/// Document indices of the nodes below `roots`, tree after tree, in
/// pre-order.
pub open spec fn doc_preorder_forest(nodes: Seq<DocNode>, roots: Seq<usize>, depth: nat) -> Seq<usize>
    decreases depth, 1nat, roots.len(),
{
    if roots.len() == 0 {
        Seq::empty()
    } else {
        doc_preorder_forest(nodes, roots.drop_last(), depth) + doc_preorder(nodes, roots.last(), depth)
    }
}

/// Document indices of the nodes of the default scene in the order in which
/// they are flattened (a node may occur more than once when several parents
/// share it).
pub open spec fn scene_order(nodes: Seq<DocNode>, roots: Seq<usize>) -> Seq<usize> {
    doc_preorder_forest(nodes, roots, nodes.len())
}

/// Document indices of pre-ordered source nodes.
pub open spec fn gltf_indices(pre: Seq<SourceNode>) -> Seq<usize> {
    pre.map_values(|n: SourceNode| n.gltf_index)
}

/// Whether source node `n` carries the mesh and skin of its document node.
pub open spec fn consistent_node(nodes: Seq<DocNode>, n: SourceNode) -> bool {
    &&& n.gltf_index < nodes.len()
    &&& n.mesh_index == nodes[n.gltf_index as int].mesh
    &&& n.skin_index == nodes[n.gltf_index as int].skin
}

proof fn lemma_tree_order(
    nodes: Seq<DocNode>,
    me: Seq<Option<Extras>>,
    ne: Seq<Option<Extras>>,
    t: SourceNode,
    index: usize,
    depth: nat,
)
    requires
        is_document_tree(nodes, me, ne, t, index, depth),
    ensures
        gltf_indices(preorder(t)) == doc_preorder(nodes, index, depth),
        forall|k: int| 0 <= k < preorder(t).len() ==> consistent_node(nodes, #[trigger] preorder(t)[k]),
    decreases depth, 0nat, 0nat,
{
    let cs = t.children@;
    lemma_forest_order(nodes, me, ne, cs, nodes[index as int].children@, (depth - 1) as nat);
    let rest = preorder_forest(cs);
    assert(preorder(t) == seq![t] + rest);
    assert(gltf_indices(seq![t] + rest) =~= seq![index] + gltf_indices(rest));
    assert forall|k: int| 0 <= k < preorder(t).len() implies consistent_node(
        nodes,
        #[trigger] preorder(t)[k],
    ) by {
        if k > 0 {
            assert(preorder(t)[k] == rest[k - 1]);
        }
    }
}

proof fn lemma_forest_order(
    nodes: Seq<DocNode>,
    me: Seq<Option<Extras>>,
    ne: Seq<Option<Extras>>,
    ts: Seq<SourceNode>,
    idx: Seq<usize>,
    depth: nat,
)
    requires
        ts.len() == idx.len(),
        forall|k: int| 0 <= k < ts.len() ==> is_document_tree(nodes, me, ne, #[trigger] ts[k], idx[k], depth),
    ensures
        gltf_indices(preorder_forest(ts)) == doc_preorder_forest(nodes, idx, depth),
        forall|k: int|
            0 <= k < preorder_forest(ts).len() ==> consistent_node(nodes, #[trigger] preorder_forest(ts)[k]),
    decreases depth, 1nat, ts.len(),
{
    if ts.len() > 0 {
        let front = ts.drop_last();
        assert forall|k: int| 0 <= k < front.len() implies is_document_tree(
            nodes,
            me,
            ne,
            #[trigger] front[k],
            idx.drop_last()[k],
            depth,
        ) by {
            assert(front[k] == ts[k]);
        }
        lemma_forest_order(nodes, me, ne, front, idx.drop_last(), depth);
        assert(is_document_tree(nodes, me, ne, ts[ts.len() - 1], idx[ts.len() - 1], depth));
        lemma_tree_order(nodes, me, ne, ts.last(), idx.last(), depth);
        let a = preorder_forest(front);
        let b = preorder(ts.last());
        assert(gltf_indices(a + b) =~= gltf_indices(a) + gltf_indices(b));
        assert forall|k: int| 0 <= k < (a + b).len() implies consistent_node(nodes, #[trigger] (a + b)[k]) by {
            if k < a.len() {
                assert((a + b)[k] == a[k]);
            } else {
                assert((a + b)[k] == b[k - a.len()]);
            }
        }
    }
}

proof fn lemma_aux_step_map(a: FlatAux, s: SourceNode, p: NodeIndex)
    ensures
        aux_step(a, s, p).gltf_to_local == a.gltf_to_local.insert(s.gltf_index, p),
{
}

proof fn lemma_aux_fold_dom(a: FlatAux, pre: Seq<SourceNode>, base: int)
    ensures
        forall|g: usize|
            #[trigger] aux_fold(a, pre, base).gltf_to_local.contains_key(g) <==> (
            a.gltf_to_local.contains_key(g) || gltf_indices(pre).contains(g)),
    decreases pre.len(),
{
    if pre.len() > 0 {
        let front = pre.drop_last();
        lemma_aux_fold_dom(a, front, base);
        let x = pre.last().gltf_index;
        let prev = aux_fold(a, front, base);
        let p = (base + pre.len() - 1) as NodeIndex;
        assert(aux_fold(a, pre, base) == aux_step(prev, pre.last(), p));
        lemma_aux_step_map(prev, pre.last(), p);
        assert(gltf_indices(pre) =~= gltf_indices(front).push(x));
        assert forall|g: usize| gltf_indices(pre).contains(g) <==> (gltf_indices(front).contains(g)
            || g == x) by {
            if gltf_indices(pre).contains(g) {
                let i = choose|i: int| 0 <= i < gltf_indices(pre).len() && gltf_indices(pre)[i] == g;
                if i < front.len() {
                    assert(gltf_indices(front)[i] == g);
                }
            }
            if gltf_indices(front).contains(g) {
                let i = choose|i: int| 0 <= i < gltf_indices(front).len() && gltf_indices(front)[i] == g;
                assert(gltf_indices(pre)[i] == g);
            }
            if g == x {
                assert(gltf_indices(pre)[pre.len() - 1] == g);
            }
        }
    } else {
        assert forall|g: usize| !gltf_indices(pre).contains(g) by {}
    }
}

/// The trees of the default scene and their flattened hierarchy.
pub struct SceneLayout {
    pub trees: Vec<SourceNode>,
    pub graph: SceneGraph,
}

/// Whether `l` holds the trees below `roots` and the hierarchy flattened
/// from them.
pub open spec fn lays_out_scene(
    l: SceneLayout,
    nodes: Seq<DocNode>,
    mesh_extras: Seq<Option<Extras>>,
    node_extras: Seq<Option<Extras>>,
    roots: Seq<usize>,
) -> bool {
    &&& l.trees@.len() == roots.len()
    &&& forall|k: int|
        0 <= k < roots.len() ==> is_document_tree(
            nodes,
            mesh_extras,
            node_extras,
            #[trigger] l.trees@[k],
            roots[k],
            nodes.len(),
        )
    &&& l.graph.node_views() == appended_views(preorder_forest(l.trees@), 0)
    &&& l.graph.aux() == aux_fold(empty_aux(), preorder_forest(l.trees@), 0)
    &&& l.graph.roots@ == child_positions(l.trees@, 0)
    &&& l.graph.wf()
    &&& gltf_indices(preorder_forest(l.trees@)) == scene_order(nodes, roots)
    &&& forall|k: int|
        0 <= k < preorder_forest(l.trees@).len() ==> consistent_node(
            nodes,
            #[trigger] preorder_forest(l.trees@)[k],
        )
}

/// Builds the trees of the default scene and flattens them. Fails when the
/// document names no default scene, and then when the hierarchy below it
/// names a missing node or has a cycle.
pub fn build_scene(
    nodes: &Vec<DocNode>,
    roots: &Option<Vec<usize>>,
    mesh_extras: &Vec<Option<Extras>>,
    node_extras: &Vec<Option<Extras>>,
) -> (r: Result<SceneLayout, AssetError>)
    ensures
        r matches Err(AssetError::NoDefaultScene) <==> roots is None,
        r matches Err(AssetError::InvalidHierarchy) <==> (roots matches Some(rs) && !forest_fits(
            nodes@,
            rs@,
            nodes@.len(),
        )),
        r is Ok <==> (roots matches Some(rs) && forest_fits(nodes@, rs@, nodes@.len())),
        r matches Ok(l) ==> (roots matches Some(rs) && lays_out_scene(
            l,
            nodes@,
            mesh_extras@,
            node_extras@,
            rs@,
        )),
{
    match roots {
        None => Err(AssetError::NoDefaultScene),
        Some(rs) => match scene_trees(nodes, mesh_extras, node_extras, rs) {
            None => Err(AssetError::InvalidHierarchy),
            Some(trees) => {
                let graph = SceneGraph::load(&trees);
                proof {
                    lemma_forest_order(nodes@, mesh_extras@, node_extras@, trees@, rs@, nodes@.len());
                }
                Ok(SceneLayout { trees, graph })
            },
        },
    }
}

/// Whether the document indices in `order` include every joint of every
/// skin.
pub open spec fn joints_in_scene(order: Seq<usize>, skins: Seq<SourceSkin>) -> bool {
    forall|s: int, j: int|
        #![trigger skins[s].joints@[j]]
        0 <= s < skins.len() && 0 <= j < skins[s].joints@.len() ==> order.contains(skins[s].joints@[j])
}

/// The joints of the skins resolve in a flattened scene exactly when they
/// are nodes of the scene.
proof fn lemma_joints_resolve(l: SceneLayout, nodes: Seq<DocNode>, roots: Seq<usize>, skins: Seq<SourceSkin>)
    requires
        l.graph.aux() == aux_fold(empty_aux(), preorder_forest(l.trees@), 0),
        gltf_indices(preorder_forest(l.trees@)) == scene_order(nodes, roots),
    ensures
        joints_resolvable(&l.graph, skins) == joints_in_scene(scene_order(nodes, roots), skins),
{
    lemma_aux_fold_dom(empty_aux(), preorder_forest(l.trees@), 0);
    assert(l.graph.gltf_to_local@ == aux_fold(empty_aux(), preorder_forest(l.trees@), 0).gltf_to_local);
}

// ---------------------------------------------------------------------------
// Skins
// ---------------------------------------------------------------------------

/// Skins resolved against the flattened scene, and their joint-matrix total.
pub struct SkinSetup {
    pub skins: Vec<SkinLayout>,
    pub total_joint_count: u32,
}

fn joints_resolved(g: &SceneGraph, skins: &Vec<SourceSkin>) -> (b: bool)
    ensures
        b == joints_resolvable(g, skins@),
{
    let mut s: usize = 0;
    while s < skins.len()
        invariant
            s <= skins@.len(),
            forall|s2: int, j: int|
                #![trigger skins@[s2].joints@[j]]
                0 <= s2 < s && 0 <= j < skins@[s2].joints@.len() ==> g.gltf_to_local@.contains_key(
                    skins@[s2].joints@[j],
                ),
        decreases skins@.len() - s,
    {
        let skin = &skins[s];
        let mut j: usize = 0;
        while j < skin.joints.len()
            invariant
                s < skins@.len(),
                skin == skins@[s as int],
                j <= skin.joints@.len(),
                forall|s2: int, j2: int|
                    #![trigger skins@[s2].joints@[j2]]
                    0 <= s2 < s && 0 <= j2 < skins@[s2].joints@.len() ==> g.gltf_to_local@.contains_key(
                        skins@[s2].joints@[j2],
                    ),
                forall|j2: int|
                    0 <= j2 < j ==> g.gltf_to_local@.contains_key(#[trigger] skins@[s as int].joints@[j2]),
            decreases skin.joints@.len() - j,
        {
            if g.local_index(skin.joints[j]).is_none() {
                assert(!g.gltf_to_local@.contains_key(skins@[s as int].joints@[j as int]));
                return false;
            }
            j += 1;
        }
        s += 1;
    }
    true
}

fn joint_total_fits(skins: &Vec<SourceSkin>) -> (b: bool)
    ensures
        b == (source_joint_total(skins@, skins@.len() as int) <= u32::MAX),
{
    let mut total: u64 = 0;
    let mut s: usize = 0;
    while s < skins.len()
        invariant
            s <= skins@.len(),
            total == source_joint_total(skins@, s as int),
            total <= u32::MAX,
        decreases skins@.len() - s,
    {
        let n = skins[s].joints.len() as u32;
        total = total + n as u64;
        if total > 0xffff_ffffu64 {
            proof {
                lemma_source_total_monotone(skins@, s as int + 1, skins@.len() as int);
            }
            return false;
        }
        s += 1;
    }
    true
}

/// Resolves the skins against the flattened scene and packs their joint
/// matrices. Fails when a joint is not a node of the scene, and then when
/// the joint-matrix total does not fit in 32 bits.
pub fn layout_skins(g: &SceneGraph, skins: &Vec<SourceSkin>) -> (r: Result<SkinSetup, AssetError>)
    ensures
        r matches Err(AssetError::UnresolvedJoint) <==> !joints_resolvable(g, skins@),
        r matches Err(AssetError::TooManyJoints) <==> joints_resolvable(g, skins@) && source_joint_total(
            skins@,
            skins@.len() as int,
        ) > u32::MAX,
        r is Ok <==> joints_resolvable(g, skins@) && source_joint_total(skins@, skins@.len() as int)
            <= u32::MAX,
        r matches Ok(x) ==> {
            &&& x.skins@.len() == skins@.len()
            &&& forall|i: int|
                0 <= i < skins@.len() ==> resolved_skin(
                    g,
                    #[trigger] skins@[i],
                    x.skins@[i],
                    source_joint_total(skins@, i),
                )
            &&& x.total_joint_count == source_joint_total(skins@, skins@.len() as int)
        },
{
    if !joints_resolved(g, skins) {
        return Err(AssetError::UnresolvedJoint);
    }
    if !joint_total_fits(skins) {
        return Err(AssetError::TooManyJoints);
    }
    let layouts = load_skins(g, skins);
    proof {
        lemma_totals_agree(g, skins@, layouts@, skins@.len() as int);
    }
    let total = total_joint_count(&layouts);
    Ok(SkinSetup { skins: layouts, total_joint_count: total })
}

// ---------------------------------------------------------------------------
// Draw lists
// ---------------------------------------------------------------------------

/// Whether an optional index is below `n`.
pub open spec fn opt_below(o: Option<usize>, n: int) -> bool {
    match o {
        Some(k) => k < n,
        None => true,
    }
}

/// Whether every node's mesh and skin exist.
pub open spec fn nodes_refs_valid(nodes: Seq<SceneNode>, mesh_count: int, skin_count: int) -> bool {
    forall|i: int|
        0 <= i < nodes.len() ==> {
            &&& opt_below((#[trigger] nodes[i]).mesh_index, mesh_count)
            &&& opt_below(nodes[i].skin_index, skin_count)
        }
}

/// Whether every placed primitive's material exists.
pub open spec fn infos_materials_valid(meshes: Seq<MeshInfo>, material_count: int) -> bool {
    forall|m: int, q: int|
        0 <= m < meshes.len() && 0 <= q < meshes[m].primitives@.len() ==> opt_below((#[trigger] meshes[m].primitives@[q]).material_index, material_count)
}

proof fn lemma_entries_valid(
    nodes: Seq<SceneNode>,
    meshes: Seq<MeshInfo>,
    materials: Seq<MaterialSlots>,
    skins: Seq<SkinLayout>,
)
    requires
        nodes_refs_valid(nodes, meshes.len() as int, skins.len() as int),
        infos_materials_valid(meshes, materials.len() as int),
    ensures
        forall|k: int|
            0 <= k < draw_entries(nodes, meshes).len() ==> entry_valid(
                #[trigger] draw_entries(nodes, meshes)[k],
                materials,
                skins,
            ),
    decreases nodes.len(),
{
    if nodes.len() > 0 {
        let front = nodes.drop_last();
        assert forall|i: int| 0 <= i < front.len() implies {
            &&& opt_below((#[trigger] front[i]).mesh_index, meshes.len() as int)
            &&& opt_below(front[i].skin_index, skins.len() as int)
        } by {
            assert(front[i] == nodes[i]);
        }
        lemma_entries_valid(front, meshes, materials, skins);
        let a = draw_entries(front, meshes);
        let last = nodes[nodes.len() - 1];
        let b = node_entries(last, nodes.len() - 1, meshes);
        assert(draw_entries(nodes, meshes) == a + b);
        assert forall|k: int| 0 <= k < (a + b).len() implies entry_valid(#[trigger] (a + b)[k], materials, skins) by {
            if k < a.len() {
                assert((a + b)[k] == a[k]);
            } else {
                assert((a + b)[k] == b[k - a.len()]);
                let m = last.mesh_index->0 as int;
                assert(meshes[m].primitives@[k - a.len()].material_index == (a + b)[k].primitive.material_index);
            }
        }
    }
}

/// Builds the draw lists. Fails when a node names a missing mesh or skin, or
/// a placed primitive a missing material.
pub fn layout_draws(
    nodes: &Vec<SceneNode>,
    meshes: &Vec<MeshInfo>,
    materials: &Vec<MaterialSlots>,
    skins: &Vec<SkinLayout>,
) -> (r: Result<DrawData, AssetError>)
    ensures
        r is Ok <==> nodes_refs_valid(nodes@, meshes@.len() as int, skins@.len() as int)
            && infos_materials_valid(meshes@, materials@.len() as int),
        r matches Err(e) ==> e == AssetError::InvalidIndex,
        r matches Ok(d) ==> {
            &&& d.instances@ == draw_entries(nodes@, meshes@).map_values(
                |e: DrawEntry| spec_instance(e, materials@, skins@),
            )
            &&& (d.culled_commands@, d.no_cull_commands@) == split_commands(
                draw_entries(nodes@, meshes@),
                materials@,
            )
        },
{
    let mut i: usize = 0;
    while i < nodes.len()
        invariant
            i <= nodes@.len(),
            forall|j: int|
                0 <= j < i ==> {
                    &&& opt_below((#[trigger] nodes@[j]).mesh_index, meshes@.len() as int)
                    &&& opt_below(nodes@[j].skin_index, skins@.len() as int)
                },
        decreases nodes@.len() - i,
    {
        if let Some(m) = nodes[i].mesh_index {
            if m >= meshes.len() {
                return Err(AssetError::InvalidIndex);
            }
        }
        if let Some(k) = nodes[i].skin_index {
            if k >= skins.len() {
                return Err(AssetError::InvalidIndex);
            }
        }
        i += 1;
    }
    let mut m: usize = 0;
    while m < meshes.len()
        invariant
            m <= meshes@.len(),
            nodes_refs_valid(nodes@, meshes@.len() as int, skins@.len() as int),
            forall|m2: int, q: int|
                0 <= m2 < m && 0 <= q < meshes@[m2].primitives@.len() ==> opt_below((#[trigger] meshes@[m2].primitives@[q]).material_index, materials@.len() as int),
        decreases meshes@.len() - m,
    {
        let prims = &meshes[m].primitives;
        let mut q: usize = 0;
        while q < prims.len()
            invariant
                m < meshes@.len(),
                prims == meshes@[m as int].primitives,
                q <= prims@.len(),
                nodes_refs_valid(nodes@, meshes@.len() as int, skins@.len() as int),
                forall|m2: int, q2: int|
                    0 <= m2 < m && 0 <= q2 < meshes@[m2].primitives@.len() ==> opt_below((#[trigger] meshes@[m2].primitives@[q2]).material_index, materials@.len() as int),
                forall|q2: int|
                    0 <= q2 < q ==> opt_below((#[trigger] prims@[q2]).material_index, materials@.len() as int),
            decreases prims@.len() - q,
        {
            if let Some(k) = prims[q].material_index {
                if k >= materials.len() {
                    return Err(AssetError::InvalidIndex);
                }
            }
            q += 1;
        }
        m += 1;
    }
    proof {
        lemma_entries_valid(nodes@, meshes@, materials@, skins@);
    }
    Ok(build_draw_data(nodes, meshes, materials, skins))
}

// ---------------------------------------------------------------------------
// The whole asset
// ---------------------------------------------------------------------------

/// Whether every kept primitive's material exists.
pub open spec fn kept_materials_valid(meshes: Seq<DocMesh>, material_count: int) -> bool {
    forall|m: int, p: int|
        0 <= m < meshes.len() && 0 <= p < meshes[m].primitives@.len() && is_kept(
            #[trigger] meshes[m].primitives@[p],
        ) ==> opt_below(meshes[m].primitives@[p].material, material_count)
}

/// Whether every node of the scene, in flattening order, names an existing
/// mesh and skin.
pub open spec fn scene_refs_valid(nodes: Seq<DocNode>, order: Seq<usize>, mesh_count: int, skin_count: int) -> bool {
    forall|p: int|
        0 <= p < order.len() ==> {
            &&& opt_below(nodes[#[trigger] order[p] as int].mesh, mesh_count)
            &&& opt_below(nodes[order[p] as int].skin, skin_count)
        }
}

proof fn lemma_placed_materials(ps: Seq<DocPrimitive>, v: int, i: int, count: int)
    ensures
        (forall|q: int|
            0 <= q < placed_primitives(ps, v, i).len() ==> opt_below(
                (#[trigger] placed_primitives(ps, v, i)[q]).material_index,
                count,
            )) <==> (forall|p: int|
            0 <= p < ps.len() && is_kept(#[trigger] ps[p]) ==> opt_below(ps[p].material, count)),
    decreases ps.len(),
{
    if ps.len() > 0 {
        let front = ps.drop_last();
        let last = ps.last();
        lemma_placed_materials(front, v, i, count);
        let pl = placed_primitives(ps, v, i);
        let pf = placed_primitives(front, v, i);
        let lhs_f = forall|q: int| 0 <= q < pf.len() ==> opt_below((#[trigger] pf[q]).material_index, count);
        let rhs_f = forall|p: int| 0 <= p < front.len() && is_kept(#[trigger] front[p]) ==> opt_below(front[p].material, count);
        let tail = is_kept(last) ==> opt_below(last.material, count);
        assert((forall|q: int| 0 <= q < pl.len() ==> opt_below((#[trigger] pl[q]).material_index, count)) <==> (lhs_f && tail)) by {
            if is_kept(last) {
                assert(pl =~= pf.push(pl[pl.len() - 1]));
                assert(pl[pl.len() - 1].material_index == last.material);
                assert forall|q: int| 0 <= q < pf.len() implies pl[q] == pf[q] by {}
            } else {
                assert(pl == pf);
            }
        }
        assert((forall|p: int| 0 <= p < ps.len() && is_kept(#[trigger] ps[p]) ==> opt_below(ps[p].material, count)) <==> (rhs_f && tail)) by {
            assert forall|p: int| 0 <= p < front.len() implies ps[p] == front[p] by {}
            assert(ps[ps.len() - 1] == last);
        }
    }
}

proof fn lemma_scene_refs(l: SceneLayout, nodes: Seq<DocNode>, roots: Seq<usize>, mesh_count: int, skin_count: int)
    requires
        l.graph.node_views() == appended_views(preorder_forest(l.trees@), 0),
        gltf_indices(preorder_forest(l.trees@)) == scene_order(nodes, roots),
        forall|k: int|
            0 <= k < preorder_forest(l.trees@).len() ==> consistent_node(
                nodes,
                #[trigger] preorder_forest(l.trees@)[k],
            ),
    ensures
        nodes_refs_valid(l.graph.nodes@, mesh_count, skin_count) == scene_refs_valid(
            nodes,
            scene_order(nodes, roots),
            mesh_count,
            skin_count,
        ),
{
    let pre = preorder_forest(l.trees@);
    let order = scene_order(nodes, roots);
    assert(l.graph.nodes@.len() == l.graph.node_views().len());
    assert(order.len() == pre.len());
    assert forall|p: int| 0 <= p < pre.len() implies {
        &&& (#[trigger] l.graph.nodes@[p]).mesh_index == nodes[order[p] as int].mesh
        &&& l.graph.nodes@[p].skin_index == nodes[order[p] as int].skin
    } by {
        assert(l.graph.node_views()[p] == l.graph.nodes@[p]@);
        assert(appended_views(pre, 0)[p].mesh_index == pre[p].mesh_index);
        assert(gltf_indices(pre)[p] == pre[p].gltf_index);
        assert(consistent_node(nodes, pre[p]));
    }
    if nodes_refs_valid(l.graph.nodes@, mesh_count, skin_count) {
        assert forall|p: int| 0 <= p < order.len() implies {
            &&& opt_below(nodes[#[trigger] order[p] as int].mesh, mesh_count)
            &&& opt_below(nodes[order[p] as int].skin, skin_count)
        } by {
            assert(l.graph.nodes@[p].mesh_index == nodes[order[p] as int].mesh);
        }
    }
    if scene_refs_valid(nodes, order, mesh_count, skin_count) {
        assert forall|i: int| 0 <= i < l.graph.nodes@.len() implies {
            &&& opt_below((#[trigger] l.graph.nodes@[i]).mesh_index, mesh_count)
            &&& opt_below(l.graph.nodes@[i].skin_index, skin_count)
        } by {
            assert(opt_below(nodes[order[i] as int].mesh, mesh_count));
        }
    }
}

/// The default scene's root indices, or none.
pub open spec fn roots_of(s: GltfStructure) -> Seq<usize> {
    match s.scene_roots {
        Some(rs) => rs@,
        None => Seq::empty(),
    }
}

/// No material samples a color image past the texture count, and no image
/// has float channels.
pub open spec fn textures_ok(s: GltfStructure) -> bool {
    color_images_in_range(s.materials@, s.texture_count) && images_supported(s.images@)
}

/// The geometry totals fit in a `usize`.
pub open spec fn geometry_ok(s: GltfStructure) -> bool {
    kept_vertex_total(flat_primitives(s.meshes@)) <= usize::MAX && kept_index_total(
        flat_primitives(s.meshes@),
    ) <= usize::MAX
}

/// There is a default scene, and the hierarchy below it is finite and names
/// existing nodes.
pub open spec fn scene_ok(s: GltfStructure) -> bool {
    s.scene_roots is Some && forest_fits(s.nodes@, roots_of(s), s.nodes@.len())
}

/// Every joint is a node of the scene, and the joint matrices fit in 32-bit
/// offsets.
pub open spec fn skins_ok(s: GltfStructure) -> bool {
    joints_in_scene(scene_order(s.nodes@, roots_of(s)), s.skins@) && source_joint_total(
        s.skins@,
        s.skins@.len() as int,
    ) <= u32::MAX
}

/// Every scene node names an existing mesh and skin, and every kept
/// primitive an existing material.
pub open spec fn indices_ok(s: GltfStructure) -> bool {
    scene_refs_valid(
        s.nodes@,
        scene_order(s.nodes@, roots_of(s)),
        s.meshes@.len() as int,
        s.skins@.len() as int,
    ) && kept_materials_valid(s.meshes@, s.materials@.len() as int)
}

/// Everything an asset needs, computed from the structure of its document.
pub struct AssetLayout {
    pub meshes: MeshLayout,
    pub textures: TextureLayout,
    pub scene: SceneLayout,
    pub skins: Vec<SkinLayout>,
    pub total_joint_count: u32,
    pub draw: DrawData,
}

/// Whether `l` is the layout of the asset whose document structure is `s`,
/// with mesh metadata `me` and node metadata `ne`.
pub open spec fn lays_out_asset(
    l: AssetLayout,
    s: GltfStructure,
    me: Seq<Option<Extras>>,
    ne: Seq<Option<Extras>>,
) -> bool {
    &&& lays_out_meshes(l.meshes, s.meshes@, me)
    &&& lays_out_textures(l.textures, s.materials@, s.texture_count, s.images@)
    &&& lays_out_scene(l.scene, s.nodes@, me, ne, roots_of(s))
    &&& l.skins@.len() == s.skins@.len()
    &&& forall|i: int|
        0 <= i < s.skins@.len() ==> resolved_skin(
            &l.scene.graph,
            #[trigger] s.skins@[i],
            l.skins@[i],
            source_joint_total(s.skins@, i),
        )
    &&& l.total_joint_count == source_joint_total(s.skins@, s.skins@.len() as int)
    &&& l.draw.instances@ == draw_entries(l.scene.graph.nodes@, l.meshes.meshes@).map_values(
        |e: DrawEntry| spec_instance(e, l.textures.materials@, l.skins@),
    )
    &&& (l.draw.culled_commands@, l.draw.no_cull_commands@) == split_commands(
        draw_entries(l.scene.graph.nodes@, l.meshes.meshes@),
        l.textures.materials@,
    )
}

/// Lays out an asset from the structure of its document and the parsed
/// metadata of its meshes and nodes: prepares materials and images, lays out
/// the kept primitives of every mesh in the shared buffers, flattens the
/// default scene, resolves the skins and builds the draw lists. The checks
/// come in that order, and the first that fails gives the error.
#[verifier::spinoff_prover]
pub fn prepare_asset(
    s: &GltfStructure,
    mesh_extras: &Vec<Option<Extras>>,
    node_extras: &Vec<Option<Extras>>,
) -> (r: Result<AssetLayout, AssetError>)
    ensures
        r matches Err(AssetError::ColorTextureOutOfRange) <==> !color_images_in_range(
            s.materials@,
            s.texture_count,
        ),
        r matches Err(AssetError::UnsupportedImageFormat) <==> color_images_in_range(
            s.materials@,
            s.texture_count,
        ) && !images_supported(s.images@),
        r matches Err(AssetError::GeometryTooLarge) <==> textures_ok(*s) && !geometry_ok(*s),
        r matches Err(AssetError::NoDefaultScene) <==> textures_ok(*s) && geometry_ok(*s)
            && s.scene_roots is None,
        r matches Err(AssetError::InvalidHierarchy) <==> textures_ok(*s) && geometry_ok(*s)
            && s.scene_roots is Some && !scene_ok(*s),
        r matches Err(AssetError::UnresolvedJoint) <==> textures_ok(*s) && geometry_ok(*s) && scene_ok(
            *s,
        ) && !joints_in_scene(scene_order(s.nodes@, roots_of(*s)), s.skins@),
        r matches Err(AssetError::TooManyJoints) <==> textures_ok(*s) && geometry_ok(*s) && scene_ok(
            *s,
        ) && joints_in_scene(scene_order(s.nodes@, roots_of(*s)), s.skins@) && source_joint_total(
            s.skins@,
            s.skins@.len() as int,
        ) > u32::MAX,
        r matches Err(AssetError::InvalidIndex) <==> textures_ok(*s) && geometry_ok(*s) && scene_ok(*s)
            && skins_ok(*s) && !indices_ok(*s),
        r is Ok <==> textures_ok(*s) && geometry_ok(*s) && scene_ok(*s) && skins_ok(*s) && indices_ok(
            *s,
        ),
        r matches Ok(l) ==> lays_out_asset(l, *s, mesh_extras@, node_extras@),
{
    let textures = match prepare_textures(&s.materials, s.texture_count, &s.images) {
        Ok(t) => t,
        Err(e) => {
            return Err(e);
        },
    };
    let meshes = match layout_meshes(&s.meshes, mesh_extras) {
        Some(l) => l,
        None => {
            return Err(AssetError::GeometryTooLarge);
        },
    };
    let scene = match build_scene(&s.nodes, &s.scene_roots, mesh_extras, node_extras) {
        Ok(sc) => sc,
        Err(e) => {
            return Err(e);
        },
    };
    proof {
        lemma_joints_resolve(scene, s.nodes@, roots_of(*s), s.skins@);
    }
    let skins = match layout_skins(&scene.graph, &s.skins) {
        Ok(x) => x,
        Err(e) => {
            return Err(e);
        },
    };
    proof {
        lemma_scene_refs(
            scene,
            s.nodes@,
            roots_of(*s),
            s.meshes@.len() as int,
            s.skins@.len() as int,
        );
        assert(meshes.meshes@.len() == s.meshes@.len());
        assert(textures.materials@.len() == s.materials@.len());
        assert(skins.skins@.len() == s.skins@.len());
        assert(infos_materials_valid(meshes.meshes@, s.materials@.len() as int) == kept_materials_valid(
            s.meshes@,
            s.materials@.len() as int,
        )) by {
            lemma_mesh_materials(meshes, s.meshes@, mesh_extras@, s.materials@.len() as int);
        }
    }
    let draw = match layout_draws(&scene.graph.nodes, &meshes.meshes, &textures.materials, &skins.skins) {
        Ok(d) => d,
        Err(e) => {
            return Err(e);
        },
    };
    Ok(AssetLayout { meshes, textures, scene, skins: skins.skins, total_joint_count: skins.total_joint_count, draw })
}

proof fn lemma_mesh_materials(l: MeshLayout, meshes: Seq<DocMesh>, extras: Seq<Option<Extras>>, count: int)
    requires
        lays_out_meshes(l, meshes, extras),
    ensures
        infos_materials_valid(l.meshes@, count) == kept_materials_valid(meshes, count),
{
    assert forall|m: int| #![trigger meshes[m]] 0 <= m < meshes.len() implies (forall|q: int|
        0 <= q < l.meshes@[m].primitives@.len() ==> opt_below(
            (#[trigger] l.meshes@[m].primitives@[q]).material_index,
            count,
        )) == (forall|p: int|
        0 <= p < meshes[m].primitives@.len() && is_kept(#[trigger] meshes[m].primitives@[p]) ==> opt_below(
            meshes[m].primitives@[p].material,
            count,
        )) by {
        lemma_placed_materials(
            meshes[m].primitives@,
            kept_vertex_total(flat_primitives(meshes.take(m))),
            kept_index_total(flat_primitives(meshes.take(m))),
            count,
        );
    }
    if infos_materials_valid(l.meshes@, count) {
        assert forall|m: int, p: int|
            0 <= m < meshes.len() && 0 <= p < meshes[m].primitives@.len() && is_kept(
                #[trigger] meshes[m].primitives@[p],
            ) implies opt_below(meshes[m].primitives@[p].material, count) by {
            assert forall|q: int| 0 <= q < l.meshes@[m].primitives@.len() implies opt_below(
                (#[trigger] l.meshes@[m].primitives@[q]).material_index,
                count,
            ) by {}
        }
    }
    if kept_materials_valid(meshes, count) {
        assert forall|m: int, q: int|
            0 <= m < l.meshes@.len() && 0 <= q < l.meshes@[m].primitives@.len() implies opt_below(
                (#[trigger] l.meshes@[m].primitives@[q]).material_index,
                count,
            ) by {
            assert forall|p: int|
                0 <= p < meshes[m].primitives@.len() && is_kept(#[trigger] meshes[m].primitives@[p])
                implies opt_below(meshes[m].primitives@[p].material, count) by {}
        }
    }
}

} // verus!
