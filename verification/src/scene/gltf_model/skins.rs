//! Skin layout: which flattened nodes drive each skin, and where each skin's
//! joint matrices live in the shared joint-matrix buffer.
use vstd::prelude::*;
use super::NodeIndex;
use super::hierarchy::SceneGraph;

verus! {

/// A skin as read from the document: the document indices of its joint
/// nodes and of its skeleton root.
pub struct SourceSkin {
    pub joints: Vec<usize>,
    pub skeleton: Option<usize>,
}

/// A skin resolved against the flattened hierarchy.
#[derive(Clone, Debug)]
pub struct SkinLayout {
    pub joint_nodes: Vec<NodeIndex>,
    pub skeleton_root: Option<NodeIndex>,
    /// Index of this skin's first joint matrix in the joint-matrix buffer.
    pub joint_matrix_offset: u32,
}

/// Number of joint matrices a skin with `len` joints occupies (the count is
/// kept as a 32-bit value).
pub open spec fn joint_slots(len: nat) -> int {
    (len as u32) as int
}

/// Number of joint-matrix slots taken by the first `k` source skins.
pub open spec fn source_joint_total(skins: Seq<SourceSkin>, k: int) -> int
    decreases k,
{
    if k <= 0 {
        0
    } else {
        source_joint_total(skins, k - 1) + joint_slots(skins[k - 1].joints@.len())
    }
}

/// Number of joint-matrix slots taken by the first `k` resolved skins.
pub open spec fn layout_joint_total(skins: Seq<SkinLayout>, k: int) -> int
    decreases k,
{
    if k <= 0 {
        0
    } else {
        layout_joint_total(skins, k - 1) + joint_slots(skins[k - 1].joint_nodes@.len())
    }
}

/// Every joint of every skin names a document node that was placed.
pub open spec fn joints_resolvable(g: &SceneGraph, skins: Seq<SourceSkin>) -> bool {
    forall|s: int, j: int|
        #![trigger skins[s].joints@[j]]
        0 <= s < skins.len() && 0 <= j < skins[s].joints@.len() ==> g.gltf_to_local@.contains_key(
            skins[s].joints@[j],
        )
}

/// The skin `src` resolved against `g`, with its matrices starting at `offset`.
pub open spec fn resolved_skin(g: &SceneGraph, src: SourceSkin, layout: SkinLayout, offset: int) -> bool {
    &&& layout.joint_nodes@ == src.joints@.map_values(|j: usize| g.gltf_to_local@[j])
    &&& layout.skeleton_root == match src.skeleton {
        Some(n) => if g.gltf_to_local@.contains_key(n) {
            Some(g.gltf_to_local@[n])
        } else {
            None
        },
        None => None,
    }
    &&& layout.joint_matrix_offset == offset
}

/// Resolves each skin's joints and skeleton root to flattened node indices
/// and packs the skins' joint matrices one after another, in order.
pub fn load_skins(g: &SceneGraph, skins: &Vec<SourceSkin>) -> (layouts: Vec<SkinLayout>)
    requires
        joints_resolvable(g, skins@),
        source_joint_total(skins@, skins@.len() as int) <= u32::MAX,
    ensures
        layouts@.len() == skins@.len(),
        forall|i: int|
            0 <= i < skins@.len() ==> resolved_skin(
                g,
                #[trigger] skins@[i],
                layouts@[i],
                source_joint_total(skins@, i),
            ),
{
    let mut layouts: Vec<SkinLayout> = Vec::new();
    let mut joint_matrix_offset: u32 = 0;
    let mut s: usize = 0;
    while s < skins.len()
        invariant
            s <= skins@.len(),
            joints_resolvable(g, skins@),
            source_joint_total(skins@, skins@.len() as int) <= u32::MAX,
            layouts@.len() == s,
            joint_matrix_offset == source_joint_total(skins@, s as int),
            forall|i: int|
                0 <= i < s ==> resolved_skin(
                    g,
                    #[trigger] skins@[i],
                    layouts@[i],
                    source_joint_total(skins@, i),
                ),
        decreases skins@.len() - s,
    {
        let skin = &skins[s];
        let mut joint_nodes: Vec<NodeIndex> = Vec::new();
        let mut j: usize = 0;
        while j < skin.joints.len()
            invariant
                j <= skin.joints@.len(),
                skin == skins@[s as int],
                s < skins@.len(),
                joints_resolvable(g, skins@),
                joint_nodes@ == skin.joints@.take(j as int).map_values(
                    |q: usize| g.gltf_to_local@[q],
                ),
            decreases skin.joints@.len() - j,
        {
            assert(g.gltf_to_local@.contains_key(skins@[s as int].joints@[j as int]));
            match g.local_index(skin.joints[j]) {
                Some(p) => {
                    joint_nodes.push(p);
                },
                None => {},
            }
            proof {
                assert(skin.joints@.take(j + 1).map_values(|q: usize| g.gltf_to_local@[q])
                    =~= skin.joints@.take(j as int).map_values(|q: usize| g.gltf_to_local@[q]).push(
                    g.gltf_to_local@[skin.joints@[j as int]],
                ));
            }
            j += 1;
        }
        proof {
            assert(skin.joints@.take(j as int) =~= skin.joints@);
        }
        let skeleton_root = match skin.skeleton {
            Some(n) => g.local_index(n),
            None => None,
        };
        let joint_count = skin.joints.len() as u32;
        proof {
            lemma_source_total_monotone(skins@, s as int + 1, skins@.len() as int);
        }
        layouts.push(SkinLayout { joint_nodes, skeleton_root, joint_matrix_offset });
        joint_matrix_offset = joint_matrix_offset + joint_count;
        s += 1;
    }
    layouts
}

pub(crate) proof fn lemma_source_total_monotone(skins: Seq<SourceSkin>, a: int, b: int)
    requires
        0 <= a <= b,
    ensures
        source_joint_total(skins, a) <= source_joint_total(skins, b),
    decreases b - a,
{
    if a < b {
        lemma_source_total_monotone(skins, a, b - 1);
    }
}

proof fn lemma_layout_total_monotone(skins: Seq<SkinLayout>, a: int, b: int)
    requires
        0 <= a <= b,
    ensures
        layout_joint_total(skins, a) <= layout_joint_total(skins, b),
    decreases b - a,
{
    if a < b {
        lemma_layout_total_monotone(skins, a, b - 1);
    }
}

/// Total number of joint matrices of all skins.
pub fn total_joint_count(skins: &Vec<SkinLayout>) -> (total: u32)
    requires
        layout_joint_total(skins@, skins@.len() as int) <= u32::MAX,
    ensures
        total == layout_joint_total(skins@, skins@.len() as int),
{
    let mut total: u32 = 0;
    let mut i: usize = 0;
    while i < skins.len()
        invariant
            i <= skins@.len(),
            layout_joint_total(skins@, skins@.len() as int) <= u32::MAX,
            total == layout_joint_total(skins@, i as int),
        decreases skins@.len() - i,
    {
        proof {
            lemma_layout_total_monotone(skins@, i as int + 1, skins@.len() as int);
        }
        total = total + skins[i].joint_nodes.len() as u32;
        i += 1;
    }
    total
}

/// The joint-matrix ranges of the skins produced by [`load_skins`] follow one
/// another without gaps or overlaps, and together they fill exactly
/// `[0, total_joint_count)`: skin `i` occupies
/// `[offset_i, offset_i + joints_i)` and skin `i + 1` starts where skin `i` ends.
pub proof fn joint_ranges_tile(
    g: &SceneGraph,
    skins: Seq<SourceSkin>,
    layouts: Seq<SkinLayout>,
    i: int,
)
    requires
        layouts.len() == skins.len(),
        forall|k: int|
            0 <= k < skins.len() ==> resolved_skin(
                g,
                #[trigger] skins[k],
                layouts[k],
                source_joint_total(skins, k),
            ),
        0 <= i < skins.len(),
    ensures
        layouts[i].joint_matrix_offset + joint_slots(layouts[i].joint_nodes@.len()) == if i + 1
            < skins.len() {
            layouts[i + 1].joint_matrix_offset as int
        } else {
            layout_joint_total(layouts, layouts.len() as int)
        },
        layouts[i].joint_matrix_offset == layout_joint_total(layouts, i),
{
    lemma_totals_agree(g, skins, layouts, i + 1);
    lemma_totals_agree(g, skins, layouts, i);
    if i + 1 < skins.len() {
        assert(resolved_skin(g, skins[i + 1], layouts[i + 1], source_joint_total(skins, i + 1)));
    } else {
        assert(i + 1 == layouts.len());
    }
    assert(resolved_skin(g, skins[i], layouts[i], source_joint_total(skins, i)));
}

pub(crate) proof fn lemma_totals_agree(g: &SceneGraph, skins: Seq<SourceSkin>, layouts: Seq<SkinLayout>, k: int)
    requires
        layouts.len() == skins.len(),
        forall|m: int|
            0 <= m < skins.len() ==> resolved_skin(
                g,
                #[trigger] skins[m],
                layouts[m],
                source_joint_total(skins, m),
            ),
        0 <= k <= skins.len(),
    ensures
        layout_joint_total(layouts, k) == source_joint_total(skins, k),
    decreases k,
{
    if k > 0 {
        lemma_totals_agree(g, skins, layouts, k - 1);
        assert(resolved_skin(g, skins[k - 1], layouts[k - 1], source_joint_total(skins, k - 1)));
        assert(layouts[k - 1].joint_nodes@.len() == skins[k - 1].joints@.len());
    }
}

} // verus!
