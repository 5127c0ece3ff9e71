//! Flattening of a glTF scene's node trees into an indexed node list.
//!
//! Nodes are numbered in pre-order: a node comes before its descendants, and
//! the subtree of each node occupies a contiguous range right after it.
use vstd::prelude::*;
use std::collections::HashMap;
use super::{Extras, NodeIndex, SpecialKind};

verus! {

broadcast use vstd::std_specs::hash::group_hash_axioms;

/// A node of a glTF scene as read from the document: its index in the
/// document, what it references, its parsed metadata and its children.
pub struct SourceNode {
    pub gltf_index: usize,
    pub mesh_index: Option<usize>,
    pub skin_index: Option<usize>,
    /// Metadata of the node's mesh, where the mesh has any that parses.
    pub mesh_extras: Option<Extras>,
    /// Metadata of the node itself, where it has any that parses.
    pub node_extras: Option<Extras>,
    pub children: Vec<SourceNode>,
}

/// A node of the flattened list; `children` holds indices into that list.
pub struct SceneNode {
    /// Index of the document node it was made from.
    pub gltf_index: usize,
    pub mesh_index: Option<usize>,
    pub skin_index: Option<usize>,
    pub children: Vec<NodeIndex>,
}

/// Mathematical view of a [`SceneNode`].
pub struct SceneNodeView {
    pub gltf_index: usize,
    pub mesh_index: Option<usize>,
    pub skin_index: Option<usize>,
    pub children: Seq<NodeIndex>,
}

impl View for SceneNode {
    type V = SceneNodeView;

    open spec fn view(&self) -> SceneNodeView {
        SceneNodeView {
            gltf_index: self.gltf_index,
            mesh_index: self.mesh_index,
            skin_index: self.skin_index,
            children: self.children@,
        }
    }
}

/// The flattened node hierarchy of an asset's default scene.
pub struct SceneGraph {
    pub nodes: Vec<SceneNode>,
    pub roots: Vec<NodeIndex>,
    /// Nodes designated special by metadata, in the order they were found.
    pub specials: Vec<NodeIndex>,
    /// The metadata that made each special node special.
    pub node_extras: HashMap<NodeIndex, Extras>,
    /// Where each document node ended up in the flattened list.
    pub gltf_to_local: HashMap<usize, NodeIndex>,
}

/// The bookkeeping that flattening produces besides the node list.
pub struct FlatAux {
    pub specials: Seq<NodeIndex>,
    pub extras: Map<NodeIndex, Extras>,
    pub gltf_to_local: Map<usize, NodeIndex>,
}

/// The nodes of the tree `t` in pre-order.
pub open spec fn preorder(t: SourceNode) -> Seq<SourceNode>
    decreases t, 1nat,
{
    seq![t] + preorder_forest(t.children@)
}

/// The nodes of the trees `ts` in pre-order, tree after tree.
pub open spec fn preorder_forest(ts: Seq<SourceNode>) -> Seq<SourceNode>
    decreases ts, 0nat,
{
    if ts.len() == 0 {
        Seq::empty()
    } else {
        preorder_forest(ts.drop_last()) + preorder(ts.last())
    }
}

/// Positions of the roots of the trees `ts` when the forest is laid out in
/// pre-order starting at position `first`.
pub open spec fn child_positions(ts: Seq<SourceNode>, first: int) -> Seq<NodeIndex>
    decreases ts.len(),
{
    if ts.len() == 0 {
        Seq::empty()
    } else {
        child_positions(ts.drop_last(), first).push(
            (first + preorder_forest(ts.drop_last()).len()) as NodeIndex,
        )
    }
}

/// The flattened form of source node `s` placed at position `p`.
pub open spec fn view_of(s: SourceNode, p: int) -> SceneNodeView {
    SceneNodeView {
        gltf_index: s.gltf_index,
        mesh_index: s.mesh_index,
        skin_index: s.skin_index,
        children: child_positions(s.children@, p + 1),
    }
}

/// The flattened forms of the pre-ordered nodes `pre` placed from `base` on.
pub open spec fn appended_views(pre: Seq<SourceNode>, base: int) -> Seq<SceneNodeView> {
    Seq::new(pre.len(), |i: int| view_of(pre[i], base + i))
}

/// Bookkeeping for source node `s` placed at position `p`: a mesh marked as a
/// UI surface or grab bar makes the node special, then a spawn-point mark on
/// the node does (its metadata then replaces the mesh's); the document index
/// is mapped to `p`.
pub open spec fn aux_step(a: FlatAux, s: SourceNode, p: NodeIndex) -> FlatAux {
    let a1 = match s.mesh_extras {
        Some(e) => if e.spec_marks_special_mesh() {
            FlatAux { specials: a.specials.push(p), extras: a.extras.insert(p, e), ..a }
        } else {
            a
        },
        None => a,
    };
    let a2 = match s.node_extras {
        Some(e) => if e.spec_marks_spawnpoint() {
            FlatAux { specials: a1.specials.push(p), extras: a1.extras.insert(p, e), ..a1 }
        } else {
            a1
        },
        None => a1,
    };
    FlatAux { gltf_to_local: a2.gltf_to_local.insert(s.gltf_index, p), ..a2 }
}

/// Bookkeeping after placing the pre-ordered nodes `pre` from `base` on.
pub open spec fn aux_fold(a: FlatAux, pre: Seq<SourceNode>, base: int) -> FlatAux
    decreases pre.len(),
{
    if pre.len() == 0 {
        a
    } else {
        aux_step(aux_fold(a, pre.drop_last(), base), pre.last(), (base + pre.len() - 1) as NodeIndex)
    }
}

/// Empty bookkeeping.
pub open spec fn empty_aux() -> FlatAux {
    FlatAux { specials: Seq::empty(), extras: Map::empty(), gltf_to_local: Map::empty() }
}

// ---------------------------------------------------------------------------
// Lemmas about pre-order layouts
// ---------------------------------------------------------------------------

/// A forest prefix followed by the next tree is a longer forest prefix.
proof fn lemma_forest_take_step(ts: Seq<SourceNode>, k: int)
    requires
        0 <= k < ts.len(),
    ensures
        preorder_forest(ts.take(k + 1)) == preorder_forest(ts.take(k)) + preorder(ts[k]),
        child_positions(ts.take(k + 1), 0) == child_positions(ts.take(k), 0).push(
            preorder_forest(ts.take(k)).len() as NodeIndex,
        ),
{
    assert(ts.take(k + 1).drop_last() =~= ts.take(k));
    assert(ts.take(k + 1).last() == ts[k]);
}

/// Child positions with an offset.
proof fn lemma_child_positions_take_step(ts: Seq<SourceNode>, k: int, first: int)
    requires
        0 <= k < ts.len(),
    ensures
        child_positions(ts.take(k + 1), first) == child_positions(ts.take(k), first).push(
            (first + preorder_forest(ts.take(k)).len()) as NodeIndex,
        ),
{
    assert(ts.take(k + 1).drop_last() =~= ts.take(k));
}

/// Views of concatenated pre-order lists are concatenated views.
proof fn lemma_appended_views_concat(a: Seq<SourceNode>, b: Seq<SourceNode>, base: int)
    ensures
        appended_views(a + b, base) == appended_views(a, base) + appended_views(
            b,
            base + a.len(),
        ),
{
    assert(appended_views(a + b, base) =~= appended_views(a, base) + appended_views(
        b,
        base + a.len(),
    ));
}

/// Bookkeeping over concatenated pre-order lists is sequential bookkeeping.
proof fn lemma_aux_fold_concat(a: FlatAux, x: Seq<SourceNode>, y: Seq<SourceNode>, base: int)
    ensures
        aux_fold(a, x + y, base) == aux_fold(aux_fold(a, x, base), y, base + x.len()),
    decreases y.len(),
{
    if y.len() == 0 {
        assert(x + y =~= x);
    } else {
        assert((x + y).drop_last() =~= x + y.drop_last());
        assert((x + y).last() == y.last());
        lemma_aux_fold_concat(a, x, y.drop_last(), base);
    }
}

/// Every tree contributes at least its root.
proof fn lemma_preorder_nonempty(t: SourceNode)
    ensures
        preorder(t).len() >= 1,
        preorder(t)[0] == t,
{
}

/// Child positions lie in `[first, first + forest length)`.
proof fn lemma_child_positions_range(ts: Seq<SourceNode>, first: int)
    requires
        0 <= first,
        first + preorder_forest(ts).len() <= usize::MAX + 1,
    ensures
        child_positions(ts, first).len() == ts.len(),
        forall|j: int|
            0 <= j < ts.len() ==> first <= #[trigger] child_positions(ts, first)[j] < first
                + preorder_forest(ts).len(),
    decreases ts.len(),
{
    if ts.len() > 0 {
        lemma_preorder_nonempty(ts.last());
        lemma_child_positions_range(ts.drop_last(), first);
    }
}

/// In a pre-order list each node's subtree fits in the rest of the list.
proof fn lemma_tree_subtree_fits(t: SourceNode, i: int)
    requires
        0 <= i < preorder(t).len(),
    ensures
        i + preorder(preorder(t)[i]).len() <= preorder(t).len(),
    decreases t, 1nat,
{
    if i > 0 {
        assert(preorder(t)[i] == preorder_forest(t.children@)[i - 1]);
        lemma_forest_subtree_fits(t.children@, i - 1);
    }
}

/// In a pre-order forest list each node's subtree fits in the rest of the list.
proof fn lemma_forest_subtree_fits(ts: Seq<SourceNode>, i: int)
    requires
        0 <= i < preorder_forest(ts).len(),
    ensures
        i + preorder(preorder_forest(ts)[i]).len() <= preorder_forest(ts).len(),
    decreases ts, 0nat,
{
    if ts.len() > 0 {
        let front = preorder_forest(ts.drop_last());
        if i < front.len() {
            assert(preorder_forest(ts)[i] == front[i]);
            lemma_forest_subtree_fits(ts.drop_last(), i);
        } else {
            assert(preorder_forest(ts)[i] == preorder(ts.last())[i - front.len()]);
            lemma_tree_subtree_fits(ts.last(), i - front.len());
        }
    }
}

/// The children recorded for the nodes of a pre-order forest list all lie
/// strictly after their parent and inside the list.
proof fn lemma_appended_views_children(pre: Seq<SourceNode>, base: int, ts: Seq<SourceNode>)
    requires
        pre == preorder_forest(ts),
        0 <= base,
        base + pre.len() <= usize::MAX + 1,
    ensures
        forall|i: int, j: int|
            #![trigger appended_views(pre, base)[i].children[j]]
            0 <= i < pre.len() && 0 <= j < appended_views(pre, base)[i].children.len()
                ==> base + i < appended_views(pre, base)[i].children[j] < base + pre.len(),
{
    assert forall|i: int, j: int|
        #![trigger appended_views(pre, base)[i].children[j]]
        0 <= i < pre.len() && 0 <= j < appended_views(pre, base)[i].children.len()
        implies base + i < appended_views(pre, base)[i].children[j] < base + pre.len() by {
        let s = pre[i];
        lemma_forest_subtree_fits(ts, i);
        assert(preorder(s).len() == 1 + preorder_forest(s.children@).len());
        lemma_child_positions_range(s.children@, base + i + 1);
        assert(appended_views(pre, base)[i] == view_of(s, base + i));
    }
}

/// Bookkeeping only records positions that were placed.
proof fn lemma_aux_fold_range(a: FlatAux, pre: Seq<SourceNode>, base: int)
    requires
        0 <= base,
        base + pre.len() <= usize::MAX + 1,
    ensures
        forall|k: int|
            0 <= k < aux_fold(a, pre, base).specials.len() ==> (k < a.specials.len()
                && #[trigger] aux_fold(a, pre, base).specials[k] == a.specials[k]) || (a.specials.len() <= k
                && base <= aux_fold(a, pre, base).specials[k] < base + pre.len()),
        forall|p: NodeIndex| #[trigger]
            aux_fold(a, pre, base).extras.contains_key(p) ==> a.extras.contains_key(p) || (base <= p
                < base + pre.len()),
        forall|g: usize| #[trigger]
            aux_fold(a, pre, base).gltf_to_local.contains_key(g) ==> (a.gltf_to_local.contains_key(
                g,
            ) && aux_fold(a, pre, base).gltf_to_local[g] == a.gltf_to_local[g]) || (base
                <= aux_fold(a, pre, base).gltf_to_local[g] < base + pre.len()),
        a.specials.len() <= aux_fold(a, pre, base).specials.len(),
    decreases pre.len(),
{
    if pre.len() > 0 {
        lemma_aux_fold_range(a, pre.drop_last(), base);
    }
}

/// Whether no two nodes of `pre` share a document index.
pub open spec fn distinct_gltf_indices(pre: Seq<SourceNode>) -> bool {
    forall|i: int, j: int|
        #![trigger pre[i].gltf_index, pre[j].gltf_index]
        0 <= i < j < pre.len() ==> pre[i].gltf_index != pre[j].gltf_index
}

proof fn lemma_aux_fold_resolves(a: FlatAux, pre: Seq<SourceNode>, base: int)
    requires
        distinct_gltf_indices(pre),
        0 <= base,
        base + pre.len() <= usize::MAX + 1,
    ensures
        forall|p: int|
            0 <= p < pre.len() ==> aux_fold(a, pre, base).gltf_to_local.contains_key(
                (#[trigger] pre[p]).gltf_index,
            ) && aux_fold(a, pre, base).gltf_to_local[pre[p].gltf_index] == base + p,
    decreases pre.len(),
{
    if pre.len() > 0 {
        let front = pre.drop_last();
        assert(distinct_gltf_indices(front)) by {
            assert forall|i: int, j: int| 0 <= i < j < front.len() implies front[i].gltf_index
                != front[j].gltf_index by {
                assert(front[i] == pre[i] && front[j] == pre[j]);
            }
        }
        lemma_aux_fold_resolves(a, front, base);
        assert forall|p: int| 0 <= p < pre.len() implies aux_fold(
            a,
            pre,
            base,
        ).gltf_to_local.contains_key((#[trigger] pre[p]).gltf_index) && aux_fold(
            a,
            pre,
            base,
        ).gltf_to_local[pre[p].gltf_index] == base + p by {
            if p < pre.len() - 1 {
                assert(front[p] == pre[p]);
                assert(pre[p].gltf_index != pre[pre.len() - 1].gltf_index);
            }
        }
    }
}

/// When each document node occurs once in the scene, every document index
/// resolves to the flattened node made from that document node, which keeps
/// its mesh and skin.
pub proof fn document_indices_resolve(roots: Seq<SourceNode>, g: SceneGraph)
    requires
        distinct_gltf_indices(preorder_forest(roots)),
        preorder_forest(roots).len() <= usize::MAX,
        g.node_views() == appended_views(preorder_forest(roots), 0),
        g.aux() == aux_fold(empty_aux(), preorder_forest(roots), 0),
    ensures
        forall|p: int|
            0 <= p < g.nodes@.len() ==> {
                let src = #[trigger] preorder_forest(roots)[p];
                &&& g.gltf_to_local@.contains_key(src.gltf_index)
                &&& g.gltf_to_local@[src.gltf_index] == p
                &&& g.nodes@[p].mesh_index == src.mesh_index
                &&& g.nodes@[p].skin_index == src.skin_index
            },
{
    let pre = preorder_forest(roots);
    assert(g.nodes@.len() == g.node_views().len());
    lemma_aux_fold_resolves(empty_aux(), pre, 0);
    assert forall|p: int| 0 <= p < g.nodes@.len() implies {
        let src = #[trigger] preorder_forest(roots)[p];
        &&& g.nodes@[p].mesh_index == src.mesh_index
        &&& g.nodes@[p].skin_index == src.skin_index
    } by {
        assert(g.node_views()[p] == g.nodes@[p]@);
        assert(appended_views(pre, 0)[p] == view_of(pre[p], p));
    }
}

// ---------------------------------------------------------------------------
// Flattening
// ---------------------------------------------------------------------------

impl SceneGraph {
    /// The flattened nodes as mathematical values.
    pub open spec fn node_views(&self) -> Seq<SceneNodeView> {
        self.nodes@.map_values(|n: SceneNode| n@)
    }

    /// The bookkeeping as mathematical values.
    pub open spec fn aux(&self) -> FlatAux {
        FlatAux {
            specials: self.specials@,
            extras: self.node_extras@,
            gltf_to_local: self.gltf_to_local@,
        }
    }

    /// Well-formedness of a flattened hierarchy: children come after their
    /// parent, and every recorded index names a node of the list.
    pub open spec fn wf(&self) -> bool {
        &&& forall|i: int, j: int|
            #![trigger self.nodes@[i].children@[j]]
            0 <= i < self.nodes@.len() && 0 <= j < self.nodes@[i].children@.len()
                ==> i < self.nodes@[i].children@[j] < self.nodes@.len()
        &&& forall|k: int|
            0 <= k < self.roots@.len() ==> #[trigger] self.roots@[k] < self.nodes@.len()
        &&& forall|k: int|
            0 <= k < self.specials@.len() ==> #[trigger] self.specials@[k] < self.nodes@.len()
        &&& forall|p: NodeIndex| #[trigger]
            self.node_extras@.contains_key(p) ==> p < self.nodes@.len()
        &&& forall|g: usize| #[trigger]
            self.gltf_to_local@.contains_key(g) ==> self.gltf_to_local@[g] < self.nodes@.len()
    }

    /// Flattens the trees `roots` of a scene: nodes are numbered in
    /// pre-order, each node records the positions of its children, special
    /// nodes are collected with their metadata, and each document index is
    /// mapped to its position.
    pub fn load(roots: &Vec<SourceNode>) -> (g: SceneGraph)
        ensures
            g.node_views() == appended_views(preorder_forest(roots@), 0),
            g.aux() == aux_fold(empty_aux(), preorder_forest(roots@), 0),
            g.roots@ == child_positions(roots@, 0),
            g.wf(),
    {
        let mut g = SceneGraph {
            nodes: Vec::new(),
            roots: Vec::new(),
            specials: Vec::new(),
            node_extras: HashMap::new(),
            gltf_to_local: HashMap::new(),
        };
        proof {
            assert(g.node_views() =~= appended_views(preorder_forest(roots@.take(0)), 0));
            assert(g.aux().extras =~= empty_aux().extras);
            assert(g.aux().gltf_to_local =~= empty_aux().gltf_to_local);
            assert(roots@.take(0) =~= Seq::<SourceNode>::empty());
        }
        let mut i: usize = 0;
        while i < roots.len()
            invariant
                i <= roots@.len(),
                g.nodes@.len() == preorder_forest(roots@.take(i as int)).len(),
                g.node_views() == appended_views(preorder_forest(roots@.take(i as int)), 0),
                g.aux() == aux_fold(empty_aux(), preorder_forest(roots@.take(i as int)), 0),
                g.roots@ == child_positions(roots@.take(i as int), 0),
            decreases roots@.len() - i,
        {
            let ghost pre_i = preorder_forest(roots@.take(i as int));
            let idx = g.load_node(&roots[i]);
            g.roots.push(idx);
            proof {
                lemma_forest_take_step(roots@, i as int);
                lemma_appended_views_concat(pre_i, preorder(roots@[i as int]), 0);
                lemma_aux_fold_concat(empty_aux(), pre_i, preorder(roots@[i as int]), 0);
            }
            i += 1;
        }
        let node_count = g.nodes.len();
        proof {
            assert(roots@.take(i as int) =~= roots@);
            let pre = preorder_forest(roots@);
            assert(node_count == pre.len());
            lemma_appended_views_children(pre, 0, roots@);
            lemma_aux_fold_range(empty_aux(), pre, 0);
            lemma_child_positions_range(roots@, 0);
            assert forall|i: int, j: int|
                #![trigger g.nodes@[i].children@[j]]
                0 <= i < g.nodes@.len() && 0 <= j < g.nodes@[i].children@.len()
                implies i < g.nodes@[i].children@[j] < g.nodes@.len() by {
                assert(g.node_views()[i] == g.nodes@[i]@);
                assert(g.node_views()[i] == appended_views(pre, 0)[i]);
                assert(appended_views(pre, 0)[i].children[j] == g.nodes@[i].children@[j]);
            }
            assert(g.nodes@.len() == pre.len());
            assert forall|k: int| 0 <= k < g.roots@.len() implies #[trigger] g.roots@[k]
                < g.nodes@.len() by {
                assert(child_positions(roots@, 0)[k] == g.roots@[k]);
            }
            assert forall|k: int| 0 <= k < g.specials@.len() implies #[trigger] g.specials@[k]
                < g.nodes@.len() by {
                assert(aux_fold(empty_aux(), pre, 0).specials[k] == g.specials@[k]);
            }
            assert forall|p: NodeIndex| #[trigger] g.node_extras@.contains_key(p) implies p
                < g.nodes@.len() by {
                assert(aux_fold(empty_aux(), pre, 0).extras.contains_key(p));
            }
            assert forall|q: usize| #[trigger] g.gltf_to_local@.contains_key(q) implies
                g.gltf_to_local@[q] < g.nodes@.len() by {
                assert(aux_fold(empty_aux(), pre, 0).gltf_to_local.contains_key(q));
            }
        }
        g
    }

    /// Places `node` and its subtree at the end of the list and returns the
    /// position of `node`.
    fn load_node(&mut self, node: &SourceNode) -> (idx: NodeIndex)
        ensures
            idx == old(self).nodes@.len(),
            final(self).nodes@.len() == old(self).nodes@.len() + preorder(*node).len(),
            final(self).node_views() == old(self).node_views() + appended_views(
                preorder(*node),
                idx as int,
            ),
            final(self).aux() == aux_fold(old(self).aux(), preorder(*node), idx as int),
            final(self).roots@ == old(self).roots@,
        decreases node,
    {
        let idx = self.nodes.len();
        let ghost aux0 = self.aux();
        let ghost views0 = self.node_views();
        if let Some(e) = node.mesh_extras {
            if e.marks_special_mesh() {
                self.specials.push(idx);
                self.node_extras.insert(idx, e);
            }
        }
        if let Some(e) = node.node_extras {
            if e.marks_spawnpoint() {
                self.specials.push(idx);
                self.node_extras.insert(idx, e);
            }
        }
        self.gltf_to_local.insert(node.gltf_index, idx);
        self.nodes.push(
            SceneNode {
                gltf_index: node.gltf_index,
                mesh_index: node.mesh_index,
                skin_index: node.skin_index,
                children: Vec::new(),
            },
        );
        let ghost partial = SceneNodeView {
            gltf_index: node.gltf_index,
            mesh_index: node.mesh_index,
            skin_index: node.skin_index,
            children: Seq::empty(),
        };
        proof {
            assert(seq![*node].drop_last() =~= Seq::<SourceNode>::empty());
            assert(aux_fold(aux0, Seq::<SourceNode>::empty(), idx as int) == aux0);
            assert(self.aux() == aux_step(aux0, *node, idx));
            assert(self.aux() == aux_fold(aux0, seq![*node], idx as int));
            assert(node.children@.take(0) =~= Seq::<SourceNode>::empty());
            assert(seq![*node] + preorder_forest(node.children@.take(0)) =~= seq![*node]);
            assert(self.node_views() =~= views0.push(partial) + appended_views(
                preorder_forest(node.children@.take(0)),
                idx + 1,
            ));
        }
        let mut child_indices: Vec<NodeIndex> = Vec::new();
        let mut i: usize = 0;
        while i < node.children.len()
            invariant
                i <= node.children@.len(),
                idx == views0.len(),
                self.nodes@.len() == idx + 1 + preorder_forest(node.children@.take(i as int)).len(),
                self.node_views() == views0.push(partial) + appended_views(
                    preorder_forest(node.children@.take(i as int)),
                    idx + 1,
                ),
                self.aux() == aux_fold(
                    aux0,
                    seq![*node] + preorder_forest(node.children@.take(i as int)),
                    idx as int,
                ),
                child_indices@ == child_positions(node.children@.take(i as int), idx + 1),
                self.roots@ == old(self).roots@,
            decreases node.children@.len() - i,
        {
            let ghost pre_i = preorder_forest(node.children@.take(i as int));
            let ghost child = node.children@[i as int];
            assert(decreases_to!(node => node.children@[i as int]));
            let c = self.load_node(&node.children[i]);
            child_indices.push(c);
            proof {
                lemma_forest_take_step(node.children@, i as int);
                lemma_child_positions_take_step(node.children@, i as int, idx + 1);
                lemma_appended_views_concat(pre_i, preorder(child), idx + 1);
                lemma_aux_fold_concat(aux0, seq![*node] + pre_i, preorder(child), idx as int);
                assert(seq![*node] + pre_i + preorder(child) =~= seq![*node] + (pre_i + preorder(
                    child,
                )));
                assert(views0.push(partial) + appended_views(pre_i, idx + 1) + appended_views(
                    preorder(child),
                    idx + 1 + pre_i.len(),
                ) =~= views0.push(partial) + appended_views(pre_i + preorder(child), idx + 1));
            }
            i += 1;
        }
        let ghost before_set = self.node_views();
        self.nodes.set(
            idx,
            SceneNode {
                gltf_index: node.gltf_index,
                mesh_index: node.mesh_index,
                skin_index: node.skin_index,
                children: child_indices,
            },
        );
        proof {
            assert(node.children@.take(i as int) =~= node.children@);
            let forest = preorder_forest(node.children@);
            assert(preorder(*node) == seq![*node] + forest);
            lemma_appended_views_concat(seq![*node], forest, idx as int);
            assert(appended_views(seq![*node], idx as int) =~= seq![view_of(*node, idx as int)]);
            assert(self.node_views() =~= before_set.update(idx as int, view_of(*node, idx as int)));
            assert(self.node_views() =~= views0 + appended_views(preorder(*node), idx as int));
        }
        idx
    }

    /// The first special node, in the order they were found, whose metadata
    /// sets `kind`'s flag to 1.
    pub open spec fn spec_find_special(&self, kind: SpecialKind) -> Option<NodeIndex> {
        first_designated(self.specials@, self.node_extras@, kind)
    }

    /// The first special node, in the order they were found, whose metadata
    /// sets `kind`'s flag to 1.
    pub fn find_special(&self, kind: SpecialKind) -> (r: Option<NodeIndex>)
        ensures
            r == self.spec_find_special(kind),
    {
        let mut i: usize = 0;
        while i < self.specials.len()
            invariant
                i <= self.specials@.len(),
                forall|j: int|
                    0 <= j < i ==> !designated(self.node_extras@, #[trigger] self.specials@[j], kind),
            decreases self.specials@.len() - i,
        {
            let idx = self.specials[i];
            let found = match self.node_extras.get(&idx) {
                Some(extras) => match extras.flag(kind) {
                    Some(v) => v == 1,
                    None => false,
                },
                None => false,
            };
            if found {
                proof {
                    lemma_first_designated(self.specials@, self.node_extras@, kind, i as int);
                }
                return Some(idx);
            }
            i += 1;
        }
        proof {
            lemma_first_designated(self.specials@, self.node_extras@, kind, i as int);
        }
        None
    }

    /// The node designated as the UI surface, if any.
    pub fn find_surface_index(&self) -> (r: Option<NodeIndex>)
        ensures
            r == self.spec_find_special(SpecialKind::UiSurface),
    {
        self.find_special(SpecialKind::UiSurface)
    }

    /// The node designated as the grab bar, if any.
    pub fn find_grab_bar_index(&self) -> (r: Option<NodeIndex>)
        ensures
            r == self.spec_find_special(SpecialKind::GrabBar),
    {
        self.find_special(SpecialKind::GrabBar)
    }

    /// The node designated as the spawn point, if any; its transform is the
    /// spawn transform.
    pub fn find_spawnpoint_index(&self) -> (r: Option<NodeIndex>)
        ensures
            r == self.spec_find_special(SpecialKind::SpawnPoint),
    {
        self.find_special(SpecialKind::SpawnPoint)
    }

    /// Where the document node `gltf_index` was placed, if it was.
    pub fn local_index(&self, gltf_index: usize) -> (r: Option<NodeIndex>)
        ensures
            match r {
                Some(p) => self.gltf_to_local@.contains_key(gltf_index)
                    && self.gltf_to_local@[gltf_index] == p,
                None => !self.gltf_to_local@.contains_key(gltf_index),
            },
    {
        match self.gltf_to_local.get(&gltf_index) {
            Some(p) => Some(*p),
            None => None,
        }
    }
}

/// Whether `p` carries metadata with `kind`'s flag set to 1 in `extras`.
pub open spec fn designated(extras: Map<NodeIndex, Extras>, p: NodeIndex, kind: SpecialKind) -> bool {
    extras.contains_key(p) && extras[p].spec_flag(kind) == Some(1i32)
}

/// The first entry of `specials` designated for `kind` in `extras`.
pub open spec fn first_designated(
    specials: Seq<NodeIndex>,
    extras: Map<NodeIndex, Extras>,
    kind: SpecialKind,
) -> Option<NodeIndex>
    decreases specials.len(),
{
    if specials.len() == 0 {
        None
    } else if designated(extras, specials[0], kind) {
        Some(specials[0])
    } else {
        first_designated(specials.drop_first(), extras, kind)
    }
}

/// When the first `k` entries are not designated, the first designated entry
/// is entry `k` if it is designated, and otherwise lies beyond it (or there is
/// none when `k` is past the end).
proof fn lemma_first_designated(
    specials: Seq<NodeIndex>,
    extras: Map<NodeIndex, Extras>,
    kind: SpecialKind,
    k: int,
)
    requires
        0 <= k <= specials.len(),
        forall|j: int| 0 <= j < k ==> !designated(extras, #[trigger] specials[j], kind),
    ensures
        k == specials.len() ==> first_designated(specials, extras, kind) is None,
        k < specials.len() && designated(extras, specials[k], kind) ==> first_designated(
            specials,
            extras,
            kind,
        ) == Some(specials[k]),
    decreases k,
{
    if k > 0 {
        let rest = specials.drop_first();
        assert forall|j: int| 0 <= j < k - 1 implies !designated(extras, #[trigger] rest[j], kind) by {
            assert(rest[j] == specials[j + 1]);
        }
        lemma_first_designated(rest, extras, kind, k - 1);
        assert(!designated(extras, specials[0], kind));
        if k < specials.len() {
            assert(rest[k - 1] == specials[k]);
        }
    }
}

} // verus!
