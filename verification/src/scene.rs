//! The scene graph: an arena of nodes with parent-to-child edges by index,
//! and the depth-first, pre-order traversal that turns it into a draw list.
use vstd::prelude::*;
use crate::mat::{Mat4, Mm, V3, vm_bounded, vm_zero, vm_unit, mm_bounded, id_mm, mul_mm,
    mat_identity, mat_mul, mat_within, lemma_mul_id_left, lemma_mul_id_right, PARAM_LIM,
    ANGLE_LIM, TRAVERSE_LIM};
use crate::transform::{local_mm, local_matrix, lemma_local_identity};

verus! {

/// What a drawable node carries: a GPU buffer handle and the number of
/// indices to draw from it.
#[derive(Clone, Copy)]
pub struct Renderable {
    pub vao: u32,
    pub index_count: u32,
}

/// A node of the scene graph. Transform parameters are fixed-point; children
/// are arena indices, always larger than the node's own index.
pub struct SceneNode {
    pub position: V3,
    pub rotation: V3,
    pub scale: V3,
    pub reference_point: V3,
    pub renderable: Option<Renderable>,
    pub children: Vec<usize>,
    pub has_parent: bool,
}

impl SceneNode {
    /// A pure grouping node: all parameters at their defaults, nothing drawn.
    pub fn new() -> (r: SceneNode)
        ensures
            r.position@ == vm_zero(),
            r.rotation@ == vm_zero(),
            r.scale@ == vm_unit(),
            r.reference_point@ == vm_zero(),
            r.renderable is None,
            r.children@.len() == 0,
            !r.has_parent,
            node_params_ok(r),
    {
        SceneNode {
            position: V3::zero(),
            rotation: V3::zero(),
            scale: V3::unit(),
            reference_point: V3::zero(),
            renderable: None,
            children: Vec::new(),
            has_parent: false,
        }
    }

    /// A drawable node for an already uploaded buffer.
    pub fn from_vao(vao: u32, index_count: u32) -> (r: SceneNode)
        ensures
            r.position@ == vm_zero(),
            r.rotation@ == vm_zero(),
            r.scale@ == vm_unit(),
            r.reference_point@ == vm_zero(),
            r.renderable == Some(Renderable { vao, index_count }),
            r.children@.len() == 0,
            !r.has_parent,
            node_params_ok(r),
    {
        SceneNode {
            position: V3::zero(),
            rotation: V3::zero(),
            scale: V3::unit(),
            reference_point: V3::zero(),
            renderable: Some(Renderable { vao, index_count }),
            children: Vec::new(),
            has_parent: false,
        }
    }
}

/// The transform parameters of a node stay within the ranges the pipeline
/// accepts.
pub open spec fn node_params_ok(n: SceneNode) -> bool {
    &&& vm_bounded(n.position@, PARAM_LIM as int)
    &&& vm_bounded(n.rotation@, ANGLE_LIM as int)
    &&& vm_bounded(n.scale@, PARAM_LIM as int)
    &&& vm_bounded(n.reference_point@, PARAM_LIM as int)
}

/// Whether `(i, k)` names the `k`-th child slot of node `i`.
pub open spec fn slot_ok(nodes: Seq<SceneNode>, i: int, k: int) -> bool {
    0 <= i < nodes.len() && 0 <= k < nodes[i].children@.len()
}

/// The child index stored in slot `(i, k)`.
pub open spec fn child_at(nodes: Seq<SceneNode>, i: int, k: int) -> int {
    nodes[i].children@[k] as int
}

/// The arena of nodes. Edges always point from lower to higher indices, so
/// the graph is a forest: no cycles, and no node has two parents.
pub struct SceneGraph {
    pub nodes: Vec<SceneNode>,
}

impl SceneGraph {
    /// Well-formedness: parameters in range; every child index larger than
    /// its parent's and in bounds; no child stored in two slots; and a node
    /// that was never claimed as a child has `has_parent` false.
    pub open spec fn wf(self) -> bool {
        &&& forall|i: int|
            0 <= i < self.nodes@.len() ==> node_params_ok(#[trigger] self.nodes@[i])
        &&& forall|i: int, k: int|
            slot_ok(self.nodes@, i, k) ==> i < #[trigger] child_at(self.nodes@, i, k)
                < self.nodes@.len()
        &&& forall|i1: int, k1: int, i2: int, k2: int|
            slot_ok(self.nodes@, i1, k1) && slot_ok(self.nodes@, i2, k2) && (i1 != i2 || k1 != k2)
                ==> #[trigger] child_at(self.nodes@, i1, k1) != #[trigger] child_at(
                self.nodes@,
                i2,
                k2,
            )
        &&& forall|i: int, k: int|
            slot_ok(self.nodes@, i, k) ==> self.nodes@[#[trigger] child_at(
                self.nodes@,
                i,
                k,
            )].has_parent
    }

    /// An empty scene graph.
    pub fn new() -> (r: SceneGraph)
        ensures
            r.wf(),
            r.nodes@.len() == 0,
    {
        SceneGraph { nodes: Vec::new() }
    }

    /// The number of nodes in the arena.
    pub fn len(&self) -> (r: usize)
        ensures
            r == self.nodes@.len(),
    {
        self.nodes.len()
    }

    /// Move a fresh node into the arena and return its index.
    pub fn add_node(&mut self, node: SceneNode) -> (idx: usize)
        requires
            old(self).wf(),
            node_params_ok(node),
            node.children@.len() == 0,
            !node.has_parent,
            old(self).nodes@.len() < usize::MAX,
        ensures
            final(self).wf(),
            idx == old(self).nodes@.len(),
            final(self).nodes@ == old(self).nodes@.push(node),
    {
        let idx = self.nodes.len();
        self.nodes.push(node);
        proof {
            let nodes = self.nodes@;
            let onodes = old(self).nodes@;
            assert forall|i: int, k: int| slot_ok(nodes, i, k) implies i < #[trigger] child_at(
                nodes,
                i,
                k,
            ) < nodes.len() && nodes[child_at(nodes, i, k)].has_parent by {
                assert(slot_ok(onodes, i, k));
                assert(child_at(nodes, i, k) == child_at(onodes, i, k));
            }
            assert forall|i1: int, k1: int, i2: int, k2: int|
                slot_ok(nodes, i1, k1) && slot_ok(nodes, i2, k2) && (i1 != i2 || k1
                    != k2) implies #[trigger] child_at(nodes, i1, k1) != #[trigger] child_at(
                nodes,
                i2,
                k2,
            ) by {
                assert(slot_ok(onodes, i1, k1));
                assert(slot_ok(onodes, i2, k2));
                assert(child_at(nodes, i1, k1) == child_at(onodes, i1, k1));
                assert(child_at(nodes, i2, k2) == child_at(onodes, i2, k2));
            }
        }
        idx
    }

    /// Attach `child` under `parent`, transferring structural ownership.
    /// Succeeds exactly when the edge respects the arena order and the child
    /// has not been claimed before; on failure the graph is unchanged.
    pub fn add_child(&mut self, parent: usize, child: usize) -> (ok: bool)
        requires
            old(self).wf(),
            parent < old(self).nodes@.len(),
            child < old(self).nodes@.len(),
        ensures
            final(self).wf(),
            ok == (parent < child && !old(self).nodes@[child as int].has_parent),
            !ok ==> *final(self) == *old(self),
            ok ==> {
                &&& final(self).nodes@.len() == old(self).nodes@.len()
                &&& final(self).nodes@[parent as int].children@ == old(self).nodes@[parent as int].children@.push(child)
                &&& final(self).nodes@[parent as int].position == old(self).nodes@[parent as int].position
                &&& final(self).nodes@[parent as int].rotation == old(self).nodes@[parent as int].rotation
                &&& final(self).nodes@[parent as int].scale == old(self).nodes@[parent as int].scale
                &&& final(self).nodes@[parent as int].reference_point == old(self).nodes@[
                    parent as int
                ].reference_point
                &&& final(self).nodes@[parent as int].renderable == old(self).nodes@[parent as int].renderable
                &&& final(self).nodes@[parent as int].has_parent == old(self).nodes@[parent as int].has_parent
                &&& final(self).nodes@[child as int] == (SceneNode {
                    has_parent: true,
                    ..old(self).nodes@[child as int]
                })
                &&& forall|j: int|
                    0 <= j < final(self).nodes@.len() && j != parent as int && j != child as int
                        ==> final(self).nodes@[j] == old(self).nodes@[j]
            },
    {
        if !(parent < child) || self.nodes[child].has_parent {
            return false;
        }
        let ghost onodes = self.nodes@;
        let ghost oldk = self.nodes@[parent as int].children@.len() as int;
        self.nodes[parent].children.push(child);
        self.nodes[child].has_parent = true;
        proof {
            let nodes = self.nodes@;
            assert(nodes[parent as int].children@ == onodes[parent as int].children@.push(child));
            // every old slot keeps its child; the one new slot holds `child`
            assert forall|i: int, k: int| slot_ok(nodes, i, k) implies (if i == parent as int && k
                == oldk {
                child_at(nodes, i, k) == child as int
            } else {
                slot_ok(onodes, i, k) && child_at(nodes, i, k) == child_at(onodes, i, k)
            }) by {
                if i == parent as int {
                    assert(nodes[i].children@ == onodes[i].children@.push(child));
                }
            }
            assert forall|i: int, k: int| slot_ok(onodes, i, k) implies slot_ok(nodes, i, k) by {
                if i == parent as int {
                    assert(nodes[i].children@ == onodes[i].children@.push(child));
                }
            }
            // the fresh child was in no old slot
            assert forall|i: int, k: int|
                slot_ok(onodes, i, k) implies child_at(onodes, i, k) != child as int by {
                assert(onodes[child_at(onodes, i, k)].has_parent);
            }
            assert forall|i: int, k: int| slot_ok(nodes, i, k) implies i < #[trigger] child_at(
                nodes,
                i,
                k,
            ) < nodes.len() && nodes[child_at(nodes, i, k)].has_parent by {
                if i == parent as int && k == oldk {
                    assert(nodes[child as int].has_parent);
                } else {
                    assert(onodes[child_at(onodes, i, k)].has_parent);
                    assert(child_at(onodes, i, k) != child as int);
                }
            }
            assert forall|i1: int, k1: int, i2: int, k2: int|
                slot_ok(nodes, i1, k1) && slot_ok(nodes, i2, k2) && (i1 != i2 || k1
                    != k2) implies #[trigger] child_at(nodes, i1, k1) != #[trigger] child_at(
                nodes,
                i2,
                k2,
            ) by {
                if i1 == parent as int && k1 == oldk {
                    assert(child_at(nodes, i2, k2) != child as int);
                } else if i2 == parent as int && k2 == oldk {
                    assert(child_at(nodes, i1, k1) != child as int);
                }
            }
        }
        true
    }

    /// Overwrite the position of node `i`.
    pub fn set_position(&mut self, i: usize, v: V3)
        requires
            old(self).wf(),
            i < old(self).nodes@.len(),
            vm_bounded(v@, PARAM_LIM as int),
        ensures
            final(self).wf(),
            final(self).nodes@ == old(self).nodes@.update(
                i as int,
                (SceneNode { position: v, ..old(self).nodes@[i as int] }),
            ),
    {
        self.nodes[i].position = v;
        proof {
            self.lemma_params_update(old(self).nodes@, i as int);
        }
    }

    /// Overwrite the rotation of node `i`, in fixed-point radians per axis.
    pub fn set_rotation(&mut self, i: usize, v: V3)
        requires
            old(self).wf(),
            i < old(self).nodes@.len(),
            vm_bounded(v@, ANGLE_LIM as int),
        ensures
            final(self).wf(),
            final(self).nodes@ == old(self).nodes@.update(
                i as int,
                (SceneNode { rotation: v, ..old(self).nodes@[i as int] }),
            ),
    {
        self.nodes[i].rotation = v;
        proof {
            self.lemma_params_update(old(self).nodes@, i as int);
        }
    }

    /// Overwrite the scale of node `i`.
    pub fn set_scale(&mut self, i: usize, v: V3)
        requires
            old(self).wf(),
            i < old(self).nodes@.len(),
            vm_bounded(v@, PARAM_LIM as int),
        ensures
            final(self).wf(),
            final(self).nodes@ == old(self).nodes@.update(
                i as int,
                (SceneNode { scale: v, ..old(self).nodes@[i as int] }),
            ),
    {
        self.nodes[i].scale = v;
        proof {
            self.lemma_params_update(old(self).nodes@, i as int);
        }
    }

    /// Overwrite the pivot of node `i`.
    pub fn set_reference_point(&mut self, i: usize, v: V3)
        requires
            old(self).wf(),
            i < old(self).nodes@.len(),
            vm_bounded(v@, PARAM_LIM as int),
        ensures
            final(self).wf(),
            final(self).nodes@ == old(self).nodes@.update(
                i as int,
                (SceneNode { reference_point: v, ..old(self).nodes@[i as int] }),
            ),
    {
        self.nodes[i].reference_point = v;
        proof {
            self.lemma_params_update(old(self).nodes@, i as int);
        }
    }

    /// Read access to node `i`.
    pub fn node(&self, i: usize) -> (r: &SceneNode)
        requires
            i < self.nodes@.len(),
        ensures
            *r == self.nodes@[i as int],
    {
        &self.nodes[i]
    }

    /// A parameter update of one node, its children and flag untouched,
    /// preserves well-formedness.
    proof fn lemma_params_update(self, onodes: Seq<SceneNode>, j: int)
        requires
            0 <= j < onodes.len(),
            self.nodes@.len() == onodes.len(),
            forall|i: int|
                0 <= i < self.nodes@.len() ==> node_params_ok(#[trigger] self.nodes@[i]),
            forall|i: int|
                0 <= i < onodes.len() && i != j ==> self.nodes@[i] == onodes[i],
            self.nodes@[j].children == onodes[j].children,
            self.nodes@[j].has_parent == onodes[j].has_parent,
            forall|i: int, k: int|
                slot_ok(onodes, i, k) ==> i < #[trigger] child_at(onodes, i, k) < onodes.len(),
            forall|i1: int, k1: int, i2: int, k2: int|
                slot_ok(onodes, i1, k1) && slot_ok(onodes, i2, k2) && (i1 != i2 || k1 != k2)
                    ==> #[trigger] child_at(onodes, i1, k1) != #[trigger] child_at(
                    onodes,
                    i2,
                    k2,
                ),
            forall|i: int, k: int|
                slot_ok(onodes, i, k) ==> onodes[#[trigger] child_at(onodes, i, k)].has_parent,
        ensures
            self.wf(),
    {
        let nodes = self.nodes@;
        assert forall|i: int, k: int| slot_ok(nodes, i, k) implies slot_ok(onodes, i, k)
            && child_at(nodes, i, k) == child_at(onodes, i, k) by {
            assert(nodes[i].children == onodes[i].children);
        }
        assert forall|i: int, k: int| slot_ok(nodes, i, k) implies i < #[trigger] child_at(
            nodes,
            i,
            k,
        ) < nodes.len() && nodes[child_at(nodes, i, k)].has_parent by {
            assert(onodes[child_at(onodes, i, k)].has_parent);
            assert(nodes[child_at(nodes, i, k)].has_parent == onodes[child_at(
                onodes,
                i,
                k,
            )].has_parent);
        }
        assert forall|i1: int, k1: int, i2: int, k2: int|
            slot_ok(nodes, i1, k1) && slot_ok(nodes, i2, k2) && (i1 != i2 || k1
                != k2) implies #[trigger] child_at(nodes, i1, k1) != #[trigger] child_at(
            nodes,
            i2,
            k2,
        ) by {
            assert(slot_ok(onodes, i1, k1));
            assert(slot_ok(onodes, i2, k2));
        }
    }
}

/// One draw call: which buffer to draw, how many indices, and the two
/// matrices handed to the shader.
pub struct DrawCmd {
    pub vao: u32,
    pub index_count: u32,
    pub mvp: Mat4,
    pub model: Mat4,
}

/// Mathematical model of a draw call.
#[verifier::ext_equal]
pub ghost struct DrawM {
    pub vao: u32,
    pub index_count: u32,
    pub mvp: Mm,
    pub model: Mm,
}

pub open spec fn draw_view(c: DrawCmd) -> DrawM {
    DrawM { vao: c.vao, index_count: c.index_count, mvp: c.mvp@, model: c.model@ }
}

/// The models of a sequence of draw calls.
pub open spec fn draws_of(s: Seq<DrawCmd>) -> Seq<DrawM> {
    s.map_values(|c: DrawCmd| draw_view(c))
}

/// The local matrix of a node, from its stored parameters.
pub open spec fn node_local_mm(n: SceneNode) -> Mm {
    local_mm(n.position@, n.rotation@, n.scale@, n.reference_point@)
}

/// The draw calls a single node emits: one if it is drawable, none if it is
/// a pure grouping node.
pub open spec fn own_draws(n: SceneNode, vp: Mm, tc: Mm) -> Seq<DrawM> {
    match n.renderable {
        Some(r) => seq![
            DrawM { vao: r.vao, index_count: r.index_count, mvp: mul_mm(vp, tc), model: tc },
        ],
        None => Seq::empty(),
    }
}

/// Depth-first, pre-order draw list of the subtree rooted at `i`: the node's
/// own draw first, then each child subtree in stored order. A node whose
/// composed transform leaves the representable range is culled with its
/// whole subtree.
pub open spec fn visit_mm(nodes: Seq<SceneNode>, i: int, vp: Mm, tp: Mm) -> Seq<DrawM>
    decreases nodes.len() - i, 1int, 0int,
{
    if 0 <= i < nodes.len() {
        let lm = node_local_mm(nodes[i]);
        if mm_bounded(lm, TRAVERSE_LIM as int) {
            let tc = mul_mm(tp, lm);
            if mm_bounded(tc, TRAVERSE_LIM as int) {
                own_draws(nodes[i], vp, tc) + visit_kids(nodes, i, 0, vp, tc)
            } else {
                Seq::empty()
            }
        } else {
            Seq::empty()
        }
    } else {
        Seq::empty()
    }
}

/// Draw lists of the child subtrees of node `i`, from slot `k` on.
pub open spec fn visit_kids(nodes: Seq<SceneNode>, i: int, k: int, vp: Mm, tc: Mm) -> Seq<DrawM>
    decreases nodes.len() - i, 0int, nodes[i].children@.len() - k,
{
    if 0 <= i < nodes.len() && 0 <= k < nodes[i].children@.len() {
        let c = child_at(nodes, i, k);
        if i < c < nodes.len() {
            visit_mm(nodes, c, vp, tc) + visit_kids(nodes, i, k + 1, vp, tc)
        } else {
            visit_kids(nodes, i, k + 1, vp, tc)
        }
    } else {
        Seq::empty()
    }
}

/// Draw lists of the child subtrees of node `i` up to (excluding) slot `k`:
/// the prefix form that the traversal loop accumulates.
pub open spec fn visit_kids_to(nodes: Seq<SceneNode>, i: int, k: int, vp: Mm, tc: Mm) -> Seq<
    DrawM,
>
    decreases nodes.len() - i, 0int, k,
{
    if 0 <= i < nodes.len() && 0 < k <= nodes[i].children@.len() {
        let c = child_at(nodes, i, k - 1);
        if i < c < nodes.len() {
            visit_kids_to(nodes, i, k - 1, vp, tc) + visit_mm(nodes, c, vp, tc)
        } else {
            visit_kids_to(nodes, i, k - 1, vp, tc)
        }
    } else {
        Seq::empty()
    }
}

/// The prefix up to `k` and the suffix from `k` together make the whole
/// child draw list.
proof fn lemma_kids_split(nodes: Seq<SceneNode>, i: int, k: int, vp: Mm, tc: Mm)
    requires
        0 <= i < nodes.len(),
        0 <= k <= nodes[i].children@.len(),
    ensures
        visit_kids_to(nodes, i, k, vp, tc) + visit_kids(nodes, i, k, vp, tc) == visit_kids(
            nodes,
            i,
            0,
            vp,
            tc,
        ),
    decreases k,
{
    if k == 0 {
        assert(visit_kids_to(nodes, i, 0, vp, tc) + visit_kids(nodes, i, 0, vp, tc)
            =~= visit_kids(nodes, i, 0, vp, tc));
    } else {
        lemma_kids_split(nodes, i, k - 1, vp, tc);
        assert(visit_kids_to(nodes, i, k, vp, tc) + visit_kids(nodes, i, k, vp, tc)
            =~= visit_kids_to(nodes, i, k - 1, vp, tc) + visit_kids(nodes, i, k - 1, vp, tc));
    }
}

impl SceneGraph {
    /// Walk the subtree rooted at `i` with accumulated transform `tp`,
    /// appending the draw calls of the subtree to `out`.
    fn visit_node(&self, i: usize, vp: &Mat4, tp: &Mat4, out: &mut Vec<DrawCmd>)
        requires
            self.wf(),
            i < self.nodes@.len(),
            mm_bounded(vp@, TRAVERSE_LIM as int),
            mm_bounded(tp@, TRAVERSE_LIM as int),
        ensures
            draws_of(final(out)@) == draws_of(old(out)@) + visit_mm(
                self.nodes@,
                i as int,
                vp@,
                tp@,
            ),
        decreases self.nodes@.len() - i,
    {
        let ghost base = out@;
        let n = &self.nodes[i];
        let lm: Mat4 = local_matrix(&n.position, &n.rotation, &n.scale, &n.reference_point);
        if !mat_within(&lm, TRAVERSE_LIM) {
            proof {
                assert(draws_of(out@) =~= draws_of(base) + visit_mm(
                    self.nodes@,
                    i as int,
                    vp@,
                    tp@,
                ));
            }
            return ;
        }
        let tc: Mat4 = mat_mul(tp, &lm, Ghost(TRAVERSE_LIM as int), Ghost(TRAVERSE_LIM as int));
        if !mat_within(&tc, TRAVERSE_LIM) {
            proof {
                assert(draws_of(out@) =~= draws_of(base) + visit_mm(
                    self.nodes@,
                    i as int,
                    vp@,
                    tp@,
                ));
            }
            return ;
        }
        match n.renderable {
            Some(r) => {
                let mvp: Mat4 = mat_mul(
                    vp,
                    &tc,
                    Ghost(TRAVERSE_LIM as int),
                    Ghost(TRAVERSE_LIM as int),
                );
                let ghost before = out@;
                out.push(DrawCmd { vao: r.vao, index_count: r.index_count, mvp, model: tc });
                proof {
                    assert(draws_of(out@) =~= draws_of(before) + own_draws(
                        self.nodes@[i as int],
                        vp@,
                        tc@,
                    ));
                }
            },
            None => {
                proof {
                    assert(draws_of(out@) =~= draws_of(base) + own_draws(
                        self.nodes@[i as int],
                        vp@,
                        tc@,
                    ));
                }
            },
        }
        let num: usize = n.children.len();
        let mut k: usize = 0;
        while k < num
            invariant
                self.wf(),
                i < self.nodes@.len(),
                k <= num,
                num == self.nodes@[i as int].children@.len(),
                mm_bounded(vp@, TRAVERSE_LIM as int),
                mm_bounded(tc@, TRAVERSE_LIM as int),
                draws_of(out@) == draws_of(base) + own_draws(self.nodes@[i as int], vp@, tc@)
                    + visit_kids_to(self.nodes@, i as int, k as int, vp@, tc@),
            decreases num - k,
        {
            let c: usize = self.nodes[i].children[k];
            proof {
                assert(slot_ok(self.nodes@, i as int, k as int));
                assert(i < child_at(self.nodes@, i as int, k as int) < self.nodes@.len());
            }
            let ghost mid = out@;
            self.visit_node(c, vp, &tc, out);
            k = k + 1;
            proof {
                assert(draws_of(out@) =~= draws_of(base) + own_draws(
                    self.nodes@[i as int],
                    vp@,
                    tc@,
                ) + visit_kids_to(self.nodes@, i as int, k as int, vp@, tc@));
            }
        }
        proof {
            lemma_kids_split(self.nodes@, i as int, num as int, vp@, tc@);
            assert(visit_kids(self.nodes@, i as int, num as int, vp@, tc@) =~= Seq::<
                DrawM,
            >::empty());
            assert(draws_of(out@) =~= draws_of(base) + visit_mm(self.nodes@, i as int, vp@, tp@));
        }
    }

    /// Depth-first, pre-order traversal: compute each node's transform, draw
    /// it if it is drawable, then recurse into its children in stored order.
    /// The returned list is exactly the model traversal of the tree.
    pub fn traverse(&self, root: usize, vp: &Mat4) -> (r: Vec<DrawCmd>)
        requires
            self.wf(),
            root < self.nodes@.len(),
            mm_bounded(vp@, TRAVERSE_LIM as int),
        ensures
            draws_of(r@) == visit_mm(self.nodes@, root as int, vp@, id_mm()),
    {
        let mut out: Vec<DrawCmd> = Vec::new();
        let idm: Mat4 = mat_identity();
        self.visit_node(root, vp, &idm, &mut out);
        proof {
            assert(draws_of(out@) =~= visit_mm(self.nodes@, root as int, vp@, id_mm()));
        }
        out
    }
}

/// Every transform parameter of the node is at its default.
pub open spec fn default_params(n: SceneNode) -> bool {
    &&& n.position@ == vm_zero()
    &&& n.rotation@ == vm_zero()
    &&& n.scale@ == vm_unit()
    &&& n.reference_point@ == vm_zero()
}

/// Traversal order: in a tree root -> A -> {B, C} with only A, B and C
/// drawable and every transform at its default, the draw list is exactly
/// [A, B, C]: a parent is drawn before its children, and children in
/// insertion order.
#[verifier::rlimit(100)]
pub proof fn lemma_traversal_order(
    nodes: Seq<SceneNode>,
    vp: Mm,
    ra: Renderable,
    rb: Renderable,
    rc: Renderable,
)
    requires
        nodes.len() == 4,
        nodes[0].children@ == seq![1usize],
        nodes[1].children@ == seq![2usize, 3usize],
        nodes[2].children@.len() == 0,
        nodes[3].children@.len() == 0,
        forall|i: int| 0 <= i < 4 ==> default_params(#[trigger] nodes[i]),
        nodes[0].renderable is None,
        nodes[1].renderable == Some(ra),
        nodes[2].renderable == Some(rb),
        nodes[3].renderable == Some(rc),
    ensures
        visit_mm(nodes, 0, vp, id_mm()) == seq![
            DrawM { vao: ra.vao, index_count: ra.index_count, mvp: vp, model: id_mm() },
            DrawM { vao: rb.vao, index_count: rb.index_count, mvp: vp, model: id_mm() },
            DrawM { vao: rc.vao, index_count: rc.index_count, mvp: vp, model: id_mm() },
        ],
{
    lemma_local_identity();
    lemma_mul_id_left(id_mm());
    lemma_mul_id_right(vp);
    assert(node_local_mm(nodes[0]) == id_mm());
    assert(node_local_mm(nodes[1]) == id_mm());
    assert(node_local_mm(nodes[2]) == id_mm());
    assert(node_local_mm(nodes[3]) == id_mm());
    assert(mm_bounded(id_mm(), TRAVERSE_LIM as int));
    assert(mul_mm(id_mm(), id_mm()) == id_mm());
    let drawa = DrawM { vao: ra.vao, index_count: ra.index_count, mvp: vp, model: id_mm() };
    let drawb = DrawM { vao: rb.vao, index_count: rb.index_count, mvp: vp, model: id_mm() };
    let drawc = DrawM { vao: rc.vao, index_count: rc.index_count, mvp: vp, model: id_mm() };
    assert(own_draws(nodes[1], vp, id_mm()) =~= seq![drawa]);
    assert(own_draws(nodes[2], vp, id_mm()) =~= seq![drawb]);
    assert(own_draws(nodes[3], vp, id_mm()) =~= seq![drawc]);
    assert(visit_kids(nodes, 2, 0, vp, id_mm()) =~= Seq::<DrawM>::empty());
    assert(visit_mm(nodes, 2, vp, id_mm()) =~= seq![drawb]);
    assert(visit_kids(nodes, 3, 0, vp, id_mm()) =~= Seq::<DrawM>::empty());
    assert(visit_mm(nodes, 3, vp, id_mm()) =~= seq![drawc]);
    assert(child_at(nodes, 1, 1) == 3);
    assert(visit_kids(nodes, 1, 2, vp, id_mm()) =~= Seq::<DrawM>::empty());
    assert(visit_kids(nodes, 1, 1, vp, id_mm()) =~= seq![drawc]);
    assert(child_at(nodes, 1, 0) == 2);
    assert(visit_kids(nodes, 1, 0, vp, id_mm()) =~= seq![drawb, drawc]);
    assert(visit_mm(nodes, 1, vp, id_mm()) =~= seq![drawa, drawb, drawc]);
    assert(child_at(nodes, 0, 0) == 1);
    assert(visit_kids(nodes, 0, 1, vp, id_mm()) =~= Seq::<DrawM>::empty());
    assert(visit_kids(nodes, 0, 0, vp, id_mm()) =~= seq![drawa, drawb, drawc]);
    assert(own_draws(nodes[0], vp, id_mm()) =~= Seq::<DrawM>::empty());
    assert(visit_mm(nodes, 0, vp, id_mm()) =~= seq![drawa, drawb, drawc]);
}

} // verus!
