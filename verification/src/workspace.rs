//! Window, workspace, tabs, and the split tree of panes inside a tab.

use vstd::prelude::*;

verus! {

/// Stable identity of a pane inside a tab.
#[derive(Debug, Clone, Copy, PartialEq, Eq, Hash, Structural)]
pub struct PaneId(u64);

impl PaneId {
    pub closed spec fn spec_num(self) -> u64 {
        self.0
    }

    pub fn new(value: u64) -> (id: Self)
        ensures
            id.spec_num() == value,
    {
        PaneId(value)
    }

    pub fn num(&self) -> (value: u64)
        ensures
            value == self.spec_num(),
    {
        self.0
    }
}

/// Two pane ids are equal exactly when their numbers are.
pub broadcast proof fn lemma_pane_id_eq(a: PaneId, b: PaneId)
    ensures
        #[trigger] a.spec_num() == #[trigger] b.spec_num() <==> a == b,
{
}

/// Direction in which a split node lays out its children.
#[derive(Debug, Clone, Copy, PartialEq, Eq, Structural)]
pub enum PaneSplitDirection {
    Horizontal,
    Vertical,
}

/// A leaf of the split tree.
#[derive(Debug, Clone, Copy, PartialEq, Eq, Structural)]
pub struct Pane {
    id: PaneId,
}

impl Pane {
    pub closed spec fn spec_id(self) -> PaneId {
        self.id
    }

    pub fn new(id: PaneId) -> (pane: Self)
        ensures
            pane.spec_id() == id,
    {
        Pane { id }
    }

    pub fn id(&self) -> (id: PaneId)
        ensures
            id == self.spec_id(),
    {
        self.id
    }
}

/// Errors of workspace operations.
#[derive(Debug, Clone, Copy, PartialEq, Eq, Structural)]
pub enum WorkspaceError {
    PaneNotFound(PaneId),
    CannotCloseLastPane,
}

/// Result of workspace operations.
pub type WorkspaceResult<T> = Result<T, WorkspaceError>;

/// The mathematical shape of a split tree: pane ids at the leaves, and the
/// direction of each split with its children in order.
pub enum PaneLayout {
    Leaf(u64),
    Split(PaneSplitDirection, Seq<PaneLayout>),
}

/// The pane ids of a layout, left to right.
pub open spec fn layout_ids(l: PaneLayout) -> Seq<u64>
    decreases l,
{
    match l {
        PaneLayout::Leaf(id) => seq![id],
        PaneLayout::Split(_, children) => layouts_ids(children),
    }
}

/// The pane ids of a sequence of sibling layouts, left to right.
pub open spec fn layouts_ids(ls: Seq<PaneLayout>) -> Seq<u64>
    decreases ls,
{
    if ls.len() == 0 {
        Seq::empty()
    } else {
        layout_ids(ls[0]) + layouts_ids(ls.subrange(1, ls.len() as int))
    }
}

/// The layout after splitting the first pane (left to right) whose id is `target`:
/// that leaf becomes a split in direction `dir` holding the old pane and then the new one.
pub open spec fn split_layout(l: PaneLayout, target: u64, dir: PaneSplitDirection, new_id: u64) -> PaneLayout
    decreases l,
{
    match l {
        PaneLayout::Leaf(id) => if id == target {
            PaneLayout::Split(dir, seq![PaneLayout::Leaf(id), PaneLayout::Leaf(new_id)])
        } else {
            l
        },
        PaneLayout::Split(d, children) => PaneLayout::Split(d, split_layouts(children, target, dir, new_id)),
    }
}

/// Splits the pane `target` inside the first sibling that holds it.
pub open spec fn split_layouts(ls: Seq<PaneLayout>, target: u64, dir: PaneSplitDirection, new_id: u64) -> Seq<PaneLayout>
    decreases ls,
{
    if ls.len() == 0 {
        ls
    } else if layout_ids(ls[0]).contains(target) {
        seq![split_layout(ls[0], target, dir, new_id)] + ls.subrange(1, ls.len() as int)
    } else {
        seq![ls[0]] + split_layouts(ls.subrange(1, ls.len() as int), target, dir, new_id)
    }
}

/// Whether following the first child from the root always reaches a pane.
pub open spec fn has_leftmost_pane(l: PaneLayout) -> bool
    decreases l,
{
    match l {
        PaneLayout::Leaf(_) => true,
        PaneLayout::Split(_, children) => children.len() > 0 && has_leftmost_pane(children[0]),
    }
}

/// The direction of the root split, if the root is a split.
pub open spec fn layout_direction(l: PaneLayout) -> Option<PaneSplitDirection> {
    match l {
        PaneLayout::Leaf(_) => None,
        PaneLayout::Split(d, _) => Some(d),
    }
}

/// The first index at which `x` occurs in `s`.
pub open spec fn first_index(s: Seq<u64>, x: u64) -> int
    decreases s.len(),
{
    if s.len() == 0 {
        0
    } else if s[0] == x {
        0
    } else {
        1 + first_index(s.subrange(1, s.len() as int), x)
    }
}

pub proof fn lemma_layouts_ids_concat(a: Seq<PaneLayout>, b: Seq<PaneLayout>)
    ensures
        layouts_ids(a + b) == layouts_ids(a) + layouts_ids(b),
    decreases a.len(),
{
    if a.len() == 0 {
        assert(a + b =~= b);
    } else {
        assert((a + b).subrange(1, (a + b).len() as int) =~= a.subrange(1, a.len() as int) + b);
        lemma_layouts_ids_concat(a.subrange(1, a.len() as int), b);
    }
}

pub proof fn lemma_layouts_ids_contains(ls: Seq<PaneLayout>, t: u64)
    ensures
        layouts_ids(ls).contains(t) <==> exists|j: int| 0 <= j < ls.len() && #[trigger] layout_ids(ls[j]).contains(t),
    decreases ls.len(),
{
    if ls.len() > 0 {
        let rest = ls.subrange(1, ls.len() as int);
        lemma_layouts_ids_contains(rest, t);
        if layouts_ids(ls).contains(t) {
            let k = choose|k: int| 0 <= k < layouts_ids(ls).len() && layouts_ids(ls)[k] == t;
            if k < layout_ids(ls[0]).len() {
                assert(layout_ids(ls[0])[k] == t);
                assert(layout_ids(ls[0]).contains(t));
            } else {
                assert(layouts_ids(rest)[k - layout_ids(ls[0]).len()] == t);
                let j = choose|j: int| 0 <= j < rest.len() && #[trigger] layout_ids(rest[j]).contains(t);
                assert(ls[j + 1] == rest[j]);
            }
        }
        if exists|j: int| 0 <= j < ls.len() && #[trigger] layout_ids(ls[j]).contains(t) {
            let j = choose|j: int| 0 <= j < ls.len() && #[trigger] layout_ids(ls[j]).contains(t);
            let k = choose|k: int| 0 <= k < layout_ids(ls[j]).len() && layout_ids(ls[j])[k] == t;
            if j == 0 {
                assert(layouts_ids(ls)[k] == t);
            } else {
                assert(rest[j - 1] == ls[j]);
                assert(layout_ids(rest[j - 1]).contains(t));
                let m = choose|m: int| 0 <= m < layouts_ids(rest).len() && layouts_ids(rest)[m] == t;
                assert(layouts_ids(ls)[layout_ids(ls[0]).len() + m] == t);
            }
        }
    }
}

/// Splitting inside the first sibling that holds the pane, spelled out by position.
pub proof fn lemma_split_layouts_at(ls: Seq<PaneLayout>, i: int, t: u64, dir: PaneSplitDirection, new_id: u64)
    requires
        0 <= i < ls.len(),
        layout_ids(ls[i]).contains(t),
        forall|j: int| 0 <= j < i ==> !#[trigger] layout_ids(ls[j]).contains(t),
    ensures
        split_layouts(ls, t, dir, new_id) == ls.update(i, split_layout(ls[i], t, dir, new_id)),
    decreases i,
{
    let rest = ls.subrange(1, ls.len() as int);
    if i == 0 {
        assert(split_layouts(ls, t, dir, new_id) =~= ls.update(i, split_layout(ls[i], t, dir, new_id)));
    } else {
        assert(!layout_ids(ls[0]).contains(t));
        assert forall|j: int| 0 <= j < i - 1 implies !#[trigger] layout_ids(rest[j]).contains(t) by {
            assert(rest[j] == ls[j + 1]);
        }
        lemma_split_layouts_at(rest, i - 1, t, dir, new_id);
        assert(split_layouts(ls, t, dir, new_id) =~= ls.update(i, split_layout(ls[i], t, dir, new_id)));
    }
}

/// Whether `node` is `l` or a node somewhere inside it.
pub open spec fn holds_node(l: PaneLayout, node: PaneLayout) -> bool
    decreases l,
{
    l == node || match l {
        PaneLayout::Leaf(_) => false,
        PaneLayout::Split(_, children) => holds_node_in(children, node),
    }
}

/// Whether `node` is one of the layouts `ls` or a node inside one of them.
pub open spec fn holds_node_in(ls: Seq<PaneLayout>, node: PaneLayout) -> bool
    decreases ls,
{
    ls.len() > 0 && (holds_node(ls[0], node) || holds_node_in(ls.subrange(1, ls.len() as int), node))
}

/// Splitting pane `t` in direction `d` with the new pane `n` turns `t` into a
/// split in direction `d` whose children are `t` and then `n`: the layout
/// after the split holds exactly that node.
pub proof fn law_split_makes_a_node_in_the_requested_direction(l: PaneLayout, t: u64, d: PaneSplitDirection, n: u64)
    requires
        layout_ids(l).contains(t),
    ensures
        holds_node(
            split_layout(l, t, d, n),
            PaneLayout::Split(d, seq![PaneLayout::Leaf(t), PaneLayout::Leaf(n)]),
        ),
    decreases l,
{
    match l {
        PaneLayout::Leaf(id) => {
            assert(id == t);
        },
        PaneLayout::Split(dd, children) => {
            lemma_split_layouts_make_node(children, t, d, n);
        },
    }
}

proof fn lemma_split_layouts_make_node(ls: Seq<PaneLayout>, t: u64, d: PaneSplitDirection, n: u64)
    requires
        layouts_ids(ls).contains(t),
    ensures
        holds_node_in(
            split_layouts(ls, t, d, n),
            PaneLayout::Split(d, seq![PaneLayout::Leaf(t), PaneLayout::Leaf(n)]),
        ),
    decreases ls,
{
    let node = PaneLayout::Split(d, seq![PaneLayout::Leaf(t), PaneLayout::Leaf(n)]);
    let rest = ls.subrange(1, ls.len() as int);
    let out = split_layouts(ls, t, d, n);
    if layout_ids(ls[0]).contains(t) {
        law_split_makes_a_node_in_the_requested_direction(ls[0], t, d, n);
        assert(out[0] == split_layout(ls[0], t, d, n));
    } else {
        let k = choose|k: int| 0 <= k < layouts_ids(ls).len() && layouts_ids(ls)[k] == t;
        assert(layouts_ids(ls) == layout_ids(ls[0]) + layouts_ids(rest));
        if k < layout_ids(ls[0]).len() {
            assert(layout_ids(ls[0])[k] == t);
        }
        assert(layouts_ids(rest)[k - layout_ids(ls[0]).len()] == t);
        lemma_split_layouts_make_node(rest, t, d, n);
        assert(out.subrange(1, out.len() as int) =~= split_layouts(rest, t, d, n));
    }
}

/// A split tree in memory.
#[derive(Debug)]
enum PaneNode {
    Pane(Pane),
    Split { direction: PaneSplitDirection, children: Vec<PaneNode> },
}

impl PaneNode {
    closed spec fn layout(self) -> PaneLayout
        decreases self,
    {
        match self {
            PaneNode::Pane(p) => PaneLayout::Leaf(p.id.0),
            PaneNode::Split { direction, children } => PaneLayout::Split(direction, nodes_layouts(children@)),
        }
    }
}

closed spec fn nodes_layouts(nodes: Seq<PaneNode>) -> Seq<PaneLayout>
    decreases nodes,
{
    if nodes.len() == 0 {
        Seq::empty()
    } else {
        seq![nodes[0].layout()] + nodes_layouts(nodes.subrange(1, nodes.len() as int))
    }
}

proof fn lemma_nodes_layouts(nodes: Seq<PaneNode>)
    ensures
        nodes_layouts(nodes).len() == nodes.len(),
        forall|j: int| 0 <= j < nodes.len() ==> #[trigger] nodes_layouts(nodes)[j] == nodes[j].layout(),
    decreases nodes.len(),
{
    if nodes.len() > 0 {
        let rest = nodes.subrange(1, nodes.len() as int);
        lemma_nodes_layouts(rest);
        assert forall|j: int| 0 <= j < nodes.len() implies #[trigger] nodes_layouts(nodes)[j] == nodes[j].layout() by {
            if j > 0 {
                assert(rest[j - 1] == nodes[j]);
            }
        }
    }
}

proof fn lemma_nodes_layouts_ext(a: Seq<PaneNode>, b: Seq<PaneLayout>)
    requires
        a.len() == b.len(),
        forall|j: int| 0 <= j < a.len() ==> #[trigger] a[j].layout() == b[j],
    ensures
        nodes_layouts(a) == b,
{
    lemma_nodes_layouts(a);
    assert(nodes_layouts(a) =~= b);
}


impl PaneNode {
    /// Number of panes under this node.
    fn pane_count(&self) -> (count: usize)
        requires
            layout_ids(self.layout()).len() <= usize::MAX,
        ensures
            count == layout_ids(self.layout()).len(),
        decreases self,
    {
        match self {
            PaneNode::Pane(_) => 1,
            PaneNode::Split { children, .. } => {
                let ghost ls = nodes_layouts(children@);
                proof {
                    lemma_nodes_layouts(children@);
                }
                proof {
                    assert(decreases_to!(*self => children@));
                }
                let mut total: usize = 0;
                let mut i: usize = 0;
                while i < children.len()
                    invariant
                        ls == nodes_layouts(children@),
                        ls.len() == children@.len(),
                        forall|j: int| 0 <= j < children@.len() ==> #[trigger] ls[j] == children@[j].layout(),
                        layouts_ids(ls).len() <= usize::MAX,
                        0 <= i <= children.len(),
                        total == layouts_ids(ls.subrange(0, i as int)).len(),
                        decreases_to!(*self => children@),
                    decreases children.len() - i,
                {
                    proof {
                        lemma_layouts_ids_concat(ls.subrange(0, i as int), ls.subrange(i as int, ls.len() as int));
                        assert(ls.subrange(0, i as int) + ls.subrange(i as int, ls.len() as int) =~= ls);
                        assert(ls.subrange(i as int, ls.len() as int)[0] == ls[i as int]);
                        lemma_layouts_ids_concat(ls.subrange(0, i as int), seq![ls[i as int]]);
                        assert(ls.subrange(0, i as int) + seq![ls[i as int]] =~= ls.subrange(0, i + 1));
                        assert(seq![ls[i as int]].subrange(1, 1) =~= Seq::<PaneLayout>::empty());
                        assert(layouts_ids(seq![ls[i as int]]) == layout_ids(ls[i as int]) + layouts_ids(Seq::<PaneLayout>::empty()));
                        assert(layouts_ids(seq![ls[i as int]]) =~= layout_ids(ls[i as int]));
                    }
                    proof {
                        assert(decreases_to!(children@ => children@[i as int]));
                    }
                    let c = children[i].pane_count();
                    total = total + c;
                    i = i + 1;
                }
                proof {
                    assert(ls.subrange(0, i as int) =~= ls);
                }
                total
            },
        }
    }

    /// The id of the pane reached by always following the first child.
    fn first_pane_id(&self) -> (id: PaneId)
        requires
            has_leftmost_pane(self.layout()),
        ensures
            layout_ids(self.layout()).len() > 0,
            id.0 == layout_ids(self.layout())[0],
        decreases self,
    {
        match self {
            PaneNode::Pane(pane) => pane.id(),
            PaneNode::Split { children, .. } => {
                proof {
                    lemma_nodes_layouts(children@);
                }
                proof {
                    assert(decreases_to!(*self => children@[0]));
                }
                let id = children[0].first_pane_id();
                proof {
                    let ls = nodes_layouts(children@);
                    assert(layouts_ids(ls) == layout_ids(ls[0]) + layouts_ids(ls.subrange(1, ls.len() as int)));
                }
                id
            },
        }
    }

    fn split_direction(&self) -> (d: Option<PaneSplitDirection>)
        ensures
            d == layout_direction(self.layout()),
    {
        match self {
            PaneNode::Pane(_) => None,
            PaneNode::Split { direction, .. } => Some(*direction),
        }
    }

    /// Splits the first pane (left to right) whose id is `pane_id`.
    fn split_pane(&mut self, pane_id: PaneId, direction: PaneSplitDirection, new_pane_id: PaneId) -> (r:
        WorkspaceResult<()>)
        ensures
            r is Ok <==> layout_ids(old(self).layout()).contains(pane_id.0),
            r is Ok ==> final(self).layout() == split_layout(old(self).layout(), pane_id.0, direction, new_pane_id.0),
            r is Err ==> final(self).layout() == old(self).layout() && r == Err::<(), WorkspaceError>(
                WorkspaceError::PaneNotFound(pane_id),
            ),
        decreases *old(self),
    {
        let mut node = PaneNode::Split { direction, children: Vec::new() };
        std::mem::swap(self, &mut node);
        match node {
            PaneNode::Pane(pane) => {
                if pane.id.0 == pane_id.0 {
                    *self = PaneNode::Split {
                        direction,
                        children: vec![PaneNode::Pane(pane), PaneNode::Pane(Pane::new(new_pane_id))],
                    };
                    proof {
                        assert(layout_ids(old(self).layout())[0] == pane_id.0);
                        let ghost cs = seq![PaneNode::Pane(pane), PaneNode::Pane(Pane { id: new_pane_id })];
                        lemma_nodes_layouts_ext(cs, seq![PaneLayout::Leaf(pane_id.0), PaneLayout::Leaf(new_pane_id.0)]);
                    }
                    Ok(())
                } else {
                    *self = PaneNode::Pane(pane);
                    Err(WorkspaceError::PaneNotFound(pane_id))
                }
            },
            PaneNode::Split { direction: d, mut children } => {
                let ghost old_children = children@;
                let ghost old_ls = nodes_layouts(old_children);
                proof {
                    lemma_nodes_layouts(old_children);
                    assert(decreases_to!(*old(self) => old_children));
                }
                let mut i: usize = 0;
                while i < children.len()
                    invariant
                        children@.len() == old_children.len(),
                        old_ls == nodes_layouts(old_children),
                        old_ls.len() == old_children.len(),
                        forall|j: int| 0 <= j < old_children.len() ==> #[trigger] old_ls[j] == old_children[j].layout(),
                        0 <= i <= children.len(),
                        forall|j: int| 0 <= j < children@.len() ==> #[trigger] children@[j].layout() == old_ls[j],
                        forall|j: int| 0 <= j < i ==> !#[trigger] layout_ids(old_ls[j]).contains(pane_id.0),
                        forall|j: int| i <= j < children@.len() ==> #[trigger] children@[j] == old_children[j],
                        old(self).layout() == PaneLayout::Split(d, old_ls),
                        decreases_to!(*old(self) => old_children),
                    decreases children.len() - i,
                {
                    proof {
                        assert(decreases_to!(old_children => old_children[i as int]));
                    }
                    let r = children[i].split_pane(pane_id, direction, new_pane_id);
                    if r.is_ok() {
                        proof {
                            lemma_split_layouts_at(old_ls, i as int, pane_id.0, direction, new_pane_id.0);
                            lemma_nodes_layouts_ext(children@, old_ls.update(i as int, split_layout(old_ls[i as int], pane_id.0, direction, new_pane_id.0)));
                            lemma_layouts_ids_contains(old_ls, pane_id.0);
                            assert(layout_ids(old_ls[i as int]).contains(pane_id.0));
                        }
                        *self = PaneNode::Split { direction: d, children };
                        return Ok(());
                    }
                    i = i + 1;
                }
                proof {
                    lemma_nodes_layouts_ext(children@, old_ls);
                    lemma_layouts_ids_contains(old_ls, pane_id.0);
                }
                *self = PaneNode::Split { direction: d, children };
                Err(WorkspaceError::PaneNotFound(pane_id))
            },
        }
    }
}


/// The first index of `x` is a valid position holding `x`.
pub proof fn lemma_first_index(s: Seq<u64>, x: u64)
    requires
        s.contains(x),
    ensures
        0 <= first_index(s, x) < s.len(),
        s[first_index(s, x)] == x,
        forall|j: int| 0 <= j < first_index(s, x) ==> s[j] != x,
    decreases s.len(),
{
    if s[0] != x {
        let rest = s.subrange(1, s.len() as int);
        let k = choose|k: int| 0 <= k < s.len() && s[k] == x;
        assert(rest[k - 1] == x);
        lemma_first_index(rest, x);
        assert forall|j: int| 0 <= j < first_index(s, x) implies s[j] != x by {
            if j > 0 {
                assert(s[j] == rest[j - 1]);
            }
        }
    }
}

proof fn lemma_first_index_concat(a: Seq<u64>, b: Seq<u64>, x: u64)
    ensures
        a.contains(x) ==> first_index(a + b, x) == first_index(a, x),
        !a.contains(x) ==> first_index(a + b, x) == a.len() + first_index(b, x),
    decreases a.len(),
{
    if a.len() == 0 {
        assert(a + b =~= b);
    } else {
        let ra = a.subrange(1, a.len() as int);
        assert((a + b).subrange(1, (a + b).len() as int) =~= ra + b);
        lemma_first_index_concat(ra, b, x);
        if a[0] != x {
            if a.contains(x) {
                let k = choose|k: int| 0 <= k < a.len() && a[k] == x;
                assert(ra[k - 1] == x);
            } else {
                assert forall|k: int| 0 <= k < ra.len() implies ra[k] != x by {
                    assert(ra[k] == a[k + 1]);
                }
            }
        }
    }
}

/// Splitting a pane inserts the new pane id right after the split pane's id.
pub proof fn lemma_split_layout_ids(l: PaneLayout, t: u64, d: PaneSplitDirection, n: u64)
    requires
        layout_ids(l).contains(t),
    ensures
        layout_ids(split_layout(l, t, d, n)) == layout_ids(l).insert(first_index(layout_ids(l), t) + 1, n),
    decreases l,
{
    match l {
        PaneLayout::Leaf(id) => {
            assert(layout_ids(l)[0] == id);
            let cs = seq![PaneLayout::Leaf(id), PaneLayout::Leaf(n)];
            assert(cs.subrange(1, 2).subrange(1, 1) =~= Seq::<PaneLayout>::empty());
            assert(cs.subrange(1, 2) =~= seq![PaneLayout::Leaf(n)]);
            let c1 = cs.subrange(1, 2);
            assert(layouts_ids(c1.subrange(1, 1)) == Seq::<u64>::empty());
            assert(layouts_ids(c1) == layout_ids(c1[0]) + layouts_ids(c1.subrange(1, 1)));
            assert(layouts_ids(c1) =~= seq![n]);
            assert(layouts_ids(cs) == layout_ids(cs[0]) + layouts_ids(c1));
            assert(layouts_ids(cs) =~= seq![id, n]);
            assert(layout_ids(l).insert(1, n) =~= seq![id, n]);
        },
        PaneLayout::Split(_, cs) => {
            lemma_split_layouts_ids(cs, t, d, n);
        },
    }
}

/// Sibling form of `lemma_split_layout_ids`.
pub proof fn lemma_split_layouts_ids(cs: Seq<PaneLayout>, t: u64, d: PaneSplitDirection, n: u64)
    requires
        layouts_ids(cs).contains(t),
    ensures
        layouts_ids(split_layouts(cs, t, d, n)) == layouts_ids(cs).insert(first_index(layouts_ids(cs), t) + 1, n),
    decreases cs,
{
    let rest = cs.subrange(1, cs.len() as int);
    let a = layout_ids(cs[0]);
    let b = layouts_ids(rest);
    lemma_first_index_concat(a, b, t);
    let res = split_layouts(cs, t, d, n);
    if a.contains(t) {
        lemma_split_layout_ids(cs[0], t, d, n);
        lemma_first_index(a, t);
        assert(res[0] == split_layout(cs[0], t, d, n));
        assert(res.subrange(1, res.len() as int) =~= rest);
        assert(layouts_ids(res) == layout_ids(res[0]) + layouts_ids(res.subrange(1, res.len() as int)));
        assert((a + b).insert(first_index(a, t) + 1, n) =~= a.insert(first_index(a, t) + 1, n) + b);
    } else {
        assert(b.contains(t)) by {
            let k = choose|k: int| 0 <= k < (a + b).len() && (a + b)[k] == t;
            if k < a.len() {
                assert(a[k] == t);
            } else {
                assert(b[k - a.len()] == t);
            }
        }
        lemma_split_layouts_ids(rest, t, d, n);
        lemma_first_index(b, t);
        assert(res[0] == cs[0]);
        assert(res.subrange(1, res.len() as int) =~= split_layouts(rest, t, d, n));
        assert(layouts_ids(res) == layout_ids(res[0]) + layouts_ids(res.subrange(1, res.len() as int)));
        assert((a + b).insert(a.len() + first_index(b, t) + 1, n) =~= a + b.insert(first_index(b, t) + 1, n));
    }
}


/// The layouts of a sequence of trees.
pub open spec fn trees_layouts(trees: Seq<PaneTree>) -> Seq<PaneLayout> {
    Seq::new(trees.len(), |i: int| trees[i].layout())
}

/// The split tree of panes inside one tab.
#[derive(Debug)]
pub struct PaneTree {
    root: PaneNode,
}

impl PaneTree {
    /// The shape of this tree.
    pub closed spec fn layout(&self) -> PaneLayout {
        self.root.layout()
    }

    /// A tree holding the single pane 1.
    pub fn new() -> (tree: Self)
        ensures
            tree.layout() == PaneLayout::Leaf(1),
    {
        PaneTree { root: PaneNode::Pane(Pane::new(PaneId::new(1))) }
    }

    /// A horizontal split holding the given trees in order.
    pub fn horizontal(children: Vec<Self>) -> (tree: Self)
        ensures
            tree.layout() == PaneLayout::Split(PaneSplitDirection::Horizontal, trees_layouts(children@)),
    {
        Self::new_split(PaneSplitDirection::Horizontal, children)
    }

    /// A vertical split holding the given trees in order.
    pub fn vertical(children: Vec<Self>) -> (tree: Self)
        ensures
            tree.layout() == PaneLayout::Split(PaneSplitDirection::Vertical, trees_layouts(children@)),
    {
        Self::new_split(PaneSplitDirection::Vertical, children)
    }

    /// Number of panes in the tree.
    pub fn pane_count(&self) -> (count: usize)
        requires
            layout_ids(self.layout()).len() <= usize::MAX,
        ensures
            count == layout_ids(self.layout()).len(),
    {
        self.root.pane_count()
    }

    /// The id of the pane reached by always following the first child.
    pub fn first_pane_id(&self) -> (id: PaneId)
        requires
            has_leftmost_pane(self.layout()),
        ensures
            layout_ids(self.layout()).len() > 0,
            id.spec_num() == layout_ids(self.layout())[0],
    {
        self.root.first_pane_id()
    }

    /// The direction of the root split, or `None` when the root is a pane.
    pub fn split_direction(&self) -> (d: Option<PaneSplitDirection>)
        ensures
            d == layout_direction(self.layout()),
    {
        self.root.split_direction()
    }

    fn split_pane(&mut self, pane_id: PaneId, direction: PaneSplitDirection, new_pane_id: PaneId) -> (r:
        WorkspaceResult<()>)
        ensures
            r is Ok <==> layout_ids(old(self).layout()).contains(pane_id.0),
            r is Ok ==> final(self).layout() == split_layout(old(self).layout(), pane_id.0, direction, new_pane_id.0),
            r is Err ==> final(self).layout() == old(self).layout() && r == Err::<(), WorkspaceError>(
                WorkspaceError::PaneNotFound(pane_id),
            ),
    {
        self.root.split_pane(pane_id, direction, new_pane_id)
    }

    fn new_split(direction: PaneSplitDirection, children: Vec<Self>) -> (tree: Self)
        ensures
            tree.layout() == PaneLayout::Split(direction, trees_layouts(children@)),
    {
        let ghost kids = children@;
        let mut roots: Vec<PaneNode> = Vec::new();
        let mut rest = children;
        while rest.len() > 0
            invariant
                roots@.len() + rest@.len() == kids.len(),
                forall|j: int| 0 <= j < roots@.len() ==> #[trigger] roots@[j].layout() == kids[j].layout(),
                forall|j: int| 0 <= j < rest@.len() ==> #[trigger] rest@[j] == kids[roots@.len() + j],
            decreases rest.len(),
        {
            let child = rest.remove(0);
            roots.push(child.root);
        }
        proof {
            lemma_nodes_layouts_ext(roots@, trees_layouts(kids));
        }
        PaneTree { root: PaneNode::Split { direction, children: roots } }
    }
}


/// One tab: a split tree of panes, the focused pane, and the id the next pane gets.
#[derive(Debug)]
pub struct Tab {
    pane_tree: PaneTree,
    focused_pane: PaneId,
    next_pane_id: u64,
}

impl Tab {
    pub closed spec fn layout(&self) -> PaneLayout {
        self.pane_tree.layout()
    }

    pub closed spec fn spec_focused(&self) -> PaneId {
        self.focused_pane
    }

    pub closed spec fn next_id(&self) -> u64 {
        self.next_pane_id
    }

    /// The tab's invariant: its panes are numbered 1 up to the next id without
    /// gaps or repeats, and the focused pane is one of them.
    pub closed spec fn wf(&self) -> bool {
        let ids = layout_ids(self.layout());
        &&& ids.no_duplicates()
        &&& forall|k: int| 0 <= k < ids.len() ==> 1 <= #[trigger] ids[k] < self.next_pane_id
        &&& ids.len() == self.next_pane_id - 1
        &&& ids.len() <= usize::MAX
        &&& ids.contains(self.focused_pane.0)
    }

    /// A tab holding the single pane 1, which has focus.
    pub fn new() -> (tab: Self)
        ensures
            tab.wf(),
            tab.layout() == PaneLayout::Leaf(1),
            tab.spec_focused().spec_num() == 1,
            tab.next_id() == 2,
    {
        let pane_tree = PaneTree::new();
        let focused_pane = pane_tree.first_pane_id();
        let tab = Tab { pane_tree, focused_pane, next_pane_id: 2 };
        proof {
            assert(layout_ids(tab.layout()) =~= seq![1u64]);
        }
        tab
    }

    /// Number of panes in this tab.
    pub fn pane_count(&self) -> (count: usize)
        requires
            self.wf(),
        ensures
            count == layout_ids(self.layout()).len(),
    {
        self.pane_tree.pane_count()
    }

    /// The focused pane.
    pub fn focused_pane(&self) -> (id: PaneId)
        ensures
            id == self.spec_focused(),
    {
        self.focused_pane
    }

    /// Splits the focused pane; the new pane takes the next id and the focus.
    fn split_focused_pane(&mut self, direction: PaneSplitDirection) -> (r: WorkspaceResult<()>)
        requires
            old(self).wf(),
            old(self).next_id() < u64::MAX,
            old(self).next_id() <= usize::MAX,
        ensures
            r is Ok,
            final(self).wf(),
            final(self).layout() == split_layout(
                old(self).layout(),
                old(self).spec_focused().spec_num(),
                direction,
                old(self).next_id(),
            ),
            final(self).spec_focused().spec_num() == old(self).next_id(),
            final(self).next_id() == old(self).next_id() + 1,
    {
        let new_pane = PaneId::new(self.next_pane_id);
        let r = self.pane_tree.split_pane(self.focused_pane, direction, new_pane);
        match r {
            Ok(()) => {},
            Err(e) => {
                return Err(e);
            },
        }
        self.focused_pane = new_pane;
        self.next_pane_id = self.next_pane_id + 1;
        proof {
            lemma_split_keeps_pane_ids_valid(*old(self), *self, direction);
        }
        Ok(())
    }
}


/// Whether a tab is as `Tab::new` makes it: the single pane 1, focused, with 2 as the next id.
pub open spec fn is_fresh_tab(tab: Tab) -> bool {
    &&& tab.wf()
    &&& tab.layout() == PaneLayout::Leaf(1)
    &&& tab.spec_focused().spec_num() == 1
    &&& tab.next_id() == 2
}

/// Whether the focused pane of a tab can be split: the next id exists, and
/// the pane count after the split still fits in `usize`.
pub open spec fn can_split(tab: Tab) -> bool {
    tab.next_id() < u64::MAX && tab.next_id() <= usize::MAX
}

/// What splitting the focused pane of `old` in direction `d` makes of it.
pub open spec fn split_tab(old: Tab, new: Tab, d: PaneSplitDirection) -> bool {
    &&& new.wf()
    &&& new.layout() == split_layout(old.layout(), old.spec_focused().spec_num(), d, old.next_id())
    &&& new.spec_focused().spec_num() == old.next_id()
    &&& new.next_id() == old.next_id() + 1
}

/// Whether the panes of a tab are numbered 1 up to its next id without gaps
/// or repeats, and the focused pane is one of them.
pub open spec fn pane_ids_valid(tab: Tab) -> bool {
    let ids = layout_ids(tab.layout());
    &&& ids.no_duplicates()
    &&& forall|k: int| 0 <= k < ids.len() ==> 1 <= #[trigger] ids[k] < tab.next_id()
    &&& ids.len() == tab.next_id() - 1
    &&& ids.contains(tab.spec_focused().spec_num())
}

/// What splitting the focused pane of `old` in direction `d` does to its
/// panes, focus and next id.
pub open spec fn tab_split_step(old: Tab, new: Tab, d: PaneSplitDirection) -> bool {
    &&& new.layout() == split_layout(old.layout(), old.spec_focused().spec_num(), d, old.next_id())
    &&& new.spec_focused().spec_num() == old.next_id()
    &&& new.next_id() == old.next_id() + 1
}

/// A split keeps the panes of a tab validly numbered and adds one pane.
proof fn lemma_split_keeps_pane_ids_valid(old: Tab, new: Tab, d: PaneSplitDirection)
    requires
        pane_ids_valid(old),
        tab_split_step(old, new, d),
    ensures
        pane_ids_valid(new),
        layout_ids(new.layout()).len() == layout_ids(old.layout()).len() + 1,
{
    let ids = layout_ids(old.layout());
    let t = old.spec_focused().spec_num();
    let n = old.next_id();
    lemma_split_layout_ids(old.layout(), t, d, n);
    lemma_first_index(ids, t);
    let new_ids = layout_ids(new.layout());
    let k = first_index(ids, t) + 1;
    assert(new_ids == ids.insert(k, n));
    assert(new_ids[k] == n);
    assert forall|a: int, b: int| 0 <= a < new_ids.len() && 0 <= b < new_ids.len() && a != b implies new_ids[a]
        != new_ids[b] by {
        if a != k && b != k {
            let a0 = if a < k { a } else { a - 1 };
            let b0 = if b < k { b } else { b - 1 };
            assert(new_ids[a] == ids[a0]);
            assert(new_ids[b] == ids[b0]);
        } else if a == k {
            let b0 = if b < k { b } else { b - 1 };
            assert(new_ids[b] == ids[b0]);
        } else {
            let a0 = if a < k { a } else { a - 1 };
            assert(new_ids[a] == ids[a0]);
        }
    }
    assert forall|j: int| 0 <= j < new_ids.len() implies 1 <= #[trigger] new_ids[j] < new.next_id() by {
        if j < k {
            assert(new_ids[j] == ids[j]);
        } else if j > k {
            assert(new_ids[j] == ids[j - 1]);
        }
    }
}

/// A tab made by `Tab::new` and then split any number of times: after `i`
/// splits it holds `i + 1` panes with distinct ids, and its focused pane is
/// one of them, so splitting the focused pane always finds it.
pub proof fn law_tab_focus_is_one_of_its_panes(tabs: Seq<Tab>, dirs: Seq<PaneSplitDirection>)
    requires
        tabs.len() == dirs.len() + 1,
        is_fresh_tab(tabs[0]),
        forall|i: int| 0 <= i < dirs.len() ==> tab_split_step(#[trigger] tabs[i], tabs[i + 1], dirs[i]),
    ensures
        forall|i: int|
            0 <= i < tabs.len() ==> {
                let ids = layout_ids((#[trigger] tabs[i]).layout());
                &&& ids.no_duplicates()
                &&& ids.contains(tabs[i].spec_focused().spec_num())
                &&& ids.len() == i + 1
            },
{
    assert forall|i: int| 0 <= i < tabs.len() implies pane_ids_valid(#[trigger] tabs[i]) && layout_ids(
        tabs[i].layout(),
    ).len() == i + 1 by {
        lemma_tab_splits_valid(tabs, dirs, i);
    }
}

proof fn lemma_tab_splits_valid(tabs: Seq<Tab>, dirs: Seq<PaneSplitDirection>, i: int)
    requires
        tabs.len() == dirs.len() + 1,
        is_fresh_tab(tabs[0]),
        forall|i: int| 0 <= i < dirs.len() ==> tab_split_step(#[trigger] tabs[i], tabs[i + 1], dirs[i]),
        0 <= i < tabs.len(),
    ensures
        pane_ids_valid(tabs[i]),
        layout_ids(tabs[i].layout()).len() == i + 1,
    decreases i,
{
    if i == 0 {
        assert(layout_ids(tabs[0].layout()) =~= seq![1u64]);
    } else {
        lemma_tab_splits_valid(tabs, dirs, i - 1);
        assert(tab_split_step(tabs[i - 1], tabs[i], dirs[i - 1]));
        lemma_split_keeps_pane_ids_valid(tabs[i - 1], tabs[i], dirs[i - 1]);
    }
}

/// An operation on a workspace.
#[derive(Debug, Clone, Copy, PartialEq, Eq, Structural)]
pub enum WorkspaceOp {
    NewTab,
    SplitFocusedPane(PaneSplitDirection),
}

/// The number of `NewTab` operations in `ops`.
pub open spec fn new_tab_count(ops: Seq<WorkspaceOp>) -> nat
    decreases ops.len(),
{
    if ops.len() == 0 {
        0
    } else {
        new_tab_count(ops.drop_last()) + (if ops.last() is NewTab { 1nat } else { 0nat })
    }
}

/// A workspace: its tabs, one of which is active.
#[derive(Debug)]
pub struct Workspace {
    tabs: Vec<Tab>,
    active_tab_index: usize,
}

impl Workspace {
    pub closed spec fn spec_tabs(&self) -> Seq<Tab> {
        self.tabs@
    }

    pub closed spec fn spec_active_index(&self) -> int {
        self.active_tab_index as int
    }

    /// The active tab.
    pub open spec fn spec_active_tab(&self) -> Tab {
        self.spec_tabs()[self.spec_active_index()]
    }

    /// The workspace's invariant: it has a tab, the active index points at one, and every tab is well formed.
    pub closed spec fn wf(&self) -> bool {
        &&& self.tabs@.len() > 0
        &&& self.active_tab_index < self.tabs@.len()
        &&& forall|i: int| 0 <= i < self.tabs@.len() ==> #[trigger] self.tabs@[i].wf()
    }

    /// A workspace holding one fresh tab, which is active.
    pub fn new() -> (ws: Self)
        ensures
            ws.wf(),
            ws.spec_tabs().len() == 1,
            is_fresh_tab(ws.spec_tabs()[0]),
            ws.spec_active_index() == 0,
    {
        let mut tabs = Vec::new();
        tabs.push(Tab::new());
        Workspace { tabs, active_tab_index: 0 }
    }

    /// Number of tabs.
    pub fn tab_count(&self) -> (count: usize)
        ensures
            count == self.spec_tabs().len(),
    {
        self.tabs.len()
    }

    /// The active tab.
    pub fn active_tab(&self) -> (tab: &Tab)
        requires
            self.wf(),
        ensures
            *tab == self.spec_active_tab(),
            tab.wf(),
    {
        &self.tabs[self.active_tab_index]
    }

    /// Opens a fresh tab after the existing ones and makes it active.
    pub fn new_tab(&mut self)
        requires
            old(self).wf(),
        ensures
            final(self).wf(),
            final(self).spec_tabs().len() == old(self).spec_tabs().len() + 1,
            final(self).spec_tabs().subrange(0, old(self).spec_tabs().len() as int) == old(self).spec_tabs(),
            is_fresh_tab(final(self).spec_tabs().last()),
            final(self).spec_active_index() == old(self).spec_tabs().len(),
    {
        self.tabs.push(Tab::new());
        self.active_tab_index = self.tabs.len() - 1;
        proof {
            assert(self.tabs@.subrange(0, old(self).tabs@.len() as int) =~= old(self).tabs@);
        }
    }

    /// Splits the focused pane of the active tab; the other tabs do not change.
    pub fn split_focused_pane(&mut self, direction: PaneSplitDirection) -> (r: WorkspaceResult<()>)
        requires
            old(self).wf(),
            can_split(old(self).spec_active_tab()),
        ensures
            r is Ok,
            final(self).wf(),
            final(self).spec_active_index() == old(self).spec_active_index(),
            final(self).spec_tabs().len() == old(self).spec_tabs().len(),
            forall|i: int|
                0 <= i < old(self).spec_tabs().len() && i != old(self).spec_active_index()
                    ==> #[trigger] final(self).spec_tabs()[i] == old(self).spec_tabs()[i],
            split_tab(old(self).spec_active_tab(), final(self).spec_active_tab(), direction),
    {
        let i = self.active_tab_index;
        self.tabs[i].split_focused_pane(direction)
    }
}

/// The top-level window, holding one workspace.
#[derive(Debug)]
pub struct Window {
    workspace: Workspace,
}

impl Window {
    pub closed spec fn spec_workspace(&self) -> Workspace {
        self.workspace
    }

    /// The window's invariant: its workspace is well formed.
    pub open spec fn wf(&self) -> bool {
        self.spec_workspace().wf()
    }

    /// A window whose workspace holds one fresh tab.
    pub fn new() -> (w: Self)
        ensures
            w.wf(),
            w.spec_workspace().spec_tabs().len() == 1,
            is_fresh_tab(w.spec_workspace().spec_tabs()[0]),
            w.spec_workspace().spec_active_index() == 0,
    {
        Window { workspace: Workspace::new() }
    }

    pub fn workspace(&self) -> (ws: &Workspace)
        ensures
            *ws == self.spec_workspace(),
    {
        &self.workspace
    }

    /// Opens a fresh tab in the workspace and makes it active.
    pub fn new_tab(&mut self)
        requires
            old(self).wf(),
        ensures
            final(self).wf(),
            final(self).spec_workspace().spec_tabs().len() == old(self).spec_workspace().spec_tabs().len() + 1,
            final(self).spec_workspace().spec_tabs().subrange(0, old(self).spec_workspace().spec_tabs().len() as int)
                == old(self).spec_workspace().spec_tabs(),
            is_fresh_tab(final(self).spec_workspace().spec_tabs().last()),
            final(self).spec_workspace().spec_active_index() == old(self).spec_workspace().spec_tabs().len(),
    {
        self.workspace.new_tab();
    }

    /// Splits the focused pane of the active tab.
    pub fn split_focused_pane(&mut self, direction: PaneSplitDirection) -> (r: WorkspaceResult<()>)
        requires
            old(self).wf(),
            can_split(old(self).spec_workspace().spec_active_tab()),
        ensures
            r is Ok,
            final(self).wf(),
            final(self).spec_workspace().spec_active_index() == old(self).spec_workspace().spec_active_index(),
            final(self).spec_workspace().spec_tabs().len() == old(self).spec_workspace().spec_tabs().len(),
            forall|i: int|
                0 <= i < old(self).spec_workspace().spec_tabs().len() && i != old(self).spec_workspace().spec_active_index()
                    ==> #[trigger] final(self).spec_workspace().spec_tabs()[i] == old(self).spec_workspace().spec_tabs()[i],
            split_tab(
                old(self).spec_workspace().spec_active_tab(),
                final(self).spec_workspace().spec_active_tab(),
                direction,
            ),
    {
        self.workspace.split_focused_pane(direction)
    }
}


/// What operation `op` does to a workspace, as `Workspace::new_tab` and
/// `Workspace::split_focused_pane` state it.
pub open spec fn workspace_step(old: Workspace, new: Workspace, op: WorkspaceOp) -> bool {
    match op {
        WorkspaceOp::NewTab => {
            &&& new.spec_tabs().len() == old.spec_tabs().len() + 1
            &&& new.spec_tabs().subrange(0, old.spec_tabs().len() as int) == old.spec_tabs()
            &&& is_fresh_tab(new.spec_tabs().last())
            &&& new.spec_active_index() == old.spec_tabs().len()
        },
        WorkspaceOp::SplitFocusedPane(d) => {
            &&& new.spec_active_index() == old.spec_active_index()
            &&& new.spec_tabs().len() == old.spec_tabs().len()
            &&& forall|i: int|
                0 <= i < old.spec_tabs().len() && i != old.spec_active_index() ==> #[trigger] new.spec_tabs()[i]
                    == old.spec_tabs()[i]
            &&& tab_split_step(old.spec_active_tab(), new.spec_active_tab(), d)
        },
    }
}

/// A workspace made by `Workspace::new` and then changed by any sequence of
/// `new_tab` and `split_focused_pane` always has an active tab: it holds one
/// tab more than there were `new_tab` calls, its active index points at one
/// of them, and in every tab the focused pane is one of its distinctly
/// numbered panes.
pub proof fn law_workspace_always_has_active_tab(ws: Seq<Workspace>, ops: Seq<WorkspaceOp>)
    requires
        ws.len() == ops.len() + 1,
        ws[0].spec_tabs().len() == 1,
        is_fresh_tab(ws[0].spec_tabs()[0]),
        ws[0].spec_active_index() == 0,
        forall|i: int| 0 <= i < ops.len() ==> workspace_step(#[trigger] ws[i], ws[i + 1], ops[i]),
    ensures
        forall|i: int|
            0 <= i < ws.len() ==> {
                &&& (#[trigger] ws[i]).spec_tabs().len() == 1 + new_tab_count(ops.take(i))
                &&& 0 <= ws[i].spec_active_index() < ws[i].spec_tabs().len()
                &&& forall|j: int|
                    0 <= j < ws[i].spec_tabs().len() ==> {
                        let ids = layout_ids((#[trigger] ws[i].spec_tabs()[j]).layout());
                        &&& ids.no_duplicates()
                        &&& ids.contains(ws[i].spec_tabs()[j].spec_focused().spec_num())
                    }
            },
{
    assert forall|i: int| 0 <= i < ws.len() implies {
        &&& (#[trigger] ws[i]).spec_tabs().len() == 1 + new_tab_count(ops.take(i))
        &&& 0 <= ws[i].spec_active_index() < ws[i].spec_tabs().len()
        &&& forall|j: int| 0 <= j < ws[i].spec_tabs().len() ==> pane_ids_valid(#[trigger] ws[i].spec_tabs()[j])
    } by {
        lemma_workspace_steps_valid(ws, ops, i);
    }
}

proof fn lemma_workspace_steps_valid(ws: Seq<Workspace>, ops: Seq<WorkspaceOp>, i: int)
    requires
        ws.len() == ops.len() + 1,
        ws[0].spec_tabs().len() == 1,
        is_fresh_tab(ws[0].spec_tabs()[0]),
        ws[0].spec_active_index() == 0,
        forall|i: int| 0 <= i < ops.len() ==> workspace_step(#[trigger] ws[i], ws[i + 1], ops[i]),
        0 <= i < ws.len(),
    ensures
        ws[i].spec_tabs().len() == 1 + new_tab_count(ops.take(i)),
        0 <= ws[i].spec_active_index() < ws[i].spec_tabs().len(),
        forall|j: int| 0 <= j < ws[i].spec_tabs().len() ==> pane_ids_valid(#[trigger] ws[i].spec_tabs()[j]),
    decreases i,
{
    if i == 0 {
        assert(ops.take(0) =~= Seq::<WorkspaceOp>::empty());
        assert(layout_ids(ws[0].spec_tabs()[0].layout()) =~= seq![1u64]);
    } else {
        lemma_workspace_steps_valid(ws, ops, i - 1);
        let old = ws[i - 1];
        let new = ws[i];
        assert(workspace_step(old, new, ops[i - 1]));
        assert(ops.take(i).drop_last() =~= ops.take(i - 1));
        assert(ops.take(i).last() == ops[i - 1]);
        match ops[i - 1] {
            WorkspaceOp::NewTab => {
                let n = old.spec_tabs().len() as int;
                assert(layout_ids(new.spec_tabs()[n].layout()) =~= seq![1u64]) by {
                    assert(new.spec_tabs().last() == new.spec_tabs()[n]);
                }
                assert forall|j: int| 0 <= j < new.spec_tabs().len() implies pane_ids_valid(
                    #[trigger] new.spec_tabs()[j],
                ) by {
                    if j < n {
                        assert(new.spec_tabs()[j] == new.spec_tabs().subrange(0, n)[j]);
                        assert(old.spec_tabs()[j] == new.spec_tabs()[j]);
                    }
                }
            },
            WorkspaceOp::SplitFocusedPane(d) => {
                let a = old.spec_active_index();
                lemma_split_keeps_pane_ids_valid(old.spec_tabs()[a], new.spec_tabs()[a], d);
                assert forall|j: int| 0 <= j < new.spec_tabs().len() implies pane_ids_valid(
                    #[trigger] new.spec_tabs()[j],
                ) by {
                    if j != a {
                        assert(old.spec_tabs()[j] == new.spec_tabs()[j]);
                    }
                }
            },
        }
    }
}

/// In a well-formed tab every pane id occurs once, and the focused pane is one of the panes.
pub proof fn law_tab_pane_ids_unique(tab: Tab)
    requires
        tab.wf(),
    ensures
        layout_ids(tab.layout()).no_duplicates(),
        layout_ids(tab.layout()).contains(tab.spec_focused().spec_num()),
        layout_ids(tab.layout()).len() == tab.next_id() - 1,
{
}

/// Splitting the focused pane adds exactly one pane, with a new id, and keeps every other pane.
pub proof fn law_split_adds_one_pane(old: Tab, new: Tab, d: PaneSplitDirection)
    requires
        old.wf(),
        split_tab(old, new, d),
    ensures
        layout_ids(new.layout()).len() == layout_ids(old.layout()).len() + 1,
        !layout_ids(old.layout()).contains(new.spec_focused().spec_num()),
        layout_ids(new.layout()).contains(new.spec_focused().spec_num()),
        forall|id: u64| layout_ids(old.layout()).contains(id) ==> #[trigger] layout_ids(new.layout()).contains(id),
{
    let ids = layout_ids(old.layout());
    let t = old.spec_focused().spec_num();
    let n = old.next_id();
    lemma_split_layout_ids(old.layout(), t, d, n);
    lemma_first_index(ids, t);
    let k = first_index(ids, t) + 1;
    let new_ids = layout_ids(new.layout());
    assert(new_ids == ids.insert(k, n));
    if ids.contains(n) {
        let j = choose|j: int| 0 <= j < ids.len() && ids[j] == n;
        assert(ids[j] < n);
    }
    assert(new_ids[k] == n);
    assert forall|id: u64| ids.contains(id) implies #[trigger] new_ids.contains(id) by {
        let j = choose|j: int| 0 <= j < ids.len() && ids[j] == id;
        if j < k {
            assert(new_ids[j] == id);
        } else {
            assert(new_ids[j + 1] == id);
        }
    }
}

impl Default for PaneTree {
    fn default() -> (tree: Self)
        ensures
            tree.layout() == PaneLayout::Leaf(1),
    {
        PaneTree::new()
    }
}

impl Default for Tab {
    fn default() -> (tab: Self)
        ensures
            is_fresh_tab(tab),
    {
        Tab::new()
    }
}

impl Default for Workspace {
    fn default() -> (ws: Self)
        ensures
            ws.wf(),
            ws.spec_tabs().len() == 1,
            is_fresh_tab(ws.spec_tabs()[0]),
            ws.spec_active_index() == 0,
    {
        Workspace::new()
    }
}

impl Default for Window {
    fn default() -> (w: Self)
        ensures
            w.wf(),
            w.spec_workspace().spec_tabs().len() == 1,
            is_fresh_tab(w.spec_workspace().spec_tabs()[0]),
            w.spec_workspace().spec_active_index() == 0,
    {
        Window::new()
    }
}

} // verus!
