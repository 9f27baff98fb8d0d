//! The window-tree snapshot model and the focus-path descent that resolves
//! the focused node and its structural parent.

use vstd::prelude::*;

verus! {

/// Kind of a node in the compositor's window tree.
#[derive(Clone, Copy, PartialEq, Eq, Structural, Debug)]
pub enum NodeType {
    Root,
    Output,
    Workspace,
    Container,
    Window,
    FloatingWindow,
}

/// Arrangement mode of a container's children. `NoLayout` stands for the
/// compositor's "none" arrangement (leaf windows and non-split containers).
#[derive(Clone, Copy, PartialEq, Eq, Structural, Debug)]
pub enum Layout {
    SplitHorizontal,
    SplitVertical,
    Stacked,
    Tabbed,
    NoLayout,
}

/// Screen region of a node, in pixels.
#[derive(Clone, Copy, PartialEq, Eq, Structural, Debug)]
pub struct Rect {
    pub width: u32,
    pub height: u32,
}

/// One node of a window-tree snapshot: a point-in-time, immutable copy of the
/// compositor's window hierarchy.
#[derive(Debug)]
pub struct Node {
    /// Stable identity within one snapshot.
    pub id: i64,
    pub node_type: NodeType,
    pub layout: Layout,
    pub rect: Rect,
    /// Whether the fraction of its parent that the node reports occupying
    /// exceeds the whole — the compositor's full-screen convention.
    /// `None` when the compositor reports no fraction at all.
    pub percent_above_one: Option<bool>,
    /// True for at most one node in a snapshot: the focused leaf.
    pub focused: bool,
    /// Child ids ordered toward the focused descendant, most recently
    /// focused first.
    pub focus: Vec<i64>,
    /// Tiling children, in layout order.
    pub nodes: Vec<Node>,
    /// Floating children; not part of the tiling order.
    pub floating_nodes: Vec<Node>,
}

/// What one focus-path descent is looking for.
#[derive(Clone, Copy, PartialEq, Eq, Structural, Debug)]
pub enum Query {
    /// The node marked focused.
    Focused,
    /// The node that directly contains, as a tiling child, the node with the
    /// given id — that node's structural parent.
    TilingParentOf(i64),
}

/// Whether `n` has a tiling child whose id is `id`.
pub open spec fn has_tiling_child(n: Node, id: i64) -> bool {
    exists|i: int| 0 <= i < n.nodes@.len() && n.nodes@[i].id == id
}

/// What it means for a node to satisfy a query.
pub open spec fn query_matches(q: Query, n: Node) -> bool {
    match q {
        Query::Focused => n.focused,
        Query::TilingParentOf(id) => has_tiling_child(n, id),
    }
}

/// The first node of `s`, in order, whose id is `id`.
pub open spec fn first_with_id(s: Seq<Node>, id: i64) -> Option<Node>
    decreases s.len(),
{
    if s.len() == 0 {
        None
    } else if s[0].id == id {
        Some(s[0])
    } else {
        first_with_id(s.drop_first(), id)
    }
}

pub proof fn lemma_first_with_id_in_seq(s: Seq<Node>, id: i64)
    ensures
        first_with_id(s, id) matches Some(c) ==> exists|i: int|
            0 <= i < s.len() && s[i] == c && s[i].id == id,
    decreases s.len(),
{
    if s.len() > 0 && s[0].id != id {
        lemma_first_with_id_in_seq(s.drop_first(), id);
        if first_with_id(s, id) is Some {
            let c = first_with_id(s, id)->Some_0;
            let i = choose|i: int|
                0 <= i < s.drop_first().len() && s.drop_first()[i] == c && s.drop_first()[i].id
                    == id;
            assert(s[i + 1] == c);
        }
    }
}

pub proof fn lemma_first_with_id_found(s: Seq<Node>, id: i64, i: int)
    requires
        0 <= i < s.len(),
        s[i].id == id,
        forall|j: int| 0 <= j < i ==> s[j].id != id,
    ensures
        first_with_id(s, id) == Some(s[i]),
    decreases i,
{
    if i > 0 {
        assert forall|j: int| 0 <= j < i - 1 implies s.drop_first()[j].id != id by {
            assert(s.drop_first()[j] == s[j + 1]);
        }
        assert(s.drop_first()[i - 1] == s[i]);
        lemma_first_with_id_found(s.drop_first(), id, i - 1);
    }
}

pub proof fn lemma_first_with_id_absent(s: Seq<Node>, id: i64)
    requires
        forall|j: int| 0 <= j < s.len() ==> s[j].id != id,
    ensures
        first_with_id(s, id) is None,
    decreases s.len(),
{
    if s.len() > 0 {
        assert forall|j: int| 0 <= j < s.drop_first().len() implies s.drop_first()[j].id != id by {
            assert(s.drop_first()[j] == s[j + 1]);
        }
        lemma_first_with_id_absent(s.drop_first(), id);
    }
}

/// The focus-path descent: starting at `n`, return the first node satisfying
/// `q` along the chain of children named by each node's `focus` list
/// (tiling children searched before floating ones).
pub open spec fn find_on_focus_path(n: Node, q: Query) -> Option<Node>
    decreases n,
    via find_on_focus_path_decreases
{
    if query_matches(q, n) {
        Some(n)
    } else if n.focus@.len() == 0 {
        None
    } else {
        match first_with_id(n.nodes@, n.focus@[0]) {
            Some(c) => find_on_focus_path(c, q),
            None => match first_with_id(n.floating_nodes@, n.focus@[0]) {
                Some(c) => find_on_focus_path(c, q),
                None => None,
            },
        }
    }
}

/// A child that the focus path steps into sits below its parent in the
/// well-founded order that recursion over a snapshot descends along.
pub proof fn lemma_focus_child_smaller(n: Node, id: i64)
    ensures
        first_with_id(n.nodes@, id) is Some ==> (decreases_to!(
            n => first_with_id(n.nodes@, id)->Some_0)),
        first_with_id(n.floating_nodes@, id) is Some ==> (decreases_to!(
            n => first_with_id(n.floating_nodes@, id)->Some_0)),
{
    lemma_first_with_id_in_seq(n.nodes@, id);
    lemma_first_with_id_in_seq(n.floating_nodes@, id);
    if first_with_id(n.nodes@, id) is Some {
        let c = first_with_id(n.nodes@, id)->Some_0;
        let i = choose|i: int| 0 <= i < n.nodes@.len() && n.nodes@[i] == c;
        assert(decreases_to!(n => n.nodes));
        assert(decreases_to!(n.nodes => n.nodes@[i]));
        assert(decreases_to!(n => c));
    }
    if first_with_id(n.floating_nodes@, id) is Some {
        let c = first_with_id(n.floating_nodes@, id)->Some_0;
        let i = choose|i: int| 0 <= i < n.floating_nodes@.len() && n.floating_nodes@[i] == c;
        assert(decreases_to!(n => n.floating_nodes));
        assert(decreases_to!(n.floating_nodes => n.floating_nodes@[i]));
        assert(decreases_to!(n => c));
    }
}

#[via_fn]
proof fn find_on_focus_path_decreases(n: Node, q: Query) {
    if !query_matches(q, n) && n.focus@.len() > 0 {
        lemma_focus_child_smaller(n, n.focus@[0]);
    }
}

/// Whether `n` satisfies `q`; the executable form of `query_matches`.
pub fn node_matches(n: &Node, q: Query) -> (r: bool)
    ensures
        r == query_matches(q, *n),
{
    match q {
        Query::Focused => n.focused,
        Query::TilingParentOf(id) => {
            let mut i: usize = 0;
            while i < n.nodes.len()
                invariant
                    q == Query::TilingParentOf(id),
                    0 <= i <= n.nodes@.len(),
                    forall|j: int| 0 <= j < i ==> n.nodes@[j].id != id,
                decreases n.nodes@.len() - i,
            {
                if n.nodes[i].id == id {
                    assert(has_tiling_child(*n, id)) by {
                        assert(n.nodes@[i as int].id == id);
                    }
                    return true;
                }
                i = i + 1;
            }
            false
        },
    }
}

/// The focus-path descent over a snapshot: a single reusable recursive
/// routine, instantiated with `Query::Focused` to resolve the focused node
/// and with `Query::TilingParentOf` to resolve its structural parent.
/// Returns a reference into the snapshot; no copy is made.
pub fn node_find_focused_as_ref<'a>(n: &'a Node, q: Query) -> (r: Option<&'a Node>)
    ensures
        match r {
            Some(m) => find_on_focus_path(*n, q) == Some(*m),
            None => find_on_focus_path(*n, q) is None,
        },
    decreases *n,
{
    if node_matches(n, q) {
        return Some(n);
    }
    if n.focus.len() == 0 {
        return None;
    }
    let first = n.focus[0];
    let mut i: usize = 0;
    while i < n.nodes.len()
        invariant
            0 <= i <= n.nodes@.len(),
            forall|j: int| 0 <= j < i ==> n.nodes@[j].id != first,
            !query_matches(q, *n),
            n.focus@.len() > 0,
            n.focus@[0] == first,
        decreases n.nodes@.len() - i,
    {
        if n.nodes[i].id == first {
            proof {
                lemma_first_with_id_found(n.nodes@, first, i as int);
            }
            return node_find_focused_as_ref(&n.nodes[i], q);
        }
        i = i + 1;
    }
    proof {
        lemma_first_with_id_absent(n.nodes@, first);
    }
    let mut k: usize = 0;
    while k < n.floating_nodes.len()
        invariant
            0 <= k <= n.floating_nodes@.len(),
            forall|j: int| 0 <= j < k ==> n.floating_nodes@[j].id != first,
            !query_matches(q, *n),
            n.focus@.len() > 0,
            n.focus@[0] == first,
            first_with_id(n.nodes@, first) is None,
        decreases n.floating_nodes@.len() - k,
    {
        if n.floating_nodes[k].id == first {
            proof {
                lemma_first_with_id_found(n.floating_nodes@, first, k as int);
            }
            return node_find_focused_as_ref(&n.floating_nodes[k], q);
        }
        k = k + 1;
    }
    proof {
        lemma_first_with_id_absent(n.floating_nodes@, first);
    }
    None
}

/// The structural parent of `current` within the snapshot `tree`: the node
/// on the focus path that directly holds a tiling child with `current`'s id.
pub fn get_parent<'a>(tree: &'a Node, current: &Node) -> (r: Option<&'a Node>)
    ensures
        match r {
            Some(p) => find_on_focus_path(*tree, Query::TilingParentOf(current.id)) == Some(*p),
            None => find_on_focus_path(*tree, Query::TilingParentOf(current.id)) is None,
        },
{
    node_find_focused_as_ref(tree, Query::TilingParentOf(current.id))
}

/// Whether `x` is a node of the subtree rooted at `n` (including `n` itself).
pub open spec fn in_tree(n: Node, x: Node) -> bool
    decreases n, 0int,
    via in_tree_decreases
{
    x == n || in_tree_among(n.nodes@, 0, x) || in_tree_among(n.floating_nodes@, 0, x)
}

/// Whether `x` lies in one of the subtrees rooted at `s[i..]`.
pub open spec fn in_tree_among(s: Seq<Node>, i: int, x: Node) -> bool
    decreases s, s.len() - i,
    via in_tree_among_decreases
{
    if i < 0 || i >= s.len() {
        false
    } else {
        in_tree(s[i], x) || in_tree_among(s, i + 1, x)
    }
}

#[via_fn]
proof fn in_tree_decreases(n: Node, x: Node) {
    assert(decreases_to!(n => n.nodes));
    assert(decreases_to!(n => n.floating_nodes));
}

#[via_fn]
proof fn in_tree_among_decreases(s: Seq<Node>, i: int, x: Node) {
    if 0 <= i < s.len() {
        assert(decreases_to!(s => s[i]));
    }
}

/// How many nodes of the subtree rooted at `n` satisfy `p`.
pub open spec fn count_matching(n: Node, p: spec_fn(Node) -> bool) -> nat
    decreases n, 0int,
    via count_matching_decreases
{
    (if p(n) {
        1nat
    } else {
        0nat
    }) + count_matching_among(n.nodes@, 0, p) + count_matching_among(n.floating_nodes@, 0, p)
}

/// How many nodes of the subtrees rooted at `s[i..]` satisfy `p`.
pub open spec fn count_matching_among(s: Seq<Node>, i: int, p: spec_fn(Node) -> bool) -> nat
    decreases s, s.len() - i,
    via count_matching_among_decreases
{
    if i < 0 || i >= s.len() {
        0nat
    } else {
        count_matching(s[i], p) + count_matching_among(s, i + 1, p)
    }
}

#[via_fn]
proof fn count_matching_decreases(n: Node, p: spec_fn(Node) -> bool) {
    assert(decreases_to!(n => n.nodes));
    assert(decreases_to!(n => n.floating_nodes));
}

#[via_fn]
proof fn count_matching_among_decreases(s: Seq<Node>, i: int, p: spec_fn(Node) -> bool) {
    if 0 <= i < s.len() {
        assert(decreases_to!(s => s[i]));
    }
}

/// How many nodes of the snapshot are marked focused.
pub open spec fn focused_count(n: Node) -> nat {
    count_matching(n, |m: Node| m.focused)
}

proof fn lemma_in_tree_among_from_index(s: Seq<Node>, j: int, i: int, x: Node)
    requires
        0 <= j <= i < s.len(),
        in_tree(s[i], x),
    ensures
        in_tree_among(s, j, x),
    decreases i - j,
{
    if j < i {
        lemma_in_tree_among_from_index(s, j + 1, i, x);
    }
}

proof fn lemma_in_tree_among_witness(s: Seq<Node>, j: int, x: Node) -> (i: int)
    requires
        in_tree_among(s, j, x),
    ensures
        j <= i < s.len(),
        in_tree(s[i], x),
    decreases s.len() - j,
{
    if in_tree(s[j], x) {
        j
    } else {
        lemma_in_tree_among_witness(s, j + 1, x)
    }
}

proof fn lemma_count_among_ge_element(s: Seq<Node>, j: int, i: int, p: spec_fn(Node) -> bool)
    requires
        0 <= j <= i < s.len(),
    ensures
        count_matching_among(s, j, p) >= count_matching(s[i], p),
    decreases i - j,
{
    if j < i {
        lemma_count_among_ge_element(s, j + 1, i, p);
    }
}

proof fn lemma_count_among_ge_pair(s: Seq<Node>, j: int, i1: int, i2: int, p: spec_fn(Node) -> bool)
    requires
        0 <= j <= i1 < i2 < s.len(),
    ensures
        count_matching_among(s, j, p) >= count_matching(s[i1], p) + count_matching(s[i2], p),
    decreases i1 - j,
{
    if j < i1 {
        lemma_count_among_ge_pair(s, j + 1, i1, i2, p);
    } else {
        lemma_count_among_ge_element(s, j + 1, i2, p);
    }
}

/// A node of the snapshot that satisfies `p` makes the count of `p` positive.
pub proof fn lemma_member_counts(n: Node, x: Node, p: spec_fn(Node) -> bool)
    requires
        in_tree(n, x),
        p(x),
    ensures
        count_matching(n, p) >= 1,
    decreases n,
{
    if x != n {
        if in_tree_among(n.nodes@, 0, x) {
            let i = lemma_in_tree_among_witness(n.nodes@, 0, x);
            assert(decreases_to!(n => n.nodes));
            assert(decreases_to!(n.nodes => n.nodes@[i]));
            lemma_member_counts(n.nodes@[i], x, p);
            lemma_count_among_ge_element(n.nodes@, 0, i, p);
        } else {
            let i = lemma_in_tree_among_witness(n.floating_nodes@, 0, x);
            assert(decreases_to!(n => n.floating_nodes));
            assert(decreases_to!(n.floating_nodes => n.floating_nodes@[i]));
            lemma_member_counts(n.floating_nodes@[i], x, p);
            lemma_count_among_ge_element(n.floating_nodes@, 0, i, p);
        }
    }
}

/// In a snapshot that holds at most one node satisfying `p`, two members
/// satisfying `p` are the same node.
pub proof fn lemma_matching_unique(n: Node, p: spec_fn(Node) -> bool, x: Node, y: Node)
    requires
        count_matching(n, p) <= 1,
        in_tree(n, x),
        p(x),
        in_tree(n, y),
        p(y),
    ensures
        x == y,
    decreases n,
{
    if x == n && y == n {
    } else if x == n || y == n {
        let other = if x == n {
            y
        } else {
            x
        };
        assert(p(n));
        if in_tree_among(n.nodes@, 0, other) {
            let i = lemma_in_tree_among_witness(n.nodes@, 0, other);
            assert(decreases_to!(n => n.nodes));
            assert(decreases_to!(n.nodes => n.nodes@[i]));
            lemma_member_counts(n.nodes@[i], other, p);
            lemma_count_among_ge_element(n.nodes@, 0, i, p);
        } else {
            let i = lemma_in_tree_among_witness(n.floating_nodes@, 0, other);
            assert(decreases_to!(n => n.floating_nodes));
            assert(decreases_to!(n.floating_nodes => n.floating_nodes@[i]));
            lemma_member_counts(n.floating_nodes@[i], other, p);
            lemma_count_among_ge_element(n.floating_nodes@, 0, i, p);
        }
    } else {
        let x_tiling = in_tree_among(n.nodes@, 0, x);
        let y_tiling = in_tree_among(n.nodes@, 0, y);
        let ix = if x_tiling {
            lemma_in_tree_among_witness(n.nodes@, 0, x)
        } else {
            lemma_in_tree_among_witness(n.floating_nodes@, 0, x)
        };
        let iy = if y_tiling {
            lemma_in_tree_among_witness(n.nodes@, 0, y)
        } else {
            lemma_in_tree_among_witness(n.floating_nodes@, 0, y)
        };
        if x_tiling != y_tiling {
            let sx = if x_tiling {
                n.nodes@
            } else {
                n.floating_nodes@
            };
            let sy = if y_tiling {
                n.nodes@
            } else {
                n.floating_nodes@
            };
            lemma_member_counts(sx[ix], x, p);
            lemma_member_counts(sy[iy], y, p);
            lemma_count_among_ge_element(n.nodes@, 0, if x_tiling {
                ix
            } else {
                iy
            }, p);
            lemma_count_among_ge_element(n.floating_nodes@, 0, if x_tiling {
                iy
            } else {
                ix
            }, p);
        } else {
            let s = if x_tiling {
                n.nodes@
            } else {
                n.floating_nodes@
            };
            if ix == iy {
                assert(decreases_to!(s => s[ix]));
                if x_tiling {
                    assert(decreases_to!(n => n.nodes));
                    assert(decreases_to!(n.nodes => n.nodes@[ix]));
                } else {
                    assert(decreases_to!(n => n.floating_nodes));
                    assert(decreases_to!(n.floating_nodes => n.floating_nodes@[ix]));
                }
                lemma_count_among_ge_element(s, 0, ix, p);
                lemma_matching_unique(s[ix], p, x, y);
            } else {
                let i1 = if ix < iy {
                    ix
                } else {
                    iy
                };
                let i2 = if ix < iy {
                    iy
                } else {
                    ix
                };
                lemma_member_counts(s[ix], x, p);
                lemma_member_counts(s[iy], y, p);
                lemma_count_among_ge_pair(s, 0, i1, i2, p);
            }
        }
    }
}

/// What the focus-path descent returns is sound: a node of the snapshot that
/// satisfies the query.
pub proof fn lemma_find_result_in_tree(n: Node, q: Query)
    ensures
        find_on_focus_path(n, q) matches Some(x) ==> query_matches(q, x) && in_tree(n, x),
    decreases n,
{
    if !query_matches(q, n) && n.focus@.len() > 0 {
        let id = n.focus@[0];
        lemma_focus_child_smaller(n, id);
        lemma_first_with_id_in_seq(n.nodes@, id);
        lemma_first_with_id_in_seq(n.floating_nodes@, id);
        if first_with_id(n.nodes@, id) is Some {
            let c = first_with_id(n.nodes@, id)->Some_0;
            let i = choose|i: int| 0 <= i < n.nodes@.len() && n.nodes@[i] == c;
            lemma_find_result_in_tree(c, q);
            if find_on_focus_path(n, q) is Some {
                let x = find_on_focus_path(n, q)->Some_0;
                lemma_in_tree_among_from_index(n.nodes@, 0, i, x);
            }
        } else if first_with_id(n.floating_nodes@, id) is Some {
            let c = first_with_id(n.floating_nodes@, id)->Some_0;
            let i = choose|i: int| 0 <= i < n.floating_nodes@.len() && n.floating_nodes@[i] == c;
            lemma_find_result_in_tree(c, q);
            if find_on_focus_path(n, q) is Some {
                let x = find_on_focus_path(n, q)->Some_0;
                lemma_in_tree_among_from_index(n.floating_nodes@, 0, i, x);
            }
        }
    }
}

/// Whether the focus path starting at `n` reaches a focused node: `n` itself
/// is focused, or its focus list names a child (a tiling one first, else a
/// floating one) whose own focus path reaches one.
pub open spec fn focus_path_reaches_focused(n: Node) -> bool
    decreases n,
    via focus_path_reaches_focused_decreases
{
    n.focused || (n.focus@.len() > 0 && (match first_with_id(n.nodes@, n.focus@[0]) {
        Some(c) => focus_path_reaches_focused(c),
        None => match first_with_id(n.floating_nodes@, n.focus@[0]) {
            Some(c) => focus_path_reaches_focused(c),
            None => false,
        },
    }))
}

#[via_fn]
proof fn focus_path_reaches_focused_decreases(n: Node) {
    if !n.focused && n.focus@.len() > 0 {
        lemma_focus_child_smaller(n, n.focus@[0]);
    }
}

/// On a snapshot with no focused node, the resolver fails: the focused-node
/// query returns nothing.
pub proof fn lemma_no_focused_node_fails(t: Node)
    requires
        focused_count(t) == 0,
    ensures
        find_on_focus_path(t, Query::Focused) is None,
{
    lemma_find_result_in_tree(t, Query::Focused);
    if find_on_focus_path(t, Query::Focused) is Some {
        let f = find_on_focus_path(t, Query::Focused)->Some_0;
        lemma_member_counts(t, f, |m: Node| m.focused);
    }
}

/// The Tree Resolver on a well-formed snapshot: when exactly one node is
/// focused and the focus path reaches a focused node, the resolver returns
/// precisely that one focused node.
pub proof fn lemma_one_focused_node_resolved(t: Node)
    requires
        focused_count(t) == 1,
        focus_path_reaches_focused(t),
    ensures
        find_on_focus_path(t, Query::Focused) matches Some(f) && f.focused && in_tree(t, f),
        forall|x: Node|
            in_tree(t, x) && x.focused ==> find_on_focus_path(t, Query::Focused) == Some(x),
{
    lemma_focus_path_finds(t);
    lemma_find_result_in_tree(t, Query::Focused);
    let f = find_on_focus_path(t, Query::Focused)->Some_0;
    assert forall|x: Node| in_tree(t, x) && x.focused implies find_on_focus_path(
        t,
        Query::Focused,
    ) == Some(x) by {
        lemma_matching_unique(t, |m: Node| m.focused, f, x);
    }
}

/// A focus path that reaches a focused node makes the focused-node query
/// succeed.
proof fn lemma_focus_path_finds(t: Node)
    requires
        focus_path_reaches_focused(t),
    ensures
        find_on_focus_path(t, Query::Focused) is Some,
    decreases t,
{
    if !t.focused {
        lemma_focus_child_smaller(t, t.focus@[0]);
        match first_with_id(t.nodes@, t.focus@[0]) {
            Some(c) => lemma_focus_path_finds(c),
            None => {
                let c = first_with_id(t.floating_nodes@, t.focus@[0])->Some_0;
                lemma_focus_path_finds(c);
            },
        }
    }
}

/// Whether the focus path from `n` reaches a focused node strictly below `n`
/// and steps into a tiling child last — so that a structural parent stands on
/// the path. A node that is itself focused ends the path with no step left,
/// and a final step into a floating child has no structural parent either.
pub open spec fn focused_via_tiling_child(n: Node) -> bool
    decreases n,
    via focused_via_tiling_child_decreases
{
    !n.focused && n.focus@.len() > 0 && (match first_with_id(n.nodes@, n.focus@[0]) {
        Some(c) => c.focused || focused_via_tiling_child(c),
        None => match first_with_id(n.floating_nodes@, n.focus@[0]) {
            Some(c) => focused_via_tiling_child(c),
            None => false,
        },
    })
}

#[via_fn]
proof fn focused_via_tiling_child_decreases(n: Node) {
    if !n.focused && n.focus@.len() > 0 {
        lemma_focus_child_smaller(n, n.focus@[0]);
    }
}

/// When the focus path reaches the focused node through a final step into a
/// tiling child, resolving the focused node's structural parent succeeds.
pub proof fn lemma_parent_resolution_succeeds(t: Node)
    requires
        focused_via_tiling_child(t),
    ensures
        find_on_focus_path(t, Query::Focused) is Some,
        find_on_focus_path(
            t,
            Query::TilingParentOf(find_on_focus_path(t, Query::Focused)->Some_0.id),
        ) is Some,
    decreases t,
{
    let id0 = t.focus@[0];
    lemma_focus_child_smaller(t, id0);
    match first_with_id(t.nodes@, id0) {
        Some(c) => {
            if c.focused {
                lemma_first_with_id_in_seq(t.nodes@, id0);
                let i = choose|i: int| 0 <= i < t.nodes@.len() && t.nodes@[i] == c;
                assert(has_tiling_child(t, c.id)) by {
                    assert(t.nodes@[i].id == c.id);
                }
            } else {
                lemma_parent_resolution_succeeds(c);
            }
        },
        None => {
            let c = first_with_id(t.floating_nodes@, id0)->Some_0;
            lemma_parent_resolution_succeeds(c);
        },
    }
}

/// A resolved structural parent really is one: it lies in the snapshot and
/// directly contains a tiling child carrying the queried id.
pub proof fn lemma_resolver_parent_is_structural(t: Node, id: i64)
    ensures
        find_on_focus_path(t, Query::TilingParentOf(id)) matches Some(p) ==> has_tiling_child(
            p,
            id,
        ) && in_tree(t, p),
{
    lemma_find_result_in_tree(t, Query::TilingParentOf(id));
}

/// When at most one node of the snapshot directly contains a tiling child
/// with the queried id — as a snapshot with unique ids guarantees — a
/// resolved parent is that very node: the true structural parent.
pub proof fn lemma_resolver_parent_unique(t: Node, id: i64, x: Node)
    requires
        count_matching(t, |n: Node| has_tiling_child(n, id)) <= 1,
        in_tree(t, x),
        has_tiling_child(x, id),
        find_on_focus_path(t, Query::TilingParentOf(id)) is Some,
    ensures
        find_on_focus_path(t, Query::TilingParentOf(id)) == Some(x),
{
    lemma_find_result_in_tree(t, Query::TilingParentOf(id));
    let p = find_on_focus_path(t, Query::TilingParentOf(id))->Some_0;
    lemma_matching_unique(t, |n: Node| has_tiling_child(n, id), p, x);
}

} // verus!
