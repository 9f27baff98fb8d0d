//! The layout-decision policy: the ignore rules, the orientation choice from
//! geometry, and the idempotent command plan for one focus-change event.

use vstd::prelude::*;

use crate::tree::{find_on_focus_path, Layout, Node, NodeType, Query, Rect};
use crate::tree::{focused_count, focused_via_tiling_child, get_parent};
use crate::tree::{lemma_no_focused_node_fails, lemma_parent_resolution_succeeds};
use crate::tree::node_find_focused_as_ref;

verus! {

/// The aspect-ratio threshold, held as the exact fraction `num / den`.
#[derive(Clone, Copy, PartialEq, Eq, Structural, Debug)]
pub struct Ratio {
    pub num: u32,
    pub den: u32,
}

impl Ratio {
    /// A fraction means something only with a positive denominator.
    pub open spec fn wf(self) -> bool {
        self.den > 0
    }

    /// Builds the fraction `num / den`; a zero denominator is rejected.
    pub fn new(num: u32, den: u32) -> (r: Option<Ratio>)
        ensures
            den > 0 ==> r == Some(Ratio { num, den }),
            den == 0 ==> r is None,
            r matches Some(t) ==> t.wf(),
    {
        if den > 0 {
            Some(Ratio { num, den })
        } else {
            None
        }
    }
}

/// A split orientation the policy can request.
#[derive(Clone, Copy, PartialEq, Eq, Structural, Debug)]
pub enum Orientation {
    Horizontal,
    Vertical,
}

/// The container layout that a requested orientation puts in place.
pub open spec fn layout_of(o: Orientation) -> Layout {
    match o {
        Orientation::Horizontal => Layout::SplitHorizontal,
        Orientation::Vertical => Layout::SplitVertical,
    }
}

/// Why a decision over a snapshot can fail.
#[derive(Clone, Copy, PartialEq, Eq, Structural, Debug)]
pub enum ResolutionError {
    /// No focused node was found along the snapshot's focus path.
    NoFocusedNode,
    /// The focused node's structural parent could not be located.
    NoParent,
}

/// The ignore policy: the focused node is left alone when the user has chosen
/// a stacked or tabbed arrangement, when it is a floating window, or when the
/// fraction of its parent that it reports occupying exceeds the whole (the
/// compositor's full-screen convention). An absent fraction does not count
/// as full screen.
pub open spec fn spec_should_ignore(n: Node) -> bool {
    n.node_type == NodeType::FloatingWindow || n.percent_above_one == Some(true) || n.layout
        == Layout::Stacked || n.layout == Layout::Tabbed
}

/// Whether the policy leaves the focused window alone.
pub fn should_we_ignore_this_window(focused_node: &Node) -> (r: bool)
    ensures
        r == spec_should_ignore(*focused_node),
{
    let is_stacked = matches!(focused_node.layout, Layout::Stacked);
    let is_tabbed = matches!(focused_node.layout, Layout::Tabbed);
    let is_floating = matches!(focused_node.node_type, NodeType::FloatingWindow);
    let is_full_screen = match focused_node.percent_above_one {
        Some(b) => b,
        None => false,
    };
    is_floating || is_full_screen || is_stacked || is_tabbed
}

/// Whether a region counts as tall for the threshold `ratio`: its height
/// exceeds `ratio` times its width — exactly the comparison
/// `height / width > num / den`, cleared of the division.
pub open spec fn spec_is_tall(r: Rect, ratio: Ratio) -> bool {
    r.height * ratio.den > ratio.num * r.width
}

/// Compares the region's aspect ratio against the threshold, exactly.
pub fn is_tall(rect: &Rect, ratio: Ratio) -> (r: bool)
    ensures
        r == spec_is_tall(*rect, ratio),
{
    let h: u64 = rect.height as u64;
    let w: u64 = rect.width as u64;
    let num: u64 = ratio.num as u64;
    let den: u64 = ratio.den as u64;
    proof {
        assert(h * den <= u64::MAX && num * w <= u64::MAX) by (nonlinear_arith)
            requires
                h <= u32::MAX,
                w <= u32::MAX,
                num <= u32::MAX,
                den <= u32::MAX,
        ;
    }
    h * den > num * w
}

/// The orientation the policy requests: horizontal is forced for a workspace
/// that still holds a single tiling child (seeding a sensible default for its
/// second window); otherwise geometry decides, and a tall window gets a
/// vertical split.
pub open spec fn spec_pick_orientation(focused: Node, parent: Node, ratio: Ratio) -> Orientation {
    if parent.node_type == NodeType::Workspace && parent.nodes@.len() == 1 {
        Orientation::Horizontal
    } else if spec_is_tall(focused.rect, ratio) {
        Orientation::Vertical
    } else {
        Orientation::Horizontal
    }
}

/// Chooses the split orientation for the focused node under `parent`.
pub fn pick_orientation(focused: &Node, parent: &Node, ratio: Ratio) -> (o: Orientation)
    ensures
        o == spec_pick_orientation(*focused, *parent, ratio),
{
    if matches!(parent.node_type, NodeType::Workspace) && parent.nodes.len() == 1 {
        Orientation::Horizontal
    } else if is_tall(&focused.rect, ratio) {
        Orientation::Vertical
    } else {
        Orientation::Horizontal
    }
}

/// The command plan for `parent`: nothing when its layout already equals the
/// requested orientation, otherwise exactly the one requested orientation.
pub open spec fn spec_configure_layout(new_layout: Orientation, parent: Node) -> Option<
    Orientation,
> {
    if parent.layout == layout_of(new_layout) {
        None
    } else {
        Some(new_layout)
    }
}

/// The command text that asks the compositor for a split orientation.
pub fn split_command_text(o: Orientation) -> (r: &'static str)
    ensures
        o == Orientation::Horizontal ==> r@ == "splith"@,
        o == Orientation::Vertical ==> r@ == "splitv"@,
{
    match o {
        Orientation::Horizontal => "splith",
        Orientation::Vertical => "splitv",
    }
}

/// Plans the layout mutation of `parent`: `None` when the parent is already
/// arranged as requested — repeated focus events on a correctly split
/// container cause no traffic — otherwise the single command to send.
pub fn configure_layout(new_layout: Orientation, parent: &Node) -> (cmd: Option<&'static str>)
    ensures
        spec_configure_layout(new_layout, *parent) is None <==> cmd is None,
        cmd matches Some(s) ==> (new_layout == Orientation::Horizontal ==> s@ == "splith"@) && (
        new_layout == Orientation::Vertical ==> s@ == "splitv"@),
{
    let same = match (new_layout, parent.layout) {
        (Orientation::Horizontal, Layout::SplitHorizontal) => true,
        (Orientation::Vertical, Layout::SplitVertical) => true,
        _ => false,
    };
    if same {
        None
    } else {
        Some(split_command_text(new_layout))
    }
}

/// What one decision issues once the focused node and its parent are known:
/// nothing for an ignored window, otherwise the planned command for the
/// chosen orientation.
pub open spec fn spec_policy_command(focused: Node, parent: Node, ratio: Ratio) -> Option<
    Orientation,
> {
    if spec_should_ignore(focused) {
        None
    } else {
        spec_configure_layout(spec_pick_orientation(focused, parent, ratio), parent)
    }
}

/// The whole decision over a snapshot: resolve the focused node along the
/// focus path, then its structural parent, and compute the command to issue.
pub open spec fn spec_switch_splitting(tree: Node, ratio: Ratio) -> Result<
    Option<Orientation>,
    ResolutionError,
> {
    match find_on_focus_path(tree, Query::Focused) {
        None => Err(ResolutionError::NoFocusedNode),
        Some(focused) => match find_on_focus_path(tree, Query::TilingParentOf(focused.id)) {
            None => Err(ResolutionError::NoParent),
            Some(parent) => Ok(spec_policy_command(focused, parent, ratio)),
        },
    }
}

/// One full decision over a snapshot: resolve the focused node and its
/// structural parent, apply the ignore policy, choose the orientation, and
/// plan the command. `Ok(None)` means nothing is to be sent; `Ok(Some(cmd))`
/// is the single command to send to the compositor.
pub fn switch_splitting(tree: &Node, ratio: Ratio) -> (r: Result<
    Option<&'static str>,
    ResolutionError,
>)
    ensures
        ({
            let d = spec_switch_splitting(*tree, ratio);
            match r {
                Err(e) => d == Err::<Option<Orientation>, ResolutionError>(e),
                Ok(None) => d == Ok::<Option<Orientation>, ResolutionError>(None),
                Ok(Some(s)) => d matches Ok(Some(o)) && (o == Orientation::Horizontal ==> s@
                    == "splith"@) && (o == Orientation::Vertical ==> s@ == "splitv"@),
            }
        }),
{
    let focused_node = match node_find_focused_as_ref(tree, Query::Focused) {
        Some(f) => f,
        None => {
            return Err(ResolutionError::NoFocusedNode);
        },
    };
    let parent = match get_parent(tree, focused_node) {
        Some(p) => p,
        None => {
            return Err(ResolutionError::NoParent);
        },
    };
    if should_we_ignore_this_window(focused_node) {
        return Ok(None);
    }
    let orientation = pick_orientation(focused_node, parent, ratio);
    Ok(configure_layout(orientation, parent))
}

/// On a snapshot with no focused node at all, the decision fails with the
/// resolution error for a missing focused node.
pub proof fn lemma_no_focused_node_is_resolution_error(t: Node, ratio: Ratio)
    requires
        focused_count(t) == 0,
    ensures
        spec_switch_splitting(t, ratio) == Err::<Option<Orientation>, ResolutionError>(
            ResolutionError::NoFocusedNode,
        ),
{
    lemma_no_focused_node_fails(t);
}

/// On a well-formed snapshot — the focus path reaches the focused node
/// through a final step into a tiling child — the decision resolves both the
/// focused node and its structural parent, and so never fails.
pub proof fn lemma_well_formed_tree_decides(t: Node, ratio: Ratio)
    requires
        focused_via_tiling_child(t),
    ensures
        spec_switch_splitting(t, ratio) is Ok,
{
    lemma_parent_resolution_succeeds(t);
}

/// The ignore policy never issues a command: whatever the geometry, the
/// threshold, and the parent, a decision over a stacked, tabbed, floating,
/// or over-full focused node sends nothing.
pub proof fn lemma_ignored_window_issues_nothing(focused: Node, parent: Node, ratio: Ratio)
    requires
        spec_should_ignore(focused),
    ensures
        spec_policy_command(focused, parent, ratio) is None,
{
}

/// A workspace with exactly one tiling child always yields a horizontal
/// split, whatever the geometry and the threshold.
pub proof fn lemma_single_child_workspace_horizontal(focused: Node, parent: Node, ratio: Ratio)
    requires
        parent.node_type == NodeType::Workspace,
        parent.nodes@.len() == 1,
    ensures
        spec_pick_orientation(focused, parent, ratio) == Orientation::Horizontal,
{
}

/// Idempotence of the policy: a decision issues at most one command, and once
/// that command has taken effect — the parent's layout now equals the
/// orientation that was issued, everything else unchanged — the same decision
/// issues nothing.
pub proof fn lemma_policy_idempotent(focused: Node, parent: Node, ratio: Ratio)
    requires
        spec_policy_command(focused, parent, ratio) is Some,
    ensures
        ({
            let o = spec_policy_command(focused, parent, ratio)->Some_0;
            let applied = Node { layout: layout_of(o), ..parent };
            spec_policy_command(focused, applied, ratio) is None
        }),
{
}

/// Idempotence over snapshots: if a decision over `tree` issued a command,
/// and a fresh snapshot `tree2` resolves to the same focused node and to the
/// same parent except that the parent now carries the issued layout, then the
/// decision over `tree2` issues nothing.
pub proof fn lemma_switch_splitting_idempotent(tree: Node, tree2: Node, ratio: Ratio)
    requires
        spec_switch_splitting(tree, ratio) matches Ok(Some(o)),
        find_on_focus_path(tree2, Query::Focused) == find_on_focus_path(tree, Query::Focused),
        ({
            let focused = find_on_focus_path(tree, Query::Focused)->Some_0;
            let parent = find_on_focus_path(tree, Query::TilingParentOf(focused.id))->Some_0;
            let o = spec_switch_splitting(tree, ratio)->Ok_0->Some_0;
            find_on_focus_path(tree2, Query::TilingParentOf(focused.id)) == Some(
                Node { layout: layout_of(o), ..parent },
            )
        }),
    ensures
        spec_switch_splitting(tree2, ratio) == Ok::<Option<Orientation>, ResolutionError>(None),
{
}

} // verus!
