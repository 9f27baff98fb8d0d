use autotiling::policy::{
    configure_layout, is_tall, pick_orientation, should_we_ignore_this_window, split_command_text,
    switch_splitting, Orientation, Ratio, ResolutionError,
};
use autotiling::tree::{get_parent, node_find_focused_as_ref, Layout, Node, NodeType, Query, Rect};

fn leaf(id: i64, node_type: NodeType, layout: Layout, width: u32, height: u32) -> Node {
    Node {
        id,
        node_type,
        layout,
        rect: Rect { width, height },
        percent_above_one: Some(false),
        focused: false,
        focus: vec![],
        nodes: vec![],
        floating_nodes: vec![],
    }
}

fn container(id: i64, node_type: NodeType, layout: Layout, focus: Vec<i64>, nodes: Vec<Node>) -> Node {
    Node {
        id,
        node_type,
        layout,
        rect: Rect {
            width: 1920,
            height: 1080,
        },
        percent_above_one: None,
        focused: false,
        focus,
        nodes,
        floating_nodes: vec![],
    }
}

/// Root -> workspace (two tiling children) -> focused leaf of the given
/// geometry; the workspace carries `ws_layout`.
fn two_child_workspace_tree(ws_layout: Layout, width: u32, height: u32) -> Node {
    let mut focused = leaf(3, NodeType::Container, Layout::NoLayout, width, height);
    focused.focused = true;
    let other = leaf(4, NodeType::Container, Layout::NoLayout, 100, 100);
    let ws = container(2, NodeType::Workspace, ws_layout, vec![3], vec![focused, other]);
    container(1, NodeType::Root, Layout::NoLayout, vec![2], vec![ws])
}

fn ratio_two_fifths() -> Ratio {
    Ratio::new(2, 5).unwrap()
}

#[test]
fn resolves_focused_node_and_parent() {
    let tree = two_child_workspace_tree(Layout::SplitHorizontal, 100, 50);
    let focused = node_find_focused_as_ref(&tree, Query::Focused).unwrap();
    assert_eq!(focused.id, 3);
    assert!(focused.focused);
    let parent = node_find_focused_as_ref(&tree, Query::TilingParentOf(focused.id)).unwrap();
    assert_eq!(parent.id, 2);
    assert!(matches!(parent.node_type, NodeType::Workspace));
    let parent_again = get_parent(&tree, focused).unwrap();
    assert_eq!(parent_again.id, 2);
}

#[test]
fn resolves_through_a_deep_focus_path() {
    // Root -> output -> workspace -> container -> focused leaf.
    let mut focused = leaf(9, NodeType::Container, Layout::NoLayout, 50, 100);
    focused.focused = true;
    let inner = container(7, NodeType::Container, Layout::SplitHorizontal, vec![9], vec![
        focused,
        leaf(8, NodeType::Container, Layout::NoLayout, 50, 100),
    ]);
    let ws = container(5, NodeType::Workspace, Layout::SplitHorizontal, vec![7], vec![inner]);
    let output = container(3, NodeType::Output, Layout::NoLayout, vec![5], vec![ws]);
    let tree = container(1, NodeType::Root, Layout::NoLayout, vec![3], vec![output]);
    let found = node_find_focused_as_ref(&tree, Query::Focused).unwrap();
    assert_eq!(found.id, 9);
    let parent = get_parent(&tree, found).unwrap();
    assert_eq!(parent.id, 7);
    // Ratio 2.0 > 0.4: a vertical split is requested for the container.
    assert_eq!(switch_splitting(&tree, ratio_two_fifths()), Ok(Some("splitv")));
}

#[test]
fn unfocused_tree_reports_no_focused_node() {
    let mut tree = two_child_workspace_tree(Layout::SplitHorizontal, 100, 50);
    tree.nodes[0].nodes[0].focused = false;
    assert!(node_find_focused_as_ref(&tree, Query::Focused).is_none());
    assert_eq!(
        switch_splitting(&tree, ratio_two_fifths()),
        Err(ResolutionError::NoFocusedNode)
    );
}

#[test]
fn focused_root_has_no_parent() {
    let mut root = container(1, NodeType::Root, Layout::NoLayout, vec![], vec![]);
    root.focused = true;
    assert_eq!(
        switch_splitting(&root, ratio_two_fifths()),
        Err(ResolutionError::NoParent)
    );
}

#[test]
fn focused_floating_child_has_no_structural_parent() {
    let mut floating = leaf(5, NodeType::FloatingWindow, Layout::NoLayout, 300, 200);
    floating.focused = true;
    let mut ws = container(2, NodeType::Workspace, Layout::SplitHorizontal, vec![5], vec![]);
    ws.floating_nodes = vec![floating];
    let tree = container(1, NodeType::Root, Layout::NoLayout, vec![2], vec![ws]);
    let focused = node_find_focused_as_ref(&tree, Query::Focused).unwrap();
    assert_eq!(focused.id, 5);
    assert_eq!(
        switch_splitting(&tree, ratio_two_fifths()),
        Err(ResolutionError::NoParent)
    );
}

#[test]
fn stacked_window_is_ignored() {
    let mut tree = two_child_workspace_tree(Layout::SplitHorizontal, 100, 50);
    tree.nodes[0].nodes[0].layout = Layout::Stacked;
    assert!(should_we_ignore_this_window(&tree.nodes[0].nodes[0]));
    assert_eq!(switch_splitting(&tree, ratio_two_fifths()), Ok(None));
}

#[test]
fn tabbed_window_is_ignored() {
    let mut tree = two_child_workspace_tree(Layout::SplitHorizontal, 100, 50);
    tree.nodes[0].nodes[0].layout = Layout::Tabbed;
    assert_eq!(switch_splitting(&tree, ratio_two_fifths()), Ok(None));
}

#[test]
fn floating_window_is_ignored() {
    let mut tree = two_child_workspace_tree(Layout::SplitHorizontal, 100, 50);
    tree.nodes[0].nodes[0].node_type = NodeType::FloatingWindow;
    assert_eq!(switch_splitting(&tree, ratio_two_fifths()), Ok(None));
}

#[test]
fn over_full_window_is_ignored() {
    let mut tree = two_child_workspace_tree(Layout::SplitHorizontal, 100, 50);
    tree.nodes[0].nodes[0].percent_above_one = Some(true);
    assert_eq!(switch_splitting(&tree, ratio_two_fifths()), Ok(None));
}

#[test]
fn absent_percent_is_not_full_screen() {
    let mut tree = two_child_workspace_tree(Layout::SplitHorizontal, 100, 50);
    tree.nodes[0].nodes[0].percent_above_one = None;
    assert_eq!(switch_splitting(&tree, ratio_two_fifths()), Ok(Some("splitv")));
}

#[test]
fn single_child_workspace_splits_horizontally() {
    // Tall geometry would ask for a vertical split, but a workspace with one
    // tiling child forces a horizontal one.
    let mut focused = leaf(3, NodeType::Container, Layout::NoLayout, 100, 1000);
    focused.focused = true;
    let ws = container(2, NodeType::Workspace, Layout::Tabbed, vec![3], vec![focused]);
    let tree = container(1, NodeType::Root, Layout::NoLayout, vec![2], vec![ws]);
    let parent = &tree.nodes[0];
    assert_eq!(
        pick_orientation(&tree.nodes[0].nodes[0], parent, ratio_two_fifths()),
        Orientation::Horizontal
    );
    assert_eq!(switch_splitting(&tree, ratio_two_fifths()), Ok(Some("splith")));
}

#[test]
fn ratio_just_above_threshold_is_vertical() {
    let rect = Rect {
        width: 100,
        height: 41,
    };
    assert!(is_tall(&rect, ratio_two_fifths()));
    let tree = two_child_workspace_tree(Layout::SplitHorizontal, 100, 41);
    assert_eq!(switch_splitting(&tree, ratio_two_fifths()), Ok(Some("splitv")));
}

#[test]
fn ratio_just_below_threshold_is_horizontal() {
    let rect = Rect {
        width: 100,
        height: 39,
    };
    assert!(!is_tall(&rect, ratio_two_fifths()));
    // The workspace is not split horizontally yet, so the command is issued.
    let tree = two_child_workspace_tree(Layout::SplitVertical, 100, 39);
    assert_eq!(switch_splitting(&tree, ratio_two_fifths()), Ok(Some("splith")));
}

#[test]
fn ratio_exactly_at_threshold_is_horizontal() {
    // The comparison is strict: height / width == 0.4 is not tall.
    let rect = Rect {
        width: 100,
        height: 40,
    };
    assert!(!is_tall(&rect, ratio_two_fifths()));
    let tree = two_child_workspace_tree(Layout::SplitVertical, 100, 40);
    assert_eq!(switch_splitting(&tree, ratio_two_fifths()), Ok(Some("splith")));
}

#[test]
fn zero_width_counts_as_tall() {
    let rect = Rect {
        width: 0,
        height: 10,
    };
    assert!(is_tall(&rect, ratio_two_fifths()));
}

#[test]
fn half_ratio_issues_one_vertical_split() {
    // Workspace with two tiling children, focused leaf 100x50 (ratio 0.5),
    // parent currently split horizontally: exactly one "splitv" command.
    let tree = two_child_workspace_tree(Layout::SplitHorizontal, 100, 50);
    assert_eq!(switch_splitting(&tree, ratio_two_fifths()), Ok(Some("splitv")));
}

#[test]
fn already_vertical_parent_issues_nothing() {
    // The same tree with the parent already split vertically: no command.
    let tree = two_child_workspace_tree(Layout::SplitVertical, 100, 50);
    assert_eq!(switch_splitting(&tree, ratio_two_fifths()), Ok(None));
}

#[test]
fn second_decision_after_the_command_took_effect_issues_nothing() {
    let tree = two_child_workspace_tree(Layout::SplitHorizontal, 100, 50);
    assert_eq!(switch_splitting(&tree, ratio_two_fifths()), Ok(Some("splitv")));
    // The compositor applied the command: the parent is now split vertically.
    let updated = two_child_workspace_tree(Layout::SplitVertical, 100, 50);
    assert_eq!(switch_splitting(&updated, ratio_two_fifths()), Ok(None));
}

#[test]
fn ratio_rejects_zero_denominator() {
    assert!(Ratio::new(2, 0).is_none());
    assert_eq!(Ratio::new(2, 5), Some(Ratio { num: 2, den: 5 }));
}

#[test]
fn command_texts_name_the_orientation() {
    assert_eq!(split_command_text(Orientation::Horizontal), "splith");
    assert_eq!(split_command_text(Orientation::Vertical), "splitv");
}

#[test]
fn configure_layout_skips_only_matching_parent() {
    let ws = container(2, NodeType::Workspace, Layout::SplitHorizontal, vec![], vec![]);
    assert_eq!(configure_layout(Orientation::Horizontal, &ws), None);
    assert_eq!(configure_layout(Orientation::Vertical, &ws), Some("splitv"));
}

#[test]
fn descent_prefers_tiling_children_over_floating() {
    // Both a tiling and a floating child carry the id named by the focus
    // list; the tiling one continues the path.
    let mut tiling = leaf(7, NodeType::Container, Layout::NoLayout, 10, 10);
    tiling.focused = true;
    let floating = leaf(7, NodeType::FloatingWindow, Layout::NoLayout, 20, 20);
    let mut ws = container(2, NodeType::Workspace, Layout::SplitHorizontal, vec![7], vec![tiling]);
    ws.floating_nodes = vec![floating];
    let tree = container(1, NodeType::Root, Layout::NoLayout, vec![2], vec![ws]);
    let focused = node_find_focused_as_ref(&tree, Query::Focused).unwrap();
    assert!(matches!(focused.node_type, NodeType::Container));
}

#[test]
fn descent_stops_where_the_focus_list_ends() {
    // The workspace names no focused child, so the descent fails even though
    // a focused node sits below it.
    let mut focused = leaf(3, NodeType::Container, Layout::NoLayout, 100, 50);
    focused.focused = true;
    let ws = container(2, NodeType::Workspace, Layout::SplitHorizontal, vec![], vec![focused]);
    let tree = container(1, NodeType::Root, Layout::NoLayout, vec![2], vec![ws]);
    assert!(node_find_focused_as_ref(&tree, Query::Focused).is_none());
}
