use germinal::workspace::{Pane, PaneId, PaneSplitDirection, PaneTree, Tab, Window, Workspace};

#[test]
fn new_window_has_one_tab_with_one_focused_pane() {
    let window = Window::new();
    let workspace = window.workspace();
    assert_eq!(workspace.tab_count(), 1);
    assert_eq!(workspace.active_tab().pane_count(), 1);
    assert_eq!(workspace.active_tab().focused_pane(), PaneId::new(1));
}

#[test]
fn splitting_adds_a_pane_and_focuses_it() {
    let mut window = Window::new();
    assert_eq!(window.split_focused_pane(PaneSplitDirection::Horizontal), Ok(()));
    assert_eq!(window.workspace().active_tab().pane_count(), 2);
    assert_eq!(window.workspace().active_tab().focused_pane().num(), 2);
    assert_eq!(window.split_focused_pane(PaneSplitDirection::Vertical), Ok(()));
    assert_eq!(window.workspace().active_tab().pane_count(), 3);
    assert_eq!(window.workspace().active_tab().focused_pane().num(), 3);
}

#[test]
fn new_tab_is_fresh_and_active() {
    let mut window = Window::new();
    window.split_focused_pane(PaneSplitDirection::Horizontal).unwrap();
    window.new_tab();
    assert_eq!(window.workspace().tab_count(), 2);
    assert_eq!(window.workspace().active_tab().pane_count(), 1);
    assert_eq!(window.workspace().active_tab().focused_pane().num(), 1);
}

#[test]
fn split_only_changes_the_active_tab() {
    let mut ws = Workspace::new();
    ws.new_tab();
    ws.split_focused_pane(PaneSplitDirection::Vertical).unwrap();
    ws.split_focused_pane(PaneSplitDirection::Vertical).unwrap();
    assert_eq!(ws.active_tab().pane_count(), 3);
    assert_eq!(ws.tab_count(), 2);
}

#[test]
fn fresh_tab_and_tree() {
    let tab = Tab::new();
    assert_eq!(tab.pane_count(), 1);
    assert_eq!(tab.focused_pane().num(), 1);
    let tree = PaneTree::new();
    assert_eq!(tree.pane_count(), 1);
    assert_eq!(tree.first_pane_id().num(), 1);
    assert_eq!(tree.split_direction(), None);
}

#[test]
fn split_trees_count_their_panes() {
    let tree = PaneTree::horizontal(vec![PaneTree::new(), PaneTree::vertical(vec![PaneTree::new(), PaneTree::new()])]);
    assert_eq!(tree.pane_count(), 3);
    assert_eq!(tree.split_direction(), Some(PaneSplitDirection::Horizontal));
    assert_eq!(tree.first_pane_id().num(), 1);
    let empty = PaneTree::vertical(Vec::new());
    assert_eq!(empty.pane_count(), 0);
    assert_eq!(empty.split_direction(), Some(PaneSplitDirection::Vertical));
}

#[test]
fn panes_and_ids() {
    let id = PaneId::new(7);
    assert_eq!(id.num(), 7);
    assert_eq!(Pane::new(id).id(), id);
}

#[test]
fn defaults_match_new() {
    let w = Window::default();
    assert_eq!(w.workspace().tab_count(), 1);
    assert_eq!(Workspace::default().tab_count(), 1);
    assert_eq!(Tab::default().pane_count(), 1);
    assert_eq!(PaneTree::default().pane_count(), 1);
}

#[test]
fn workspace_keeps_an_active_tab_through_any_operations() {
    let mut workspace = Workspace::new();
    let mut new_tabs = 0;
    for step in 0..12 {
        if step % 3 == 0 {
            workspace.new_tab();
            new_tabs += 1;
        } else {
            let direction = if step % 2 == 0 { PaneSplitDirection::Horizontal } else { PaneSplitDirection::Vertical };
            assert_eq!(workspace.split_focused_pane(direction), Ok(()));
        }
        assert_eq!(workspace.tab_count(), 1 + new_tabs);
        let tab = workspace.active_tab();
        assert!(tab.pane_count() >= 1);
    }
    assert_eq!(workspace.active_tab().pane_count(), 3);
    assert_eq!(workspace.active_tab().focused_pane(), PaneId::new(3));
}
