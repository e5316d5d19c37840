use egui_dock::{DockState, NodeIndex, NodePath, SurfaceIndex, TabPath};
use hydra_tnc::layout::{initial_layout, is_visible, menu_tabs, toggle_tab};
use hydra_tnc::Tab;

fn shown(tree: &DockState<Tab>) -> Vec<Tab> {
    tree.iter_all_tabs().map(|(_, tab)| *tab).collect()
}

fn leaves(tree: &DockState<Tab>) -> Vec<Vec<Tab>> {
    tree.iter_leaves().map(|(_, leaf)| leaf.tabs().to_vec()).collect()
}

#[test]
fn tabs_have_brief_names() {
    assert_eq!(Tab::Welcome.brief(), "Welcome");
    assert_eq!(Tab::ModemConnection.brief(), "Modem");
    assert_eq!(Tab::Monitor.brief(), "Monitor");
}

#[test]
fn all_tabs_but_welcome_can_be_added() {
    assert!(!Tab::Welcome.can_be_added());
    assert!(Tab::ModemConnection.can_be_added());
    assert!(Tab::Monitor.can_be_added());
    assert_eq!(Tab::iter(), vec![Tab::Welcome, Tab::ModemConnection, Tab::Monitor]);
    assert_eq!(menu_tabs(), vec![Tab::ModemConnection, Tab::Monitor]);
}

#[test]
fn the_window_starts_with_the_modem_tab() {
    let tree = initial_layout();
    assert_eq!(shown(&tree), vec![Tab::ModemConnection]);
    assert!(is_visible(&tree, Tab::ModemConnection));
    assert!(!is_visible(&tree, Tab::Monitor));
    assert!(!is_visible(&tree, Tab::Welcome));
}

#[test]
fn toggling_shows_and_hides() {
    let mut tree = initial_layout();
    toggle_tab(&mut tree, Tab::Monitor);
    assert_eq!(shown(&tree), vec![Tab::ModemConnection, Tab::Monitor]);
    toggle_tab(&mut tree, Tab::ModemConnection);
    assert_eq!(shown(&tree), vec![Tab::Monitor]);
    toggle_tab(&mut tree, Tab::Monitor);
    assert_eq!(shown(&tree), vec![]);
    toggle_tab(&mut tree, Tab::Monitor);
    assert_eq!(shown(&tree), vec![Tab::Monitor]);
    toggle_tab(&mut tree, Tab::ModemConnection);
    assert!(is_visible(&tree, Tab::Monitor));
    assert!(is_visible(&tree, Tab::ModemConnection));
}

#[test]
fn toggling_twice_restores_what_was_shown() {
    let mut tree = initial_layout();
    for tab in menu_tabs() {
        let before = shown(&tree);
        toggle_tab(&mut tree, tab);
        assert_ne!(shown(&tree), before);
        toggle_tab(&mut tree, tab);
        assert_eq!(shown(&tree), before);
    }
}

#[test]
fn tabs_are_toggled_in_splits_and_windows() {
    let mut tree = initial_layout();
    tree.main_surface_mut().split_left(NodeIndex::root(), 0.5, vec![Tab::Monitor]);
    let _ = tree.add_window(vec![Tab::Welcome]);
    assert!(is_visible(&tree, Tab::Monitor));
    assert!(is_visible(&tree, Tab::Welcome));
    toggle_tab(&mut tree, Tab::Monitor);
    assert_eq!(shown(&tree), vec![Tab::ModemConnection, Tab::Welcome]);
    toggle_tab(&mut tree, Tab::Welcome);
    assert_eq!(shown(&tree), vec![Tab::ModemConnection]);
    toggle_tab(&mut tree, Tab::Monitor);
    assert_eq!(shown(&tree), vec![Tab::ModemConnection, Tab::Monitor]);
}

#[test]
fn the_other_tabs_keep_their_places() {
    let mut tree = initial_layout();
    assert_eq!(leaves(&tree), vec![vec![Tab::ModemConnection]]);
    let _ = tree.add_window(vec![Tab::Welcome]);
    let modem = tree.find_tab(&Tab::ModemConnection);
    let welcome = tree.find_tab(&Tab::Welcome);
    toggle_tab(&mut tree, Tab::Monitor);
    assert_eq!(tree.find_tab(&Tab::ModemConnection), modem);
    assert_eq!(tree.find_tab(&Tab::Welcome), welcome);
    assert_eq!(leaves(&tree), vec![vec![Tab::ModemConnection, Tab::Monitor], vec![Tab::Welcome]]);
    toggle_tab(&mut tree, Tab::ModemConnection);
    assert_eq!(leaves(&tree), vec![vec![Tab::Monitor], vec![Tab::Welcome]]);
    toggle_tab(&mut tree, Tab::Monitor);
    assert_eq!(leaves(&tree), vec![vec![Tab::Welcome]]);
}

#[test]
fn the_menu_shows_no_tab_twice() {
    let mut tree = DockState::new(vec![Tab::Monitor, Tab::ModemConnection]);
    for tab in [Tab::Monitor, Tab::Monitor, Tab::ModemConnection, Tab::Monitor, Tab::Monitor] {
        toggle_tab(&mut tree, tab);
        let shown = shown(&tree);
        assert!(shown.iter().filter(|t| **t == Tab::Monitor).count() <= 1);
        assert!(shown.iter().filter(|t| **t == Tab::ModemConnection).count() <= 1);
        assert!(!is_visible(&tree, Tab::Welcome));
    }
}

fn node(surface: usize, node: usize) -> NodePath {
    NodePath::new(SurfaceIndex(surface), NodeIndex(node))
}

fn place(tree: &DockState<Tab>, tab: Tab) -> Option<(usize, usize, usize)> {
    tree.find_tab(&tab).map(|path: TabPath| (path.surface.0, path.node.0, path.tab.0))
}

#[test]
fn a_tab_is_added_to_the_focused_leaf() {
    let mut tree = initial_layout();
    toggle_tab(&mut tree, Tab::Monitor);
    assert_eq!(place(&tree, Tab::Monitor), Some((0, 0, 1)));
    assert_eq!(tree.leaf(node(0, 0)).unwrap().active.0, 1);
    assert_eq!(tree.main_surface().focused_leaf(), Some(NodeIndex(0)));

    let mut tree = initial_layout();
    let window = tree.add_window(vec![Tab::Welcome]);
    tree.set_focused_node_and_surface(NodePath::new(window, NodeIndex::root()));
    toggle_tab(&mut tree, Tab::Monitor);
    assert_eq!(place(&tree, Tab::Monitor), Some((1, 0, 1)));
    assert_eq!(tree.leaf(node(1, 0)).unwrap().active.0, 1);
    assert_eq!(tree.leaf(node(0, 0)).unwrap().active.0, 0);
    assert_eq!(tree.focused_leaf(), Some(node(1, 0)));
}

#[test]
fn a_tab_is_added_to_the_first_leaf_without_a_focus() {
    let mut tree = initial_layout();
    tree.main_surface_mut().split_left(NodeIndex::root(), 0.5, vec![Tab::Welcome]);
    tree.main_surface_mut().set_focused_node(NodeIndex(99));
    assert_eq!(tree.main_surface().focused_leaf(), None);
    toggle_tab(&mut tree, Tab::Monitor);
    assert_eq!(place(&tree, Tab::Monitor), Some((0, 1, 1)));
    assert_eq!(place(&tree, Tab::ModemConnection), Some((0, 2, 0)));
    assert_eq!(tree.main_surface().focused_leaf(), Some(NodeIndex(1)));
}

#[test]
fn a_tab_is_added_to_a_new_leaf_where_there_is_none() {
    let mut tree = initial_layout();
    toggle_tab(&mut tree, Tab::ModemConnection);
    assert_eq!(leaves(&tree), Vec::<Vec<Tab>>::new());
    toggle_tab(&mut tree, Tab::Monitor);
    assert_eq!(place(&tree, Tab::Monitor), Some((0, 0, 0)));
    assert_eq!(tree.leaf(node(0, 0)).unwrap().active.0, 0);
}

#[test]
fn the_first_of_two_equal_tabs_is_taken_away() {
    let mut tree = DockState::new(vec![Tab::Welcome, Tab::Monitor, Tab::Welcome]);
    let _ = tree.add_window(vec![Tab::Monitor]);
    tree.leaf_mut(node(0, 0)).unwrap().set_active_tab(2).unwrap();
    toggle_tab(&mut tree, Tab::Monitor);
    assert_eq!(leaves(&tree), vec![vec![Tab::Welcome, Tab::Welcome], vec![Tab::Monitor]]);
    assert_eq!(tree.leaf(node(0, 0)).unwrap().active.0, 1);
}

#[test]
fn what_is_beside_a_leaf_takes_its_parents_place() {
    let mut tree = initial_layout();
    // The modem tab is at node 1, and the welcome tab and the monitor tab are below node 2.
    tree.main_surface_mut().split_right(NodeIndex::root(), 0.5, vec![Tab::Welcome]);
    tree.main_surface_mut().split_below(NodeIndex(2), 0.5, vec![Tab::Monitor]);
    assert_eq!(place(&tree, Tab::ModemConnection), Some((0, 1, 0)));
    assert_eq!(place(&tree, Tab::Welcome), Some((0, 5, 0)));
    assert_eq!(place(&tree, Tab::Monitor), Some((0, 6, 0)));
    assert_eq!(tree.main_surface().focused_leaf(), Some(NodeIndex(6)));
    let mut other = tree.clone();

    toggle_tab(&mut tree, Tab::ModemConnection);
    assert_eq!(place(&tree, Tab::Welcome), Some((0, 1, 0)));
    assert_eq!(place(&tree, Tab::Monitor), Some((0, 2, 0)));
    assert_eq!(tree.main_surface().focused_leaf(), Some(NodeIndex(2)));

    toggle_tab(&mut other, Tab::Monitor);
    assert_eq!(place(&other, Tab::ModemConnection), Some((0, 1, 0)));
    assert_eq!(place(&other, Tab::Welcome), Some((0, 2, 0)));
    assert_eq!(other.main_surface().focused_leaf(), Some(NodeIndex(2)));
}

#[test]
fn an_emptied_window_gives_the_focus_to_the_main_surface() {
    let mut tree = initial_layout();
    let window = tree.add_window(vec![Tab::Monitor]);
    tree.main_surface_mut().set_focused_node(NodeIndex::root());
    tree.set_focused_node_and_surface(NodePath::new(window, NodeIndex::root()));
    toggle_tab(&mut tree, Tab::Monitor);
    assert_eq!(leaves(&tree), vec![vec![Tab::ModemConnection]]);
    assert_eq!(tree.focused_leaf(), Some(node(0, 0)));
}
