//! Which tabs the main window shows.

use egui_dock::{DockState, NodeIndex, SurfaceIndex, TabIndex, TabPath};
use vstd::multiset::Multiset;
use vstd::prelude::*;
use crate::tab::Tab;

verus! {

/// Declares `egui_dock::DockState`, the tree of surfaces and leaves that tabs are arranged in.
#[verifier::external_type_specification]
#[verifier::external_body]
#[verifier::reject_recursive_types(T)]
pub struct ExDockState<T>(DockState<T>);

/// The tabs that a dock state holds, in all leaves of all its surfaces.
pub uninterp spec fn tabs_of(tree: DockState<Tab>) -> Multiset<Tab>;

/// The leaves of a dock state, by surface and by node of the surface's tree: the tabs of each, from
/// first to last, and which of them is the active one. Surface 0 is the main one. Node 0 is the
/// root of a tree, and the children of node `n` are the nodes `2 * n + 1` and `2 * n + 2`.
pub uninterp spec fn leaves_of(tree: DockState<Tab>) -> Map<(int, int), (Seq<Tab>, int)>;

/// The surface of a dock state that has the focus, if one has it.
pub uninterp spec fn focused_surface_of(tree: DockState<Tab>) -> Option<int>;

/// The node that has the focus within the tree of each surface, of those trees that have a focus.
pub uninterp spec fn focus_of(tree: DockState<Tab>) -> Map<int, int>;

/// Whether a dock state is in working order. The main surface exists. Each tree is made of splits
/// with two children and of leaves, with nothing in the slots outside the tree. Each tree has a
/// focus of its own, which is on a leaf of that tree, if the tree has nodes and the focus is on
/// anything. The surface that has the focus exists, if one has it. A new dock state is in working
/// order, and the operations below keep it so.
pub uninterp spec fn in_order(tree: DockState<Tab>) -> bool;

/// Whether surface `s` has a leaf.
pub open spec fn has_leaf(leaves: Map<(int, int), (Seq<Tab>, int)>, s: int) -> bool {
    exists|n: int| #[trigger] leaves.contains_key((s, n))
}

/// Whether `tab` is at index `i` of the leaf at node `n` of surface `s`.
pub open spec fn holds(
    leaves: Map<(int, int), (Seq<Tab>, int)>,
    tab: Tab,
    s: int,
    n: int,
    i: int,
) -> bool {
    leaves.contains_key((s, n)) && 0 <= i < leaves[(s, n)].0.len() && leaves[(s, n)].0[i] == tab
}

/// Whether this is the first place at which `tab` is: by surface, then by node, then by index.
pub open spec fn first_place(
    leaves: Map<(int, int), (Seq<Tab>, int)>,
    tab: Tab,
    s: int,
    n: int,
    i: int,
) -> bool {
    &&& holds(leaves, tab, s, n, i)
    &&& forall|t: int, m: int, j: int| #[trigger]
        holds(leaves, tab, t, m, j) ==> s < t || (s == t && (n < m || (n == m && i <= j)))
}

/// Whether a tab that is added goes to node `n` of surface `s`. That is the surface that has the
/// focus, or else the main one, and there the leaf that has the focus, or else the first leaf, or
/// else, where there is none, a new one at the root.
pub open spec fn lands_at(
    leaves: Map<(int, int), (Seq<Tab>, int)>,
    focused_surface: Option<int>,
    focus: Map<int, int>,
    s: int,
    n: int,
) -> bool {
    &&& s == match focused_surface {
        Some(t) => t,
        None => 0,
    }
    &&& if !has_leaf(leaves, s) {
        n == 0
    } else if focus.contains_key(s) {
        n == focus[s]
    } else {
        &&& leaves.contains_key((s, n))
        &&& forall|m: int| #[trigger] leaves.contains_key((s, m)) ==> n <= m
    }
}

/// The leaves once `tab` was added at node `n` of surface `s`: behind the tabs that are there, and
/// as the active one.
pub open spec fn with_tab(
    leaves: Map<(int, int), (Seq<Tab>, int)>,
    s: int,
    n: int,
    tab: Tab,
) -> Map<(int, int), (Seq<Tab>, int)> {
    let tabs = if leaves.contains_key((s, n)) {
        leaves[(s, n)].0
    } else {
        Seq::empty()
    };
    leaves.insert((s, n), (tabs.push(tab), tabs.len() as int))
}

/// Where a node is once the leaf `gone` was taken out of its tree: the node beside that leaf takes
/// the place of their parent, with all that is below it, and every other node stays.
pub open spec fn lifted(node: int, gone: int) -> int
    decreases node,
{
    let beside = if gone % 2 == 1 {
        gone + 1
    } else {
        gone - 1
    };
    if node <= 0 {
        node
    } else if node == beside {
        (gone - 1) / 2
    } else {
        let up = lifted((node - 1) / 2, gone);
        if node % 2 == 1 {
            2 * up + 1
        } else {
            2 * up + 2
        }
    }
}

/// Whether `after` are the leaves once the tab at index `i` of node `n` of surface `s` was taken
/// out of `before`. The index of the active tab goes down by one, unless it is zero or the tab was
/// behind the active one. A leaf goes with its last tab; the other surfaces stay as they are.
pub open spec fn tab_taken(
    before: Map<(int, int), (Seq<Tab>, int)>,
    after: Map<(int, int), (Seq<Tab>, int)>,
    s: int,
    n: int,
    i: int,
) -> bool {
    let (tabs, active) = before[(s, n)];
    if tabs.len() > 1 {
        let next = if i <= active && active > 0 {
            active - 1
        } else {
            active
        };
        after == before.insert((s, n), (tabs.remove(i), next))
    } else {
        &&& forall|t: int, m: int|
            t != s ==> (#[trigger] after.contains_key((t, m)) <==> before.contains_key((t, m)))
        &&& forall|t: int, m: int|
            t != s && #[trigger] before.contains_key((t, m)) ==> after[(t, m)] == before[(t, m)]
        &&& forall|m: int|
            m != n && #[trigger] before.contains_key((s, m)) ==> after.contains_key(
                (s, lifted(m, n)),
            ) && after[(s, lifted(m, n))] == before[(s, m)]
        &&& forall|k: int| #[trigger]
            after.contains_key((s, k)) ==> exists|m: int|
                m != n && #[trigger] before.contains_key((s, m)) && k == lifted(m, n)
    }
}

/// Whether the focus of `after` is as it comes of taking a tab out of the leaf at node `n` of surface
/// `s` of `before`. It stays, as long as the leaf does. Where the leaf goes, the focus of its tree
/// stays on the leaf that it is on, or goes to another leaf, if it was on the one that goes. A
/// window that has no leaf left goes, and the main surface has the focus.
pub open spec fn focus_follows(
    before: DockState<Tab>,
    after: DockState<Tab>,
    s: int,
    n: int,
) -> bool {
    let old_focus = focus_of(before);
    let new_focus = focus_of(after);
    if leaves_of(before)[(s, n)].0.len() > 1 {
        focused_surface_of(after) == focused_surface_of(before) && new_focus == old_focus
    } else {
        &&& focused_surface_of(after) == if s != 0 && !has_leaf(leaves_of(after), s) {
            Some(0)
        } else {
            focused_surface_of(before)
        }
        &&& forall|t: int|
            t != s ==> (#[trigger] new_focus.contains_key(t) <==> old_focus.contains_key(t))
        &&& forall|t: int|
            t != s && #[trigger] old_focus.contains_key(t) ==> new_focus[t] == old_focus[t]
        &&& if has_leaf(leaves_of(after), s) {
            &&& new_focus.contains_key(s) <==> old_focus.contains_key(s)
            &&& old_focus.contains_key(s) ==> if old_focus[s] == n {
                leaves_of(after).contains_key((s, new_focus[s]))
            } else {
                new_focus[s] == lifted(old_focus[s], n)
            }
        } else if s == 0 {
            &&& new_focus.contains_key(s) <==> old_focus.contains_key(s)
            &&& old_focus.contains_key(s) ==> new_focus[s] == old_focus[s]
        } else {
            !new_focus.contains_key(s)
        }
    }
}

/// One leaf, at the root of the main surface, with `tab` as its only and active tab.
pub open spec fn single_leaf(tab: Tab) -> Map<(int, int), (Seq<Tab>, int)> {
    map![(0int, 0int) => (seq![tab], 0int)]
}

/// Whether two tabs are the same.
fn same_tab(a: &Tab, b: &Tab) -> (r: bool)
    ensures
        r == (*a == *b),
{
    *a == *b
}

/// Calls `DockState::new`, which makes a dock state of one surface with one leaf, for one tab: it
/// holds that tab, in that leaf and active, has no focus, and is in working order.
#[verifier::external_body]
fn dock_new(tab: Tab) -> (r: DockState<Tab>)
    ensures
        tabs_of(r) == Multiset::<Tab>::singleton(tab),
        leaves_of(r) == single_leaf(tab),
        focused_surface_of(r) is None,
        (focus_of(r) == Map::<int, int>::empty()),
        in_order(r),
{
    DockState::new(vec![tab])
}

/// Calls `DockState::find_tab_from`, which goes through the surfaces, the nodes of each and the
/// tabs of each leaf, in the order of their indices: there is a result if and only if the dock
/// state holds the tab, and it is the surface, the node and the index of the first place of it.
#[verifier::external_body]
fn dock_find(tree: &DockState<Tab>, tab: Tab) -> (r: Option<(usize, usize, usize)>)
    ensures
        r is Some <==> tabs_of(*tree).count(tab) > 0,
        match r {
            Some((s, n, i)) => first_place(leaves_of(*tree), tab, s as int, n as int, i as int),
            None => forall|s: int, n: int, i: int| !#[trigger]
                holds(leaves_of(*tree), tab, s, n, i),
        },
{
    let found = tree.find_tab_from(|other| same_tab(other, &tab));
    found.map(|path| (path.surface.0, path.node.0, path.tab.0))
}

/// Calls `DockState::remove_tab` on a place that holds a tab: that tab leaves the dock state and is
/// returned, and no other tab leaves or comes. A leaf that is left without tabs is taken out, and
/// what was beside it takes the place of their parent; a window that is left without leaves is
/// taken out, too. The focus follows the leaf that it is on, and the main surface has it once the
/// window is taken out. Where the leaf with the focus goes, another leaf of its tree has the focus
/// then; which one is not said.
#[verifier::external_body]
fn dock_remove(tree: &mut DockState<Tab>, surface: usize, node: usize, index: usize) -> (r: Option<
    Tab,
>)
    requires
        in_order(*old(tree)),
        leaves_of(*old(tree)).contains_key((surface as int, node as int)),
        index < leaves_of(*old(tree))[(surface as int, node as int)].0.len(),
    ensures
        r == Some(leaves_of(*old(tree))[(surface as int, node as int)].0[index as int]),
        r matches Some(tab) ==> tabs_of(*final(tree)) == tabs_of(*old(tree)).remove(tab),
        tab_taken(
            leaves_of(*old(tree)),
            leaves_of(*final(tree)),
            surface as int,
            node as int,
            index as int,
        ),
        focus_follows(*old(tree), *final(tree), surface as int, node as int),
        in_order(*final(tree)),
{
    tree.remove_tab(TabPath::new(SurfaceIndex(surface), NodeIndex(node), TabIndex(index)))
}

/// Calls `DockState::push_to_focused_leaf`, which puts a tab into the leaf that has the focus, or
/// else into the first one, or else into a new one, as `lands_at` says: the dock state holds one
/// more of that tab, behind the other tabs of that leaf and active there. The leaf has the focus of
/// its tree then. Every other leaf stays as it is, and so does the surface that has the focus.
#[verifier::external_body]
fn dock_push(tree: &mut DockState<Tab>, tab: Tab)
    requires
        in_order(*old(tree)),
    ensures
        tabs_of(*final(tree)) == tabs_of(*old(tree)).insert(tab),
        tab_added(*old(tree), *final(tree), tab),
        in_order(*final(tree)),
{
    tree.push_to_focused_leaf(tab)
}

/// Whether `after` is `before` with `tab` added to the leaf that it goes to, which then has the
/// focus of its tree.
pub open spec fn tab_added(before: DockState<Tab>, after: DockState<Tab>, tab: Tab) -> bool {
    &&& exists|s: int, n: int|
        {
            &&& #[trigger] lands_at(
                leaves_of(before),
                focused_surface_of(before),
                focus_of(before),
                s,
                n,
            )
            &&& leaves_of(after) == with_tab(leaves_of(before), s, n, tab)
            &&& focus_of(after) == focus_of(before).insert(s, n)
        }
    &&& focused_surface_of(after) == focused_surface_of(before)
}

/// Whether `after` is `before` with the first place of `tab` taken out.
pub open spec fn tab_removed(before: DockState<Tab>, after: DockState<Tab>, tab: Tab) -> bool {
    exists|s: int, n: int, i: int|
        {
            &&& #[trigger] first_place(leaves_of(before), tab, s, n, i)
            &&& tab_taken(leaves_of(before), leaves_of(after), s, n, i)
            &&& focus_follows(before, after, s, n)
        }
}

/// The tabs that are shown once the user has toggled `tab` where `shown` are shown: one that is
/// shown is taken away, one that is not is added.
pub open spec fn toggled(shown: Multiset<Tab>, tab: Tab) -> Multiset<Tab> {
    if shown.count(tab) > 0 {
        shown.remove(tab)
    } else {
        shown.insert(tab)
    }
}

/// The tabs that the view menu lists.
pub open spec fn menu() -> Seq<Tab> {
    Tab::all().filter(|tab: Tab| tab.addable())
}

/// The tabs that the view menu lists, in order.
pub fn menu_tabs() -> (r: Vec<Tab>)
    ensures
        r@ == menu(),
{
    let all = Tab::iter();
    let mut r: Vec<Tab> = Vec::new();
    let mut i: usize = 0;
    let ghost addable = |tab: Tab| tab.addable();
    assert(all@.take(0).filter(addable) =~= Seq::<Tab>::empty()) by {
        reveal(Seq::filter);
    }
    while i < all.len()
        invariant
            all@ == Tab::all(),
            i <= all.len(),
            addable == (|tab: Tab| tab.addable()),
            r@ == all@.take(i as int).filter(addable),
        decreases all.len() - i,
    {
        let tab = all[i];
        proof {
            reveal(Seq::filter);
            assert(all@.take(i + 1).drop_last() =~= all@.take(i as int));
        }
        if tab.can_be_added() {
            r.push(tab);
        }
        i += 1;
    }
    assert(all@.take(all.len() as int) =~= all@);
    r
}

/// The layout that the window starts with: the modem tab alone.
pub fn initial_layout() -> (r: DockState<Tab>)
    ensures
        tabs_of(r) == Multiset::<Tab>::singleton(Tab::ModemConnection),
        leaves_of(r) == single_leaf(Tab::ModemConnection),
        focused_surface_of(r) is None,
        (focus_of(r) == Map::<int, int>::empty()),
        in_order(r),
{
    dock_new(Tab::ModemConnection)
}

/// Whether a tab is shown.
pub fn is_visible(tree: &DockState<Tab>, tab: Tab) -> (r: bool)
    ensures
        r == (tabs_of(*tree).count(tab) > 0),
{
    dock_find(tree, tab).is_some()
}

/// Toggles a tab: takes it away if it is shown, and adds it if it is not, to the leaf that has the
/// focus and as the active tab there.
pub fn toggle_tab(tree: &mut DockState<Tab>, tab: Tab)
    requires
        in_order(*old(tree)),
    ensures
        tabs_of(*final(tree)) == toggled(tabs_of(*old(tree)), tab),
        if tabs_of(*old(tree)).count(tab) > 0 {
            tab_removed(*old(tree), *final(tree), tab)
        } else {
            tab_added(*old(tree), *final(tree), tab)
        },
        in_order(*final(tree)),
{
    // Look for the tab in the current tree
    match dock_find(tree, tab) {
        // The tab already exists, remove it
        Some((surface, node, index)) => {
            let _ = dock_remove(tree, surface, node, index);
        },
        // The tab doesn't exist, add it
        None => {
            dock_push(tree, tab);
        },
    }
}

/// The tabs that are shown once the user has toggled each of `picks`, one after the other.
pub open spec fn toggled_all(shown: Multiset<Tab>, picks: Seq<Tab>) -> Multiset<Tab>
    decreases picks.len(),
{
    if picks.len() == 0 {
        shown
    } else {
        toggled(toggled_all(shown, picks.drop_last()), picks.last())
    }
}

/// The view menu lists every tab but the welcome tab.
pub proof fn menu_lists_all_but_welcome()
    ensures
        menu() == seq![Tab::ModemConnection, Tab::Monitor],
        forall|tab: Tab| #[trigger] menu().contains(tab) <==> tab != Tab::Welcome,
{
    reveal(Seq::filter);
    let addable = |tab: Tab| tab.addable();
    let all = Tab::all();
    assert(all.drop_last().drop_last().drop_last() =~= Seq::<Tab>::empty());
    assert(all.drop_last().drop_last().drop_last().filter(addable) =~= Seq::<Tab>::empty());
    assert(all.drop_last().drop_last().filter(addable) =~= Seq::<Tab>::empty());
    assert(all.drop_last().filter(addable) =~= seq![Tab::ModemConnection]);
    assert(menu() =~= seq![Tab::ModemConnection, Tab::Monitor]);
    assert(menu()[0] == Tab::ModemConnection);
    assert(menu()[1] == Tab::Monitor);
}

/// Toggling a tab changes nothing about the other tabs, and changes whether it is shown itself, if
/// it was not shown more than once.
pub proof fn toggling_changes_one_tab(shown: Multiset<Tab>, tab: Tab, other: Tab)
    requires
        tab != other,
    ensures
        toggled(shown, tab).count(other) == shown.count(other),
        shown.count(tab) <= 1 ==> toggled(shown, tab).count(tab) == 1 - shown.count(tab),
{
}

/// Toggling a tab twice shows what was shown before, if it was not shown more than once.
pub proof fn toggling_twice_restores(shown: Multiset<Tab>, tab: Tab)
    requires
        shown.count(tab) <= 1,
    ensures
        toggled(toggled(shown, tab), tab) == shown,
{
    assert(toggled(toggled(shown, tab), tab) =~= shown);
}

/// Where no tab is shown twice and the welcome tab is not shown, as in the initial layout, whatever
/// is picked from the view menu leaves it so.
pub proof fn menu_shows_tabs_once(shown: Multiset<Tab>, picks: Seq<Tab>, tab: Tab)
    requires
        forall|other: Tab| #[trigger] shown.count(other) <= 1,
        shown.count(Tab::Welcome) == 0,
        forall|i: int| 0 <= i < picks.len() ==> menu().contains(#[trigger] picks[i]),
    ensures
        toggled_all(shown, picks).count(tab) <= 1,
        toggled_all(shown, picks).count(Tab::Welcome) == 0,
    decreases picks.len(),
{
    menu_lists_all_but_welcome();
    if picks.len() > 0 {
        let pick = picks.last();
        assert(menu().contains(picks[picks.len() - 1]));
        menu_shows_tabs_once(shown, picks.drop_last(), tab);
        menu_shows_tabs_once(shown, picks.drop_last(), pick);
    }
}

/// Toggling takes one of a tab away where it is shown, and shows one where it is not. For no other
/// tab anything changes.
pub proof fn toggling_counts_so(shown: Multiset<Tab>, tab: Tab, other: Tab)
    ensures
        shown.count(tab) == 0 ==> toggled(shown, tab).count(tab) == 1,
        shown.count(tab) > 0 ==> toggled(shown, tab).count(tab) == shown.count(tab) - 1,
        other != tab ==> toggled(shown, tab).count(other) == shown.count(other),
{
}

/// Tabs are toggled one after the other.
pub proof fn tabs_are_toggled_in_order(shown: Multiset<Tab>, picks: Seq<Tab>, pick: Tab)
    ensures
        toggled_all(shown, Seq::<Tab>::empty()) == shown,
        toggled_all(shown, picks.push(pick)) == toggled(toggled_all(shown, picks), pick),
{
    assert(picks.push(pick).drop_last() =~= picks);
}

/// A single leaf is at the root of the main surface, and has one tab, which is active.
pub proof fn a_single_leaf_is_so(tab: Tab, s: int, n: int)
    ensures
        single_leaf(tab).contains_key((s, n)) <==> s == 0 && n == 0,
        single_leaf(tab)[(0, 0)].0 == seq![tab],
        single_leaf(tab)[(0, 0)].1 == 0,
{
}

/// A tab that is added to a leaf that has the focus comes behind the tabs that are there and is the
/// active one. No other leaf changes, and the focus stays on this one.
pub proof fn an_added_tab_joins_the_focused_leaf(
    before: DockState<Tab>,
    after: DockState<Tab>,
    tab: Tab,
    s: int,
    n: int,
    key: (int, int),
)
    requires
        tab_added(before, after, tab),
        focused_surface_of(before) == Some(s) || focused_surface_of(before) is None && s == 0,
        leaves_of(before).contains_key((s, n)),
        focus_of(before).contains_key(s),
        focus_of(before)[s] == n,
        key != (s, n),
    ensures
        leaves_of(after).contains_key((s, n)),
        leaves_of(after)[(s, n)].0 == leaves_of(before)[(s, n)].0.push(tab),
        leaves_of(after)[(s, n)].1 == leaves_of(before)[(s, n)].0.len(),
        leaves_of(after).contains_key(key) <==> leaves_of(before).contains_key(key),
        leaves_of(before).contains_key(key) ==> leaves_of(after)[key] == leaves_of(before)[key],
        focused_surface_of(after) == focused_surface_of(before),
        focus_of(after)[s] == n,
{
    assert(has_leaf(leaves_of(before), s));
}

/// Where no leaf of the surface has the focus, a tab that is added joins the first leaf, and has the
/// focus there.
pub proof fn an_added_tab_joins_the_first_leaf(
    before: DockState<Tab>,
    after: DockState<Tab>,
    tab: Tab,
    s: int,
    n: int,
    key: (int, int),
)
    requires
        tab_added(before, after, tab),
        focused_surface_of(before) == Some(s) || focused_surface_of(before) is None && s == 0,
        leaves_of(before).contains_key((s, n)),
        forall|m: int| #[trigger] leaves_of(before).contains_key((s, m)) ==> n <= m,
        !focus_of(before).contains_key(s),
        key != (s, n),
    ensures
        leaves_of(after).contains_key((s, n)),
        leaves_of(after)[(s, n)].0 == leaves_of(before)[(s, n)].0.push(tab),
        leaves_of(after)[(s, n)].1 == leaves_of(before)[(s, n)].0.len(),
        leaves_of(after).contains_key(key) <==> leaves_of(before).contains_key(key),
        leaves_of(before).contains_key(key) ==> leaves_of(after)[key] == leaves_of(before)[key],
        focused_surface_of(after) == focused_surface_of(before),
        focus_of(after)[s] == n,
{
    assert(has_leaf(leaves_of(before), s));
}

/// Where the surface has no leaf, a tab that is added is alone and active in a new leaf at the root.
pub proof fn an_added_tab_makes_a_leaf(
    before: DockState<Tab>,
    after: DockState<Tab>,
    tab: Tab,
    s: int,
    key: (int, int),
)
    requires
        tab_added(before, after, tab),
        focused_surface_of(before) == Some(s) || focused_surface_of(before) is None && s == 0,
        forall|m: int| !#[trigger] leaves_of(before).contains_key((s, m)),
        key != (s, 0int),
    ensures
        leaves_of(after).contains_key((s, 0)),
        leaves_of(after)[(s, 0)].0 == seq![tab],
        leaves_of(after)[(s, 0)].1 == 0,
        leaves_of(after).contains_key(key) <==> leaves_of(before).contains_key(key),
        leaves_of(before).contains_key(key) ==> leaves_of(after)[key] == leaves_of(before)[key],
        focused_surface_of(after) == focused_surface_of(before),
        focus_of(after)[s] == 0,
{
    assert(!has_leaf(leaves_of(before), s));
    assert(leaves_of(after)[(s, 0)].0 =~= seq![tab]);
}

/// A tab that is taken away leaves from its first place, and the other tabs of a leaf with more than
/// one stay there in order. No other leaf changes then, and the focus stays.
pub proof fn a_removed_tab_leaves_its_first_place(
    before: DockState<Tab>,
    after: DockState<Tab>,
    tab: Tab,
    s: int,
    n: int,
    i: int,
    key: (int, int),
)
    requires
        tab_removed(before, after, tab),
        leaves_of(before).contains_key((s, n)),
        0 <= i < leaves_of(before)[(s, n)].0.len(),
        leaves_of(before)[(s, n)].0[i] == tab,
        forall|t: int, m: int, j: int|
            leaves_of(before).contains_key((t, m)) && 0 <= j < leaves_of(before)[(t, m)].0.len()
                && #[trigger] leaves_of(before)[(t, m)].0[j] == tab ==> s < t || (s == t && (n < m
                || (n == m && i <= j))),
        leaves_of(before)[(s, n)].0.len() > 1,
        key != (s, n),
    ensures
        leaves_of(after).contains_key((s, n)),
        leaves_of(after)[(s, n)].0 == leaves_of(before)[(s, n)].0.remove(i),
        leaves_of(after).contains_key(key) <==> leaves_of(before).contains_key(key),
        leaves_of(before).contains_key(key) ==> leaves_of(after)[key] == leaves_of(before)[key],
        focused_surface_of(after) == focused_surface_of(before),
        focus_of(after) == focus_of(before),
{
    assert(holds(leaves_of(before), tab, s, n, i));
    let (t, m, j) = choose|t: int, m: int, j: int|
        {
            &&& #[trigger] first_place(leaves_of(before), tab, t, m, j)
            &&& tab_taken(leaves_of(before), leaves_of(after), t, m, j)
            &&& focus_follows(before, after, t, m)
        };
    assert(holds(leaves_of(before), tab, t, m, j));
    assert(leaves_of(before)[(t, m)].0[j] == tab);
    assert(t == s && m == n && j == i);
}

/// A leaf goes with its last tab: the leaf beside it takes the place of their parent, and the leaves
/// of the other surfaces stay as they are.
pub proof fn a_leaf_goes_with_its_last_tab(
    before: DockState<Tab>,
    after: DockState<Tab>,
    tab: Tab,
    s: int,
    n: int,
    t: int,
    m: int,
)
    requires
        tab_removed(before, after, tab),
        leaves_of(before).contains_key((s, n)),
        leaves_of(before)[(s, n)].0 == seq![tab],
        forall|a: int, b: int, j: int|
            leaves_of(before).contains_key((a, b)) && 0 <= j < leaves_of(before)[(a, b)].0.len()
                && #[trigger] leaves_of(before)[(a, b)].0[j] == tab ==> a == s && b == n,
        t != s,
    ensures
        leaves_of(after).contains_key((t, m)) <==> leaves_of(before).contains_key((t, m)),
        leaves_of(before).contains_key((t, m)) ==> leaves_of(after)[(t, m)] == leaves_of(before)[(
            t,
            m,
        )],
        n > 0 && n % 2 == 1 && leaves_of(before).contains_key((s, n + 1)) ==> leaves_of(after)[(
            s,
            (n - 1) / 2,
        )] == leaves_of(before)[(s, n + 1)],
        n > 0 && n % 2 == 0 && leaves_of(before).contains_key((s, n - 1)) ==> leaves_of(after)[(
            s,
            (n - 1) / 2,
        )] == leaves_of(before)[(s, n - 1)],
        forall|k: int|
            #![trigger leaves_of(after).contains_key((s, k))]
            n == 0 && (forall|b: int| #[trigger]
                leaves_of(before).contains_key((s, b)) ==> b == n) ==> !leaves_of(
                after,
            ).contains_key((s, k)),
{
    assert(leaves_of(before)[(s, n)].0[0] == tab);
    assert(holds(leaves_of(before), tab, s, n, 0));
    let (a, b, j) = choose|a: int, b: int, j: int|
        {
            &&& #[trigger] first_place(leaves_of(before), tab, a, b, j)
            &&& tab_taken(leaves_of(before), leaves_of(after), a, b, j)
            &&& focus_follows(before, after, a, b)
        };
    assert(holds(leaves_of(before), tab, a, b, j));
    assert(leaves_of(before)[(a, b)].0[j] == tab);
    assert(a == s && b == n);
    assert(leaves_of(before)[(s, n)].0.len() == 1);
    if n > 0 {
        assert(n % 2 == 1 ==> lifted(n + 1, n) == (n - 1) / 2);
        assert(n % 2 == 0 ==> lifted(n - 1, n) == (n - 1) / 2);
    }
}

/// Where a leaf goes, the node beside it takes the place of their parent, and every other node stays
/// the same child of the same parent, wherever that is then.
pub proof fn nodes_move_with_their_parents(node: int, gone: int)
    requires
        gone > 0,
        node >= 0,
    ensures
        lifted(0, gone) == 0,
        gone % 2 == 1 ==> lifted(gone + 1, gone) == (gone - 1) / 2,
        gone % 2 == 0 ==> lifted(gone - 1, gone) == (gone - 1) / 2,
        node != (gone - 1) / 2 ==> lifted(2 * node + 1, gone) == 2 * lifted(
            node,
            gone,
        ) + 1,
        node != (gone - 1) / 2 ==> lifted(2 * node + 2, gone) == 2 * lifted(
            node,
            gone,
        ) + 2,
{
    assert((2 * node + 1 - 1) / 2 == node);
    assert((2 * node + 2 - 1) / 2 == node);
}

} // verus!
