use zellij::geometry::{Direction, Ratio, Rect, SplitDirection, MIN_PANE_COLS, MIN_PANE_ROWS};
use zellij::ids::{PaneId, TabId};
use zellij::layout::{move_edge, Closing, LayoutNode, Resizing};
use zellij::pane::{PaneKind, WindowSize};
use zellij::tab::{LayoutError, Tab};

fn leaf(n: u64) -> LayoutNode {
    LayoutNode::Leaf { pane: PaneId(n) }
}

fn rect(row: u16, col: u16, rows: u16, cols: u16) -> Rect {
    Rect { row, col, rows, cols }
}

fn tab_80x24() -> Tab {
    Tab::new(TabId(0), String::from("main"), Rect::sized(24, 80), PaneId(0), PaneKind::Terminal)
}

fn covering(tab: &Tab, r: u16, c: u16) -> usize {
    tab.panes
        .iter()
        .filter(|p| {
            p.rect.row <= r
                && r < p.rect.row + p.rect.rows
                && p.rect.col <= c
                && c < p.rect.col + p.rect.cols
        })
        .count()
}

fn assert_tiles(tab: &Tab) {
    for r in 0..tab.area.rows + 2 {
        for c in 0..tab.area.cols + 2 {
            let inside = r < tab.area.rows && c < tab.area.cols;
            assert_eq!(covering(tab, r, c), if inside { 1 } else { 0 }, "cell {} {}", r, c);
        }
    }
}

#[test]
fn half_of_an_even_extent() {
    assert_eq!(Ratio::half().share(80), 40);
}

#[test]
fn half_of_an_odd_extent_is_floored() {
    assert_eq!(Ratio::half().share(81), 40);
    assert_eq!(Ratio::half().share(1), 0);
    assert_eq!(Ratio::half().share(0), 0);
}

#[test]
fn share_of_a_third() {
    assert_eq!(Ratio { num: 1, den: 3 }.share(100), 33);
    assert_eq!(Ratio { num: 2, den: 3 }.share(100), 66);
    assert_eq!(Ratio { num: 65534, den: 65535 }.share(65535), 65534);
}

#[test]
fn vertical_split_gives_the_remainder_to_the_right() {
    let parts = rect(2, 3, 10, 81).split(SplitDirection::Vertical, Ratio::half());
    assert_eq!(parts.0, rect(2, 3, 10, 40));
    assert_eq!(parts.1, rect(2, 43, 10, 41));
}

#[test]
fn horizontal_split_gives_the_remainder_to_the_bottom() {
    let parts = rect(0, 0, 25, 80).split(SplitDirection::Horizontal, Ratio::half());
    assert_eq!(parts.0, rect(0, 0, 12, 80));
    assert_eq!(parts.1, rect(12, 0, 13, 80));
}

#[test]
fn minimum_pane_size() {
    assert_eq!(MIN_PANE_COLS, 5);
    assert_eq!(MIN_PANE_ROWS, 3);
    assert!(rect(0, 0, 3, 5).is_roomy());
    assert!(!rect(0, 0, 2, 5).is_roomy());
    assert!(!rect(0, 0, 3, 4).is_roomy());
}

#[test]
fn rectangles_abut_where_they_share_an_edge() {
    let a = rect(0, 0, 10, 40);
    let right = rect(0, 40, 10, 40);
    let below = rect(10, 0, 10, 40);
    let corner = rect(10, 40, 10, 40);
    assert!(a.is_abutting(&right, Direction::Right));
    assert!(right.is_abutting(&a, Direction::Left));
    assert!(a.is_abutting(&below, Direction::Down));
    assert!(below.is_abutting(&a, Direction::Up));
    assert!(!a.is_abutting(&corner, Direction::Right));
    assert!(!a.is_abutting(&corner, Direction::Down));
    assert!(!a.is_abutting(&right, Direction::Left));
    assert!(!a.is_abutting(&rect(0, 40, 0, 40), Direction::Right));
}

#[test]
fn midpoint_gap_in_half_cells() {
    let a = rect(0, 0, 10, 40);
    assert_eq!(a.gap_to(&rect(0, 40, 10, 40), Direction::Right), 0);
    assert_eq!(a.gap_to(&rect(0, 40, 4, 40), Direction::Right), 6);
    assert_eq!(a.gap_to(&rect(6, 40, 4, 40), Direction::Right), 6);
    assert_eq!(a.gap_to(&rect(10, 10, 5, 10), Direction::Down), 10);
}

#[test]
fn move_edge_moves_by_delta() {
    let r = move_edge(80, Ratio::half(), -5, SplitDirection::Vertical);
    assert_eq!(r, Ratio { num: 35, den: 80 });
    assert_eq!(r.share(80), 35);
    let r = move_edge(80, r, 5, SplitDirection::Vertical);
    assert_eq!(r.share(80), 40);
}

#[test]
fn move_edge_stops_at_the_minimum() {
    assert_eq!(move_edge(80, Ratio::half(), -100, SplitDirection::Vertical).share(80), 5);
    assert_eq!(move_edge(80, Ratio::half(), 100, SplitDirection::Vertical).share(80), 75);
    assert_eq!(move_edge(24, Ratio::half(), -100, SplitDirection::Horizontal).share(24), 3);
    assert_eq!(move_edge(24, Ratio::half(), 100, SplitDirection::Horizontal).share(24), 21);
}

#[test]
fn move_edge_stays_without_room_for_two() {
    let r = move_edge(9, Ratio::half(), 1, SplitDirection::Vertical);
    assert_eq!(r, Ratio::half());
    let r = move_edge(5, Ratio::half(), -1, SplitDirection::Horizontal);
    assert_eq!(r, Ratio::half());
}

#[test]
fn tree_split_puts_the_new_pane_after_the_old() {
    let mut tree = leaf(0);
    assert!(tree.split(PaneId(0), SplitDirection::Vertical, PaneId(1)));
    assert!(tree.split(PaneId(0), SplitDirection::Horizontal, PaneId(2)));
    assert_eq!(tree.panes(), vec![PaneId(0), PaneId(2), PaneId(1)]);
    assert_eq!(tree.leaf_count(), 3);
    assert!(tree.has(PaneId(2)));
    assert!(!tree.has(PaneId(3)));
    assert_eq!(tree.leaf_pane(), None);
    assert_eq!(leaf(4).leaf_pane(), Some(PaneId(4)));
}

#[test]
fn tree_split_of_a_missing_pane_changes_nothing() {
    let mut tree = leaf(0);
    assert!(!tree.split(PaneId(9), SplitDirection::Vertical, PaneId(1)));
    assert_eq!(tree, leaf(0));
}

#[test]
fn tree_layout_follows_the_splits() {
    let mut tree = leaf(0);
    tree.split(PaneId(0), SplitDirection::Vertical, PaneId(1));
    tree.split(PaneId(1), SplitDirection::Horizontal, PaneId(2));
    assert_eq!(
        tree.layout(Rect::sized(24, 80)),
        vec![rect(0, 0, 24, 40), rect(0, 40, 12, 40), rect(12, 40, 12, 40)]
    );
}

#[test]
fn tree_close_promotes_the_sibling() {
    let mut tree = leaf(0);
    tree.split(PaneId(0), SplitDirection::Vertical, PaneId(1));
    tree.split(PaneId(1), SplitDirection::Horizontal, PaneId(2));
    assert_eq!(tree.close(PaneId(0)), Closing::Closed);
    assert_eq!(tree.panes(), vec![PaneId(1), PaneId(2)]);
    assert_eq!(tree.layout(Rect::sized(24, 80)), vec![rect(0, 0, 12, 80), rect(12, 0, 12, 80)]);
}

#[test]
fn tree_close_of_the_only_pane_and_of_a_missing_one() {
    let mut tree = leaf(0);
    assert_eq!(tree.close(PaneId(0)), Closing::Last);
    assert_eq!(tree, leaf(0));
    assert_eq!(tree.close(PaneId(1)), Closing::Absent);
    assert_eq!(tree, leaf(0));
}

#[test]
fn split_then_close_restores_the_tree() {
    let mut tree = leaf(0);
    tree.split(PaneId(0), SplitDirection::Vertical, PaneId(1));
    tree.split(PaneId(1), SplitDirection::Horizontal, PaneId(2));
    tree.resize(PaneId(2), SplitDirection::Vertical, 7, Rect::sized(24, 80));
    let before = format!("{:?}", tree);
    for pane in [0u64, 1, 2] {
        for direction in [SplitDirection::Horizontal, SplitDirection::Vertical] {
            assert!(tree.split(PaneId(pane), direction, PaneId(9)));
            assert_eq!(tree.close(PaneId(9)), Closing::Closed);
            assert_eq!(format!("{:?}", tree), before);
        }
    }
}

#[test]
fn tree_resize_moves_the_nearest_matching_split() {
    let area = Rect::sized(24, 80);
    let mut tree = leaf(0);
    tree.split(PaneId(0), SplitDirection::Vertical, PaneId(1));
    tree.split(PaneId(1), SplitDirection::Horizontal, PaneId(2));
    assert_eq!(tree.resize(PaneId(2), SplitDirection::Vertical, -5, area), Resizing::Moved);
    assert_eq!(
        tree.layout(area),
        vec![rect(0, 0, 24, 35), rect(0, 35, 12, 45), rect(12, 35, 12, 45)]
    );
    assert_eq!(tree.resize(PaneId(2), SplitDirection::Horizontal, 2, area), Resizing::Moved);
    assert_eq!(
        tree.layout(area),
        vec![rect(0, 0, 24, 35), rect(0, 35, 14, 45), rect(14, 35, 10, 45)]
    );
    assert_eq!(tree.resize(PaneId(0), SplitDirection::Horizontal, 2, area), Resizing::Unmoved);
    assert_eq!(tree.resize(PaneId(7), SplitDirection::Horizontal, 2, area), Resizing::Absent);
}

#[test]
fn resize_there_and_back_restores_the_rectangles() {
    let area = Rect::sized(24, 80);
    let mut tree = leaf(0);
    tree.split(PaneId(0), SplitDirection::Vertical, PaneId(1));
    tree.split(PaneId(1), SplitDirection::Horizontal, PaneId(2));
    tree.split(PaneId(0), SplitDirection::Horizontal, PaneId(3));
    let before = tree.layout(area);
    for k in [1, 5, 13, 30] {
        tree.resize(PaneId(2), SplitDirection::Vertical, k, area);
        tree.resize(PaneId(2), SplitDirection::Vertical, -k, area);
        assert_eq!(tree.layout(area), before);
        tree.resize(PaneId(3), SplitDirection::Horizontal, -k.min(8), area);
        tree.resize(PaneId(3), SplitDirection::Horizontal, k.min(8), area);
        assert_eq!(tree.layout(area), before);
    }
}

#[test]
fn resize_that_is_stopped_does_not_come_back() {
    let area = Rect::sized(24, 80);
    let mut tree = leaf(0);
    tree.split(PaneId(0), SplitDirection::Vertical, PaneId(1));
    tree.resize(PaneId(0), SplitDirection::Vertical, 50, area);
    assert_eq!(tree.layout(area), vec![rect(0, 0, 24, 75), rect(0, 75, 24, 5)]);
    tree.resize(PaneId(0), SplitDirection::Vertical, -50, area);
    assert_eq!(tree.layout(area), vec![rect(0, 0, 24, 25), rect(0, 25, 24, 55)]);
}

#[test]
fn sibling_of_a_pane() {
    let mut tree = leaf(0);
    tree.split(PaneId(0), SplitDirection::Vertical, PaneId(1));
    tree.split(PaneId(1), SplitDirection::Horizontal, PaneId(2));
    assert_eq!(tree.sibling_of(PaneId(0)), (0, 2));
    assert_eq!(tree.sibling_of(PaneId(1)), (1, 1));
    assert_eq!(tree.sibling_of(PaneId(2)), (1, 1));
    assert_eq!(tree.sibling_of(PaneId(5)), (0, 0));
}

#[test]
fn tab_split_halves_the_pane() {
    let mut tab = tab_80x24();
    let updates = tab.split(PaneId(0), SplitDirection::Vertical, PaneId(1), PaneKind::Terminal);
    assert_eq!(updates, Ok(vec![WindowSize { pane: PaneId(0), rows: 24, cols: 40 }]));
    assert_eq!(tab.panes[0].rect, rect(0, 0, 24, 40));
    assert_eq!(tab.panes[1].rect, rect(0, 40, 24, 40));
    assert_eq!(tab.panes[1].id, PaneId(1));
    assert_eq!(tab.focused, PaneId(1));
    assert_eq!(tab.panes[0].screen.cols(), 40);
    assert_eq!(tab.panes[1].screen.rows(), 24);
}

#[test]
fn tab_split_errors() {
    let mut tab = tab_80x24();
    assert_eq!(
        tab.split(PaneId(7), SplitDirection::Vertical, PaneId(1), PaneKind::Terminal),
        Err(LayoutError::NoSuchPane)
    );
    assert_eq!(
        tab.split(PaneId(0), SplitDirection::Vertical, PaneId(0), PaneKind::Terminal),
        Err(LayoutError::PaneExists)
    );
    assert_eq!(tab.close(PaneId(0)), Err(LayoutError::LastPane));
    assert_eq!(tab.close(PaneId(3)), Err(LayoutError::NoSuchPane));
    assert_eq!(tab.resize(PaneId(3), SplitDirection::Vertical, 1), Err(LayoutError::NoSuchPane));
    assert_eq!(tab.panes.len(), 1);
    assert_eq!(tab.tree, leaf(0));
}

#[test]
fn splitting_below_the_minimum_fails_and_changes_nothing() {
    let mut tab =
        Tab::new(TabId(0), String::from("t"), Rect::sized(5, 9), PaneId(0), PaneKind::Terminal);
    assert_eq!(
        tab.split(PaneId(0), SplitDirection::Vertical, PaneId(1), PaneKind::Terminal),
        Err(LayoutError::ResizeTooSmall)
    );
    assert_eq!(
        tab.split(PaneId(0), SplitDirection::Horizontal, PaneId(1), PaneKind::Terminal),
        Err(LayoutError::ResizeTooSmall)
    );
    assert_eq!(tab.tree, leaf(0));
    assert_eq!(tab.panes.len(), 1);
    assert_eq!(tab.focused, PaneId(0));
    let mut tab =
        Tab::new(TabId(0), String::from("t"), Rect::sized(6, 10), PaneId(0), PaneKind::Terminal);
    assert!(tab.split(PaneId(0), SplitDirection::Vertical, PaneId(1), PaneKind::Terminal).is_ok());
    assert_eq!(
        tab.split(PaneId(0), SplitDirection::Vertical, PaneId(2), PaneKind::Terminal),
        Err(LayoutError::ResizeTooSmall)
    );
    assert!(tab.split(PaneId(0), SplitDirection::Horizontal, PaneId(2), PaneKind::Terminal).is_ok());
    assert_eq!(
        tab.split(PaneId(0), SplitDirection::Horizontal, PaneId(3), PaneKind::Terminal),
        Err(LayoutError::ResizeTooSmall)
    );
}

#[test]
fn panes_tile_the_tab_after_every_operation() {
    let mut tab = tab_80x24();
    assert_tiles(&tab);
    tab.split(PaneId(0), SplitDirection::Vertical, PaneId(1), PaneKind::Terminal).unwrap();
    assert_tiles(&tab);
    tab.split(PaneId(1), SplitDirection::Horizontal, PaneId(2), PaneKind::Terminal).unwrap();
    assert_tiles(&tab);
    tab.split(PaneId(0), SplitDirection::Horizontal, PaneId(3), PaneKind::Terminal).unwrap();
    assert_tiles(&tab);
    tab.resize(PaneId(3), SplitDirection::Vertical, 11).unwrap();
    assert_tiles(&tab);
    tab.resize(PaneId(2), SplitDirection::Horizontal, -4).unwrap();
    assert_tiles(&tab);
    tab.terminal_resize(31, 101);
    assert_tiles(&tab);
    tab.terminal_resize(3, 7);
    assert_tiles(&tab);
    tab.terminal_resize(24, 80);
    tab.close(PaneId(1)).unwrap();
    assert_tiles(&tab);
    tab.close(PaneId(0)).unwrap();
    assert_tiles(&tab);
}

#[test]
fn leaves_and_panes_correspond() {
    let mut tab = tab_80x24();
    tab.split(PaneId(0), SplitDirection::Vertical, PaneId(1), PaneKind::Terminal).unwrap();
    tab.split(PaneId(1), SplitDirection::Horizontal, PaneId(2), PaneKind::Terminal).unwrap();
    tab.close(PaneId(1)).unwrap();
    tab.split(PaneId(0), SplitDirection::Horizontal, PaneId(3), PaneKind::Terminal).unwrap();
    let leaves = tab.tree.panes();
    let panes: Vec<PaneId> = tab.panes.iter().map(|p| p.id).collect();
    assert_eq!(leaves, panes);
    assert_eq!(leaves, vec![PaneId(0), PaneId(3), PaneId(2)]);
    for pane in &panes {
        assert_eq!(leaves.iter().filter(|l| *l == pane).count(), 1);
    }
}

#[test]
fn tab_close_passes_the_focus_to_the_sibling() {
    let mut tab = tab_80x24();
    tab.split(PaneId(0), SplitDirection::Vertical, PaneId(1), PaneKind::Terminal).unwrap();
    tab.split(PaneId(1), SplitDirection::Horizontal, PaneId(2), PaneKind::Terminal).unwrap();
    assert_eq!(tab.focused, PaneId(2));
    let updates = tab.close(PaneId(2)).unwrap();
    assert_eq!(updates, vec![WindowSize { pane: PaneId(1), rows: 24, cols: 40 }]);
    assert_eq!(tab.focused, PaneId(1));
    assert_eq!(tab.panes[1].rect, rect(0, 40, 24, 40));
    tab.split(PaneId(1), SplitDirection::Horizontal, PaneId(3), PaneKind::Terminal).unwrap();
    tab.focus_next();
    assert_eq!(tab.focused, PaneId(0));
    tab.close(PaneId(0)).unwrap();
    assert_eq!(tab.focused, PaneId(1));
    assert_eq!(tab.panes[0].rect, rect(0, 0, 12, 80));
    assert_eq!(tab.panes[1].rect, rect(12, 0, 12, 80));
}

#[test]
fn tab_close_of_an_unfocused_pane_keeps_the_focus() {
    let mut tab = tab_80x24();
    tab.split(PaneId(0), SplitDirection::Vertical, PaneId(1), PaneKind::Terminal).unwrap();
    tab.close(PaneId(0)).unwrap();
    assert_eq!(tab.focused, PaneId(1));
    assert_eq!(tab.panes[0].rect, rect(0, 0, 24, 80));
}

#[test]
fn focus_skips_panes_that_cannot_take_it() {
    let mut tab = tab_80x24();
    tab.split(PaneId(0), SplitDirection::Vertical, PaneId(1), PaneKind::Terminal).unwrap();
    tab.split(PaneId(1), SplitDirection::Vertical, PaneId(2), PaneKind::Terminal).unwrap();
    tab.panes[1].selectable = false;
    tab.focus_next();
    assert_eq!(tab.focused, PaneId(0));
    tab.focus_next();
    assert_eq!(tab.focused, PaneId(2));
    assert!(tab.move_focus(Direction::Left) == false);
    tab.panes[0].selectable = false;
    assert_eq!(tab.close(PaneId(2)), Err(LayoutError::LastPane));
}

#[test]
fn move_focus_picks_the_nearest_neighbor() {
    let mut tab = tab_80x24();
    tab.split(PaneId(0), SplitDirection::Vertical, PaneId(1), PaneKind::Terminal).unwrap();
    tab.split(PaneId(1), SplitDirection::Horizontal, PaneId(2), PaneKind::Terminal).unwrap();
    tab.split(PaneId(2), SplitDirection::Horizontal, PaneId(3), PaneKind::Terminal).unwrap();
    // 0 fills the left half; on the right, 1 has the rows 0 to 11, 2 the
    // rows 12 to 17 and 3 the rows 18 to 23. The midpoint of 0 is at row 12,
    // those of 1, 2 and 3 are at the rows 6, 15 and 21.
    assert_eq!(tab.focused, PaneId(3));
    assert!(tab.move_focus(Direction::Left));
    assert_eq!(tab.focused, PaneId(0));
    assert!(tab.move_focus(Direction::Right));
    assert_eq!(tab.focused, PaneId(2));
    assert!(tab.move_focus(Direction::Down));
    assert_eq!(tab.focused, PaneId(3));
    assert!(tab.move_focus(Direction::Up));
    assert_eq!(tab.focused, PaneId(2));
    assert!(tab.move_focus(Direction::Up));
    assert_eq!(tab.focused, PaneId(1));
    assert!(tab.move_focus(Direction::Left));
    assert_eq!(tab.focused, PaneId(0));
}

#[test]
fn move_focus_prefers_the_first_of_equally_near_neighbors() {
    let mut tab = tab_80x24();
    tab.split(PaneId(0), SplitDirection::Vertical, PaneId(1), PaneKind::Terminal).unwrap();
    tab.split(PaneId(1), SplitDirection::Horizontal, PaneId(2), PaneKind::Terminal).unwrap();
    // 1 and 2 share the right half evenly: both midpoints are 6 rows from that of 0.
    tab.focus_next();
    assert_eq!(tab.focused, PaneId(0));
    assert!(tab.move_focus(Direction::Right));
    assert_eq!(tab.focused, PaneId(1));
}

#[test]
fn move_focus_without_a_neighbor_changes_nothing() {
    let mut tab = tab_80x24();
    for direction in [Direction::Left, Direction::Right, Direction::Up, Direction::Down] {
        assert!(!tab.move_focus(direction));
        assert_eq!(tab.focused, PaneId(0));
    }
    tab.split(PaneId(0), SplitDirection::Vertical, PaneId(1), PaneKind::Terminal).unwrap();
    let before = format!("{:?}", tab.tree);
    assert!(!tab.move_focus(Direction::Right));
    assert!(!tab.move_focus(Direction::Up));
    assert!(!tab.move_focus(Direction::Down));
    assert_eq!(tab.focused, PaneId(1));
    assert_eq!(format!("{:?}", tab.tree), before);
    assert_eq!(tab.panes.len(), 2);
}

#[test]
fn terminal_resize_keeps_the_ratios() {
    let mut tab = tab_80x24();
    tab.split(PaneId(0), SplitDirection::Vertical, PaneId(1), PaneKind::Terminal).unwrap();
    let updates = tab.terminal_resize(30, 101);
    assert_eq!(
        updates,
        vec![
            WindowSize { pane: PaneId(0), rows: 30, cols: 50 },
            WindowSize { pane: PaneId(1), rows: 30, cols: 51 },
        ]
    );
    for pane in &tab.panes {
        assert_eq!(pane.screen.rows(), pane.rect.rows);
        assert_eq!(pane.screen.cols(), pane.rect.cols);
    }
    assert_eq!(tab.area, rect(0, 0, 30, 101));
}

#[test]
fn find_gives_the_place_in_layout_order() {
    let mut tab = tab_80x24();
    tab.split(PaneId(0), SplitDirection::Vertical, PaneId(1), PaneKind::Terminal).unwrap();
    tab.split(PaneId(0), SplitDirection::Vertical, PaneId(2), PaneKind::Terminal).unwrap();
    assert_eq!(tab.find(PaneId(0)), Some(0));
    assert_eq!(tab.find(PaneId(2)), Some(1));
    assert_eq!(tab.find(PaneId(1)), Some(2));
    assert_eq!(tab.find(PaneId(3)), None);
}
