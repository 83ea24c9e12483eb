use terbulator::pane::layout::{
    Layout, LayoutNode, Rect, SplitDirection, RATIO_HALF, RATIO_MAX, RATIO_MIN,
};

fn window() -> Rect {
    Rect::new(0, 0, 100, 100)
}

fn shape(node: &LayoutNode) -> String {
    match node {
        LayoutNode::Leaf { pane_id } => format!("{}", pane_id),
        LayoutNode::Branch { direction, ratio, first, second } => format!(
            "({:?} {} {} {})",
            direction,
            ratio,
            shape(first),
            shape(second)
        ),
    }
}

#[test]
fn layout_starts_with_pane_zero() {
    let mut layout = Layout::new();
    assert_eq!(shape(layout.root()), "0");
    assert_eq!(layout.all_pane_ids(), vec![0]);
    assert_eq!(layout.calculate_rects(window()), vec![(0, window())]);
    assert_eq!(layout.peek_next_id(), 1);
    assert_eq!(layout.next_id(), 1);
    assert_eq!(layout.next_id(), 2);
    assert_eq!(shape(Layout::default().root()), "0");
}

#[test]
fn layout_split_scenario() {
    let mut layout = Layout::new();
    assert_eq!(layout.split_pane_with_ratio(0, SplitDirection::Horizontal, RATIO_HALF), Some(1));
    assert_eq!(
        layout.calculate_rects(window()),
        vec![(0, Rect::new(0, 0, 100, 50)), (1, Rect::new(0, 50, 100, 50))]
    );
    assert_eq!(layout.split_pane_with_ratio(1, SplitDirection::Vertical, RATIO_HALF), Some(2));
    assert_eq!(
        layout.calculate_rects(window()),
        vec![
            (0, Rect::new(0, 0, 100, 50)),
            (1, Rect::new(0, 50, 50, 50)),
            (2, Rect::new(50, 50, 50, 50)),
        ]
    );
    assert_eq!(layout.all_pane_ids(), vec![0, 1, 2]);
}

#[test]
fn split_pane_uses_one_half() {
    let mut layout = Layout::new();
    assert_eq!(layout.split_pane(0, SplitDirection::Vertical), Some(1));
    assert_eq!(shape(layout.root()), "(Vertical 500000 0 1)");
}

#[test]
fn split_of_an_unknown_pane_fails_and_uses_up_an_id() {
    let mut layout = Layout::new();
    assert_eq!(layout.split_pane(7, SplitDirection::Vertical), None);
    assert_eq!(shape(layout.root()), "0");
    assert_eq!(layout.split_pane(0, SplitDirection::Vertical), Some(2));
    assert_eq!(layout.all_pane_ids(), vec![0, 2]);
}

#[test]
fn split_ratios_are_held_to_their_range() {
    let mut layout = Layout::new();
    layout.split_pane_with_ratio(0, SplitDirection::Horizontal, 0);
    assert_eq!(shape(layout.root()), "(Horizontal 100000 0 1)");
    assert_eq!(
        layout.calculate_rects(window()),
        vec![(0, Rect::new(0, 0, 100, 10)), (1, Rect::new(0, 10, 100, 90))]
    );
    layout.split_pane_with_ratio(1, SplitDirection::Vertical, 2000000);
    assert_eq!(shape(layout.root()), "(Horizontal 100000 0 (Vertical 900000 1 2))");
    assert_eq!(
        layout.calculate_rects(window()),
        vec![
            (0, Rect::new(0, 0, 100, 10)),
            (1, Rect::new(0, 10, 90, 90)),
            (2, Rect::new(90, 10, 10, 90)),
        ]
    );
    let mut edges = Layout::new();
    edges.split_pane_with_ratio(0, SplitDirection::Vertical, RATIO_MIN);
    edges.split_pane_with_ratio(1, SplitDirection::Vertical, RATIO_MAX);
    assert_eq!(shape(edges.root()), "(Vertical 100000 0 (Vertical 900000 1 2))");
}

#[test]
fn first_part_is_rounded_down() {
    let mut layout = Layout::new();
    layout.split_pane_with_ratio(0, SplitDirection::Vertical, 333333);
    assert_eq!(
        layout.calculate_rects(Rect::new(5, 7, 10, 3)),
        vec![(0, Rect::new(5, 7, 3, 3)), (1, Rect::new(8, 7, 7, 3))]
    );
    assert_eq!(
        layout.calculate_rects(Rect::new(0, 0, 1, 1)),
        vec![(0, Rect::new(0, 0, 0, 1)), (1, Rect::new(0, 0, 1, 1))]
    );
}

#[test]
fn split_then_remove_gives_the_tree_back() {
    let mut layout = Layout::new();
    layout.split_pane_with_ratio(0, SplitDirection::Horizontal, 300000);
    layout.split_pane_with_ratio(0, SplitDirection::Vertical, 600000);
    let before = shape(layout.root());
    for target in [0usize, 1, 2] {
        let new_id = layout.split_pane_with_ratio(target, SplitDirection::Vertical, 400000).unwrap();
        assert!(before != shape(layout.root()));
        assert!(layout.remove_pane(new_id));
        assert_eq!(shape(layout.root()), before);
    }
}

#[test]
fn remove_puts_the_sibling_in_place_of_the_parent() {
    let mut layout = Layout::new();
    layout.split_pane(0, SplitDirection::Horizontal);
    layout.split_pane(1, SplitDirection::Vertical);
    assert_eq!(shape(layout.root()), "(Horizontal 500000 0 (Vertical 500000 1 2))");
    assert!(layout.remove_pane(0));
    assert_eq!(shape(layout.root()), "(Vertical 500000 1 2)");
    assert!(layout.remove_pane(2));
    assert_eq!(shape(layout.root()), "1");
}

#[test]
fn the_last_pane_and_unknown_panes_cannot_be_removed() {
    let mut layout = Layout::new();
    assert!(!layout.remove_pane(0));
    assert!(!layout.remove_pane(5));
    assert_eq!(shape(layout.root()), "0");
    layout.split_pane(0, SplitDirection::Horizontal);
    assert!(!layout.remove_pane(5));
    assert_eq!(shape(layout.root()), "(Horizontal 500000 0 1)");
}

#[test]
fn rects_follow_the_pane_ids_and_part_the_window() {
    let mut layout = Layout::new();
    layout.split_pane_with_ratio(0, SplitDirection::Horizontal, 700000);
    layout.split_pane_with_ratio(0, SplitDirection::Vertical, 333333);
    layout.split_pane_with_ratio(1, SplitDirection::Vertical, 500000);
    layout.split_pane_with_ratio(3, SplitDirection::Horizontal, 123456);
    let w = Rect::new(3, 4, 37, 23);
    let rects = layout.calculate_rects(w);
    let ids: Vec<usize> = rects.iter().map(|(id, _)| *id).collect();
    assert_eq!(ids, layout.all_pane_ids());
    for y in 0..40u32 {
        for x in 0..50u32 {
            let inside = x >= w.x && x < w.x + w.width && y >= w.y && y < w.y + w.height;
            let hits = rects
                .iter()
                .filter(|(_, r)| x >= r.x && x < r.x + r.width && y >= r.y && y < r.y + r.height)
                .count();
            assert_eq!(hits, if inside { 1 } else { 0 });
        }
    }
}

#[test]
fn borders_are_found_within_ten_pixels() {
    let mut layout = Layout::new();
    assert_eq!(layout.find_border_at(50, 50, window()), None);
    layout.split_pane(0, SplitDirection::Horizontal);
    assert_eq!(
        layout.find_border_at(3, 50, window()),
        Some((SplitDirection::Horizontal, 500000))
    );
    assert_eq!(
        layout.find_border_at(3, 40, window()),
        Some((SplitDirection::Horizontal, 500000))
    );
    assert_eq!(
        layout.find_border_at(3, 60, window()),
        Some((SplitDirection::Horizontal, 500000))
    );
    assert_eq!(layout.find_border_at(3, 39, window()), None);
    assert_eq!(layout.find_border_at(3, 61, window()), None);
}

#[test]
fn the_outermost_border_wins() {
    let mut layout = Layout::new();
    layout.split_pane(0, SplitDirection::Horizontal);
    layout.split_pane_with_ratio(1, SplitDirection::Horizontal, 200000);
    assert_eq!(
        layout.find_border_at(0, 60, window()),
        Some((SplitDirection::Horizontal, 500000))
    );
    assert_eq!(
        layout.find_border_at(0, 61, window()),
        Some((SplitDirection::Horizontal, 200000))
    );
    assert!(layout.update_split_ratio_at(0, 60, window(), 400000));
    assert_eq!(
        shape(layout.root()),
        "(Horizontal 400000 0 (Horizontal 200000 1 2))"
    );
}

#[test]
fn moving_a_border_clamps_the_ratio() {
    let mut layout = Layout::new();
    layout.split_pane(0, SplitDirection::Vertical);
    assert!(!layout.update_split_ratio_at(20, 0, window(), 300000));
    assert_eq!(shape(layout.root()), "(Vertical 500000 0 1)");
    assert!(layout.update_split_ratio_at(45, 0, window(), 5));
    assert_eq!(shape(layout.root()), "(Vertical 100000 0 1)");
    assert!(layout.update_split_ratio_at(10, 99, window(), 999999));
    assert_eq!(shape(layout.root()), "(Vertical 900000 0 1)");
    assert!(layout.update_split_ratio_at(90, 0, window(), 250000));
    assert_eq!(shape(layout.root()), "(Vertical 250000 0 1)");
    assert_eq!(
        layout.calculate_rects(window()),
        vec![(0, Rect::new(0, 0, 25, 100)), (1, Rect::new(25, 0, 75, 100))]
    );
}

#[test]
fn rectangles_that_fit() {
    assert!(Rect::new(0, 0, u32::MAX, u32::MAX).check_fits());
    assert!(!Rect::new(1, 0, u32::MAX, 0).check_fits());
    assert!(!Rect::new(0, u32::MAX, 0, 1).check_fits());
}
