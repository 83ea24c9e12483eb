use terbulator::pane::layout::{Rect, SplitDirection};
use terbulator::pane::manager::{choose_focus, Direction, PaneManager, PaneReport};

const CELL_W: u32 = 10_000;
const CELL_H: u32 = 20_000;

fn window() -> Rect {
    Rect::new(0, 0, 100, 100)
}

fn manager() -> PaneManager {
    PaneManager::new(80, 24, 100, "/bin/sh".to_string())
}

fn three_panes() -> PaneManager {
    let mut m = manager();
    assert_eq!(m.split_active_pane(SplitDirection::Horizontal, window(), CELL_W, CELL_H), Some(1));
    assert!(m.set_active_pane(1));
    assert_eq!(m.split_active_pane(SplitDirection::Vertical, window(), CELL_W, CELL_H), Some(2));
    m
}

fn size_of(m: &PaneManager, id: usize) -> (usize, usize) {
    let grid = m.pane(id).unwrap().terminal().grid();
    (grid.cols(), grid.rows())
}

#[test]
fn a_new_manager_has_pane_zero() {
    let m = manager();
    assert_eq!(m.active_pane_id(), 0);
    assert_eq!(m.layout().all_pane_ids(), vec![0]);
    assert_eq!(m.panes().len(), 1);
    assert_eq!(m.active_pane().unwrap().id(), 0);
    assert!(!m.active_pane().unwrap().is_active());
    assert!(m.pane(1).is_none());
    assert_eq!(size_of(&m, 0), (80, 24));
    assert!(!m.is_broadcast_enabled());
    assert_eq!(m.shell(), "/bin/sh");
    assert_eq!(m.scrollback(), 100);
    assert_eq!(m.active_pane_rect(window()), Some(window()));
}

#[test]
fn split_makes_a_pane_and_resizes_all() {
    let mut m = manager();
    assert_eq!(m.split_active_pane(SplitDirection::Horizontal, window(), CELL_W, CELL_H), Some(1));
    assert_eq!(m.layout().all_pane_ids(), vec![0, 1]);
    assert_eq!(size_of(&m, 0), (10, 2));
    assert_eq!(size_of(&m, 1), (10, 2));
    assert_eq!(m.active_pane_id(), 0);
    assert_eq!(m.pane(1).unwrap().id(), 1);
    assert!(m.pane(1).unwrap().needs_redraw());
    assert_eq!(
        m.split_active_pane_with_ratio(SplitDirection::Vertical, window(), CELL_W, CELL_H, 200000),
        Some(2)
    );
    assert_eq!(m.layout().all_pane_ids(), vec![0, 2, 1]);
    assert_eq!(size_of(&m, 0), (2, 2));
    assert_eq!(size_of(&m, 2), (8, 2));
    assert_eq!(m.active_pane_rect(window()), Some(Rect::new(0, 0, 20, 50)));
}

#[test]
fn panes_take_the_cell_size_and_the_shell_stays() {
    let mut m = manager();
    assert_eq!(m.pane(0).unwrap().terminal().cell_size(), (10000, 20000));
    m.split_active_pane(SplitDirection::Vertical, window(), 8400, 18200);
    assert_eq!(m.pane(0).unwrap().terminal().cell_size(), (8400, 18200));
    assert_eq!(m.pane(1).unwrap().terminal().cell_size(), (8400, 18200));
    m.resize_all_panes(window(), CELL_W, CELL_H);
    assert_eq!(m.pane(1).unwrap().terminal().cell_size(), (CELL_W, CELL_H));
    m.toggle_broadcast();
    m.focus_next();
    m.set_active_pane(0);
    m.update_border_at(50, 0, window(), CELL_W, CELL_H);
    m.close_pane(1, window(), CELL_W, CELL_H);
    assert_eq!(m.shell(), "/bin/sh");
    assert_eq!(m.scrollback(), 100);
}

#[test]
fn pane_sizes_are_at_least_one_cell() {
    let mut m = manager();
    m.resize_all_panes(Rect::new(0, 0, 5, 5), CELL_W, CELL_H);
    assert_eq!(size_of(&m, 0), (1, 1));
    m.resize_all_panes(Rect::new(0, 0, 105, 59), CELL_W, CELL_H);
    assert_eq!(size_of(&m, 0), (10, 2));
    m.resize_all_panes(Rect::new(0, 0, 84, 84), 8400, 18200);
    assert_eq!(size_of(&m, 0), (10, 4));
    m.resize_all_panes(Rect::new(0, 0, u32::MAX, 10), 1, CELL_H);
    assert_eq!(size_of(&m, 0), (65535, 1));
}

#[test]
fn focus_directional_scenario() {
    let mut m = three_panes();
    assert_eq!(m.active_pane_id(), 1);
    assert!(m.focus_right(window()));
    assert_eq!(m.active_pane_id(), 2);
    assert!(m.focus_up(window()));
    assert_eq!(m.active_pane_id(), 0);
    assert!(!m.focus_up(window()));
    assert_eq!(m.active_pane_id(), 0);
    assert!(m.focus_down(window()));
    assert_eq!(m.active_pane_id(), 1);
    assert!(!m.focus_left(window()));
    assert!(!m.focus_down(window()));
    assert!(m.focus_right(window()));
    assert_eq!(m.active_pane_id(), 2);
    assert!(m.focus_left(window()));
    assert_eq!(m.active_pane_id(), 1);
    assert!(m.focus_direction(window(), Direction::Up));
    assert_eq!(m.active_pane_id(), 0);
    assert!(m.focus_right(window()));
    assert_eq!(m.active_pane_id(), 2);
}

#[test]
fn focus_ties_go_to_the_smaller_id() {
    let rects = vec![
        (5usize, Rect::new(40, 40, 20, 20)),
        (9, Rect::new(80, 20, 20, 20)),
        (3, Rect::new(80, 60, 20, 20)),
        (4, Rect::new(90, 40, 20, 20)),
        (1, Rect::new(0, 40, 20, 20)),
    ];
    assert_eq!(choose_focus(&rects, 5, Direction::Right), Some(4));
    assert_eq!(choose_focus(&rects, 5, Direction::Up), Some(9));
    assert_eq!(choose_focus(&rects, 5, Direction::Down), Some(3));
    assert_eq!(choose_focus(&rects, 5, Direction::Left), Some(1));
    assert_eq!(choose_focus(&rects, 1, Direction::Left), None);
    assert_eq!(choose_focus(&rects, 7, Direction::Right), None);
    let tied = vec![
        (5usize, Rect::new(40, 40, 20, 20)),
        (9, Rect::new(80, 20, 20, 20)),
        (3, Rect::new(80, 60, 20, 20)),
    ];
    assert_eq!(choose_focus(&tied, 5, Direction::Right), Some(3));
}

#[test]
fn focus_next_cycles_back_to_the_start() {
    let mut m = three_panes();
    let ids = m.layout().all_pane_ids();
    assert_eq!(ids, vec![0, 1, 2]);
    for start in ids.clone() {
        assert!(m.set_active_pane(start));
        let mut seen = Vec::new();
        for _ in 0..ids.len() {
            assert!(m.focus_next());
            seen.push(m.active_pane_id());
        }
        assert_eq!(m.active_pane_id(), start);
        seen.sort();
        assert_eq!(seen, ids);
    }
    assert!(m.set_active_pane(2));
    assert!(m.focus_next());
    assert_eq!(m.active_pane_id(), 0);
    assert!(m.focus_prev());
    assert_eq!(m.active_pane_id(), 2);
    assert!(m.focus_prev());
    assert_eq!(m.active_pane_id(), 1);
}

#[test]
fn focus_next_with_one_pane_does_nothing() {
    let mut m = manager();
    assert!(!m.focus_next());
    assert!(!m.focus_prev());
    assert_eq!(m.active_pane_id(), 0);
    assert!(!m.active_pane().unwrap().is_active());
}

#[test]
fn set_active_moves_the_mark() {
    let mut m = three_panes();
    assert!(m.set_active_pane(2));
    assert!(m.pane(2).unwrap().is_active());
    assert!(!m.pane(1).unwrap().is_active());
    assert!(!m.set_active_pane(9));
    assert_eq!(m.active_pane_id(), 2);
    assert!(m.set_active_pane(2));
    assert!(m.pane(2).unwrap().is_active());
}

#[test]
fn broadcast_scenario() {
    let mut m = manager();
    m.split_active_pane(SplitDirection::Vertical, window(), CELL_W, CELL_H);
    m.toggle_broadcast();
    assert!(m.is_broadcast_enabled());
    assert_eq!(m.write_input(b"x"), vec![(0, b"x".to_vec()), (1, b"x".to_vec())]);
    m.toggle_broadcast();
    assert!(!m.is_broadcast_enabled());
    assert_eq!(m.write_input(b"y"), vec![(0, b"y".to_vec())]);
    m.set_active_pane(1);
    assert_eq!(m.write_input(b"zz"), vec![(1, b"zz".to_vec())]);
}

#[test]
fn closing_the_last_pane_is_refused() {
    let mut m = manager();
    assert!(!m.close_pane(0, window(), CELL_W, CELL_H));
    assert!(!m.close_active_pane(window(), CELL_W, CELL_H));
    assert!(!m.close_pane(3, window(), CELL_W, CELL_H));
    assert_eq!(m.layout().all_pane_ids(), vec![0]);
    assert!(m.pane(0).is_some());
}

#[test]
fn closing_a_pane_elects_another_and_resizes() {
    let mut m = three_panes();
    assert!(!m.close_pane(9, window(), CELL_W, CELL_H));
    assert_eq!(m.active_pane_id(), 1);
    assert!(m.close_active_pane(window(), CELL_W, CELL_H));
    assert_eq!(m.layout().all_pane_ids(), vec![0, 2]);
    assert!(m.pane(1).is_none());
    assert_eq!(m.active_pane_id(), 0);
    assert!(m.pane(0).unwrap().is_active());
    assert_eq!(size_of(&m, 2), (10, 2));
    assert!(m.close_pane(2, window(), CELL_W, CELL_H));
    assert_eq!(m.active_pane_id(), 0);
    assert_eq!(size_of(&m, 0), (10, 5));
    assert_eq!(m.panes().len(), 1);
}

#[test]
fn dead_panes_are_closed_and_the_last_one_ends_the_application() {
    let mut m = three_panes();
    let alive = |id, out| PaneReport { pane_id: id, has_output: out, alive: true };
    let dead = |id| PaneReport { pane_id: id, has_output: false, alive: false };
    assert_eq!(
        m.process_all_pty_output(&vec![alive(0, false), alive(1, true)], window(), CELL_W, CELL_H),
        (true, false)
    );
    assert_eq!(
        m.process_all_pty_output(&vec![alive(0, false), dead(7)], window(), CELL_W, CELL_H),
        (false, false)
    );
    assert_eq!(m.panes().len(), 3);
    assert_eq!(
        m.process_all_pty_output(&vec![dead(1), alive(0, true)], window(), CELL_W, CELL_H),
        (true, false)
    );
    assert_eq!(m.layout().all_pane_ids(), vec![0, 2]);
    assert_eq!(m.active_pane_id(), 0);
    assert_eq!(
        m.process_all_pty_output(&vec![dead(0), dead(2)], window(), CELL_W, CELL_H),
        (false, true)
    );
    assert_eq!(m.layout().all_pane_ids(), vec![2]);
    assert_eq!(m.active_pane_id(), 2);
    assert_eq!(
        m.process_all_pty_output(&Vec::new(), window(), CELL_W, CELL_H),
        (false, false)
    );
}

#[test]
fn borders_can_be_dragged() {
    let mut m = manager();
    m.split_active_pane(SplitDirection::Vertical, window(), CELL_W, CELL_H);
    assert!(m.is_near_border(55, 3, window()));
    assert!(!m.is_near_border(70, 3, window()));
    assert!(!m.update_border_at(70, 3, window(), CELL_W, CELL_H));
    assert!(m.update_border_at(58, 3, window(), CELL_W, CELL_H));
    assert_eq!(
        m.layout().calculate_rects(window()),
        vec![(0, Rect::new(0, 0, 58, 100)), (1, Rect::new(58, 0, 42, 100))]
    );
    assert_eq!(size_of(&m, 0), (5, 5));
    assert_eq!(size_of(&m, 1), (4, 5));
    let narrow = Rect::new(0, 0, 20, 100);
    assert!(m.update_border_at(1, 0, narrow, CELL_W, CELL_H));
    assert_eq!(
        m.layout().calculate_rects(window()),
        vec![(0, Rect::new(0, 0, 10, 100)), (1, Rect::new(10, 0, 90, 100))]
    );
}

#[test]
fn panes_can_be_changed_in_place() {
    let mut m = three_panes();
    m.pane_mut(2).unwrap().terminal_mut().process_bytes(b"hi");
    assert_eq!(m.pane(2).unwrap().terminal().cursor_position(), (2, 0));
    assert_eq!(m.pane(1).unwrap().terminal().cursor_position(), (0, 0));
    assert!(m.pane_mut(8).is_none());
    m.active_pane_mut().unwrap().clear_redraw_flag();
    assert!(!m.pane(1).unwrap().needs_redraw());
    assert!(m.pane(2).unwrap().needs_redraw());
    let ids: Vec<usize> = m.panes().iter().map(|p| p.id()).collect();
    assert_eq!(ids, vec![0, 1, 2]);
}
