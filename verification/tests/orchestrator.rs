use terbulator::clipboard::Selection;
use terbulator::config::StartupConfig;
use terbulator::input::{KeyCode, Modifiers, PhysicalKey, ShortcutAction};
use terbulator::orchestrator::{
    pixel_of, plan_startup, window_title, Effect, Orchestrator, StartupLayout,
};
use terbulator::pane::layout::Rect;
use terbulator::pane::manager::{PaneManager, PaneReport};

const CELL_W: u32 = 10_000;
const CELL_H: u32 = 20_000;

fn orchestrator() -> Orchestrator {
    let manager = PaneManager::new(80, 24, 100, "/bin/sh".to_string());
    let mut o = Orchestrator::new(manager, 100, 100, CELL_W, CELL_H, 14000);
    o.resize(100, 100);
    o
}

fn startup(panes: usize, layout: &str) -> StartupConfig {
    StartupConfig {
        panes,
        layout: layout.to_string(),
        split_ratio: 700000,
        vertical_ratio: 500000,
    }
}

fn key(code: KeyCode) -> PhysicalKey {
    PhysicalKey::Code(code)
}

fn mods(control: bool, shift: bool, alt: bool) -> Modifiers {
    Modifiers { control, shift, alt }
}

fn written(effect: Effect) -> Vec<(usize, Vec<u8>)> {
    match effect {
        Effect::Write(writes) => writes,
        other => panic!("expected a write, got {:?}", other),
    }
}

fn is_nothing(effect: Effect) -> bool {
    matches!(effect, Effect::Nothing)
}

fn ids(o: &Orchestrator) -> Vec<usize> {
    o.pane_manager().layout().all_pane_ids()
}

#[test]
fn startup_layouts() {
    assert_eq!(plan_startup(&startup(2, "horizontal")), StartupLayout::Horizontal);
    assert_eq!(plan_startup(&startup(2, "vertical")), StartupLayout::Vertical);
    assert_eq!(plan_startup(&startup(4, "grid")), StartupLayout::Grid);
    assert_eq!(plan_startup(&startup(1, "grid")), StartupLayout::Single);
    assert_eq!(plan_startup(&startup(4, "horizontal")), StartupLayout::Single);
    assert_eq!(plan_startup(&startup(2, "grid")), StartupLayout::Single);
    assert_eq!(plan_startup(&startup(3, "single")), StartupLayout::Single);
    assert_eq!(plan_startup(&startup(0, "")), StartupLayout::Single);
}

#[test]
fn startup_grid_has_four_panes() {
    let mut o = orchestrator();
    o.initialize_startup_panes(&startup(4, "grid"));
    assert_eq!(ids(&o), vec![0, 2, 1, 3]);
    assert_eq!(o.pane_manager().active_pane_id(), 0);
    assert_eq!(
        o.pane_manager().layout().calculate_rects(o.window_rect()),
        vec![
            (0, Rect::new(0, 0, 50, 70)),
            (2, Rect::new(50, 0, 50, 70)),
            (1, Rect::new(0, 70, 50, 30)),
            (3, Rect::new(50, 70, 50, 30)),
        ]
    );
    assert_eq!(o.grid_info(), (5, 3));
}

#[test]
fn startup_with_two_panes_or_one() {
    let mut o = orchestrator();
    o.initialize_startup_panes(&startup(2, "horizontal"));
    assert_eq!(
        o.pane_manager().layout().calculate_rects(o.window_rect()),
        vec![(0, Rect::new(0, 0, 100, 70)), (1, Rect::new(0, 70, 100, 30))]
    );
    let mut v = orchestrator();
    v.initialize_startup_panes(&startup(2, "vertical"));
    assert_eq!(
        v.pane_manager().layout().calculate_rects(v.window_rect()),
        vec![(0, Rect::new(0, 0, 50, 100)), (1, Rect::new(50, 0, 50, 100))]
    );
    let mut s = orchestrator();
    s.initialize_startup_panes(&startup(3, "grid"));
    assert_eq!(ids(&s), vec![0]);
}

#[test]
fn window_titles() {
    assert_eq!(window_title("term", false, false, false), "term");
    assert_eq!(window_title("term", true, false, false), "term - [Broadcasting]");
    assert_eq!(window_title("term", false, true, false), "term - [MARK]");
    assert_eq!(window_title("term", false, false, true), "term - [\u{3042}]");
    assert_eq!(window_title("term", true, true, false), "term - [Broadcasting] [MARK]");
    assert_eq!(window_title("term", true, false, true), "term - [Broadcasting] [\u{3042}]");
    assert_eq!(window_title("", true, true, true), " - [Broadcasting] [MARK] [\u{3042}]");
}

#[test]
fn plain_keys_are_written_to_the_active_pane() {
    let mut o = orchestrator();
    let effect = o.handle_keyboard_input(&key(KeyCode::KeyA), mods(false, false, false));
    assert_eq!(written(effect), vec![(0, b"a".to_vec())]);
    o.update_modifiers(mods(true, false, false));
    let effect = o.handle_keyboard_input(&key(KeyCode::KeyC), mods(true, false, false));
    assert_eq!(written(effect), vec![(0, vec![3])]);
    let effect = o.handle_keyboard_input(&PhysicalKey::Unidentified, mods(false, false, false));
    assert!(is_nothing(effect));
    let effect = o.handle_keyboard_input(&key(KeyCode::Other), mods(false, false, false));
    assert!(is_nothing(effect));
}

#[test]
fn help_swallows_keys_until_it_is_closed() {
    let mut o = orchestrator();
    assert!(!o.is_help_visible());
    assert!(is_nothing(o.handle_keyboard_input(&key(KeyCode::F1), mods(false, false, false))));
    assert!(o.is_help_visible());
    assert!(is_nothing(o.handle_keyboard_input(&key(KeyCode::KeyA), mods(false, false, false))));
    assert!(is_nothing(o.handle_keyboard_input(&key(KeyCode::Escape), mods(false, false, false))));
    assert!(!o.is_help_visible());
    let effect = o.handle_keyboard_input(&key(KeyCode::Escape), mods(false, false, false));
    assert_eq!(written(effect), vec![(0, vec![0x1b])]);
    o.handle_keyboard_input(&key(KeyCode::F1), mods(false, false, false));
    o.handle_keyboard_input(&key(KeyCode::F1), mods(false, false, false));
    assert!(!o.is_help_visible());
}

#[test]
fn shortcuts_split_close_and_move_the_focus() {
    let mut o = orchestrator();
    let both = mods(true, true, false);
    assert!(matches!(o.handle_keyboard_input(&key(KeyCode::KeyS), both), Effect::PanesChanged));
    assert_eq!(ids(&o), vec![0, 1]);
    assert!(matches!(o.handle_keyboard_input(&key(KeyCode::KeyV), both), Effect::PanesChanged));
    assert_eq!(ids(&o), vec![0, 2, 1]);
    assert!(is_nothing(o.handle_keyboard_input(&key(KeyCode::KeyL), both)));
    assert_eq!(o.pane_manager().active_pane_id(), 2);
    assert!(is_nothing(o.handle_keyboard_input(&key(KeyCode::KeyJ), both)));
    assert_eq!(o.pane_manager().active_pane_id(), 1);
    assert!(is_nothing(o.handle_keyboard_input(&key(KeyCode::KeyK), both)));
    assert_eq!(o.pane_manager().active_pane_id(), 0);
    assert!(is_nothing(o.handle_keyboard_input(&key(KeyCode::KeyN), both)));
    assert_eq!(o.pane_manager().active_pane_id(), 2);
    assert!(is_nothing(o.handle_keyboard_input(&key(KeyCode::KeyP), both)));
    assert_eq!(o.pane_manager().active_pane_id(), 0);
    assert!(is_nothing(o.handle_keyboard_input(&key(KeyCode::KeyH), both)));
    assert_eq!(o.pane_manager().active_pane_id(), 0);
    assert!(is_nothing(o.handle_keyboard_input(&key(KeyCode::KeyB), both)));
    assert!(o.is_broadcast_enabled());
    let effect = o.handle_keyboard_input(&key(KeyCode::KeyX), mods(false, false, false));
    assert_eq!(written(effect), vec![(0, b"x".to_vec()), (2, b"x".to_vec()), (1, b"x".to_vec())]);
    assert!(matches!(o.handle_keyboard_input(&key(KeyCode::KeyW), both), Effect::PanesChanged));
    assert_eq!(ids(&o), vec![2, 1]);
    assert!(matches!(o.handle_shortcut_action(ShortcutAction::Paste), Effect::Paste));
}

#[test]
fn font_size_steps_stay_between_8_and_32_pixels() {
    let mut o = orchestrator();
    assert_eq!(o.font_size(), 14000);
    assert!(matches!(o.change_font_size(true), Effect::SetFontSize(15000)));
    assert!(matches!(
        o.handle_keyboard_input(&key(KeyCode::Minus), mods(true, false, false)),
        Effect::SetFontSize(14000)
    ));
    for _ in 0..30 {
        o.change_font_size(true);
    }
    assert_eq!(o.font_size(), 32000);
    assert!(is_nothing(o.change_font_size(true)));
    for _ in 0..30 {
        o.change_font_size(false);
    }
    assert_eq!(o.font_size(), 8000);
    assert!(is_nothing(o.change_font_size(false)));
    o.set_cell_dimensions(5000, 10000);
    assert_eq!(o.cell_dimensions(), (5000, 10000));
    assert_eq!(o.grid_info(), (20, 10));
}

#[test]
fn the_pointer_selects_text() {
    let mut o = orchestrator();
    o.pane_manager_mut().pane_mut(0).unwrap().terminal_mut().process_bytes(b"hello\r\nworld");
    o.handle_mouse_press(15, 5);
    assert_eq!(o.selection(), Selection { start: (1, 0), end: (1, 0), active: false });
    assert!(o.handle_mouse_move(39, 25));
    assert_eq!(o.selection(), Selection { start: (1, 0), end: (3, 1), active: true });
    o.handle_mouse_release();
    assert!(!o.handle_mouse_move(0, 0));
    assert_eq!(o.selection().end, (3, 1));
    match o.handle_copy() {
        Effect::Copy(text) => assert_eq!(text, "ello     \nworl"),
        other => panic!("expected a copy, got {:?}", other),
    }
    assert_eq!(o.selection(), Selection::new());
    assert!(is_nothing(o.handle_copy()));
    o.handle_mouse_press(-5, 50);
    assert_eq!(o.selection(), Selection::new());
    o.handle_mouse_press(50, 500);
    assert_eq!(o.selection(), Selection::new());
}

#[test]
fn a_press_makes_the_pane_under_the_pointer_active() {
    let mut o = orchestrator();
    o.initialize_startup_panes(&startup(2, "vertical"));
    o.handle_mouse_press(80, 50);
    assert_eq!(o.pane_manager().active_pane_id(), 1);
    assert_eq!(o.selection(), Selection { start: (3, 2), end: (3, 2), active: false });
    assert!(!o.handle_mouse_move(20, 50));
    assert_eq!(o.selection().end, (3, 2));
    assert!(o.handle_mouse_move(99, 99));
    assert_eq!(o.selection(), Selection { start: (3, 2), end: (4, 4), active: true });
}

#[test]
fn borders_follow_the_pointer_while_dragged() {
    let mut o = orchestrator();
    o.initialize_startup_panes(&startup(2, "vertical"));
    assert!(!o.handle_mouse_move(55, 10));
    o.handle_mouse_press(55, 10);
    assert_eq!(o.selection(), Selection::new());
    assert!(o.handle_mouse_move(58, 10));
    assert!(o.handle_mouse_move(66, 10));
    assert!(!o.handle_mouse_move(90, 10));
    assert_eq!(
        o.pane_manager().layout().calculate_rects(o.window_rect()),
        vec![(0, Rect::new(0, 0, 66, 100)), (1, Rect::new(66, 0, 34, 100))]
    );
    o.handle_mouse_release();
    assert!(!o.handle_mouse_move(66, 10));
}

#[test]
fn mark_mode_selects_with_the_arrow_keys() {
    let mut o = orchestrator();
    o.pane_manager_mut().pane_mut(0).unwrap().terminal_mut().process_bytes(b"abc\r\nde");
    let none = mods(false, false, false);
    assert_eq!(o.handle_mark_mode_navigation(KeyCode::ArrowLeft).0, false);
    assert!(is_nothing(o.handle_keyboard_input(&key(KeyCode::KeyM), mods(false, true, true))));
    assert!(o.is_mark_mode_active());
    assert_eq!(o.selection(), Selection { start: (2, 1), end: (2, 1), active: false });
    assert!(is_nothing(o.handle_keyboard_input(&key(KeyCode::ArrowUp), none)));
    assert!(is_nothing(o.handle_keyboard_input(&key(KeyCode::ArrowLeft), none)));
    assert_eq!(o.selection(), Selection { start: (2, 1), end: (1, 0), active: true });
    for _ in 0..5 {
        o.handle_keyboard_input(&key(KeyCode::ArrowLeft), none);
        o.handle_keyboard_input(&key(KeyCode::ArrowUp), none);
    }
    assert_eq!(o.selection().end, (0, 0));
    for _ in 0..20 {
        o.handle_keyboard_input(&key(KeyCode::ArrowRight), none);
        o.handle_keyboard_input(&key(KeyCode::ArrowDown), none);
    }
    assert_eq!(o.selection().end, (9, 4));
    for _ in 0..4 {
        o.handle_keyboard_input(&key(KeyCode::ArrowUp), none);
    }
    assert_eq!(o.selection(), Selection { start: (2, 1), end: (9, 0), active: true });
    let effect = o.handle_keyboard_input(&key(KeyCode::KeyA), none);
    assert_eq!(written(effect), vec![(0, b"a".to_vec())]);
    match o.handle_keyboard_input(&key(KeyCode::Enter), none) {
        Effect::Copy(text) => assert_eq!(text, " \nde "),
        other => panic!("expected a copy, got {:?}", other),
    }
    assert!(!o.is_mark_mode_active());
    assert_eq!(o.selection(), Selection::new());
    let effect = o.handle_keyboard_input(&key(KeyCode::Enter), none);
    assert_eq!(written(effect), vec![(0, b"\r".to_vec())]);
}

#[test]
fn escape_leaves_mark_mode_without_copying() {
    let mut o = orchestrator();
    o.toggle_mark_mode();
    assert!(o.is_mark_mode_active());
    o.handle_mark_mode_navigation(KeyCode::ArrowRight);
    assert!(o.selection().active);
    let (taken, effect) = o.handle_mark_mode_navigation(KeyCode::Escape);
    assert!(taken && is_nothing(effect));
    assert!(!o.is_mark_mode_active());
    assert_eq!(o.selection(), Selection::new());
    o.toggle_mark_mode();
    o.handle_mark_mode_navigation(KeyCode::ArrowRight);
    o.toggle_mark_mode();
    assert!(!o.is_mark_mode_active());
    assert_eq!(o.selection(), Selection::new());
}

#[test]
fn pasted_and_committed_text_is_written() {
    let mut o = orchestrator();
    assert_eq!(written(o.handle_paste(Some("p\u{e9}".to_string()))), vec![(0, "p\u{e9}".as_bytes().to_vec())]);
    assert!(is_nothing(o.handle_paste(Some(String::new()))));
    assert!(is_nothing(o.handle_paste(None)));
    assert_eq!(written(o.handle_ime_commit("\u{3042}".to_string())), vec![(0, vec![0xe3, 0x81, 0x82])]);
    assert!(is_nothing(o.handle_ime_commit(String::new())));
    assert!(!o.is_ime_enabled());
    o.set_ime_enabled(true);
    assert!(o.is_ime_enabled());
}

#[test]
fn the_cursor_blinks_every_half_second() {
    let mut o = orchestrator();
    assert!(o.is_cursor_visible());
    o.update_cursor_blink(500);
    assert!(o.is_cursor_visible());
    o.update_cursor_blink(501);
    assert!(!o.is_cursor_visible());
    o.update_cursor_blink(1001);
    assert!(!o.is_cursor_visible());
    o.update_cursor_blink(1002);
    assert!(o.is_cursor_visible());
    o.update_cursor_blink(3);
    assert!(o.is_cursor_visible());
}

#[test]
fn the_input_method_window_sits_at_the_cursor() {
    let mut o = orchestrator();
    o.initialize_startup_panes(&startup(2, "vertical"));
    o.pane_manager_mut().set_active_pane(1);
    o.pane_manager_mut().pane_mut(1).unwrap().terminal_mut().process_bytes(b"ab\r\n\r\nc");
    assert_eq!(o.get_ime_cursor_position(), (60, 40));
    assert_eq!(pixel_of(5, 3, 8400), 30);
    assert_eq!(pixel_of(u32::MAX, 1, 1000), u32::MAX);
}

#[test]
fn dead_panes_are_reaped_through_the_orchestrator() {
    let mut o = orchestrator();
    o.initialize_startup_panes(&startup(2, "vertical"));
    let report = |id, alive| PaneReport { pane_id: id, has_output: true, alive };
    assert_eq!(o.process_pty_output(&vec![report(0, false), report(1, true)]), (true, false));
    assert_eq!(ids(&o), vec![1]);
    assert_eq!(o.grid_info(), (10, 5));
    assert_eq!(o.process_pty_output(&vec![report(1, false)]), (true, true));
}
