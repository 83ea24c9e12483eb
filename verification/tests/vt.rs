use terbulator::terminal::vt::{ActionLog, VtAction};
use vte::Perform;

fn record(bytes: &[u8]) -> Vec<VtAction> {
    let mut parser = vte::Parser::new();
    let mut log = ActionLog { actions: Vec::new() };
    for byte in bytes {
        parser.advance(&mut log, *byte);
    }
    log.actions
}

#[test]
fn the_log_appends_what_it_is_told() {
    let mut log = ActionLog { actions: Vec::new() };
    log.print('a');
    log.execute(b'\n');
    log.put(7);
    log.unhook();
    log.esc_dispatch(b"#", true, b'8');
    log.osc_dispatch(&[b"0", b"title"], true);
    assert_eq!(log.actions.len(), 6);
    assert!(matches!(log.actions[0], VtAction::Print('a')));
    assert!(matches!(log.actions[1], VtAction::Execute(b'\n')));
    assert!(matches!(log.actions[2], VtAction::Put(7)));
    assert!(matches!(log.actions[3], VtAction::Unhook));
    match &log.actions[4] {
        VtAction::EscDispatch { intermediates, ignore, byte } => {
            assert_eq!(intermediates, &b"#".to_vec());
            assert!(*ignore);
            assert_eq!(*byte, b'8');
        }
        other => panic!("expected an escape dispatch, got {:?}", other),
    }
    match &log.actions[5] {
        VtAction::OscDispatch { params, bell_terminated } => {
            assert_eq!(params, &vec![b"0".to_vec(), b"title".to_vec()]);
            assert!(*bell_terminated);
        }
        other => panic!("expected a command, got {:?}", other),
    }
}

#[test]
fn control_sequences_are_recorded_with_their_parameters() {
    let actions = record(b"x\x1b[?1;38:5:9;m");
    assert_eq!(actions.len(), 2);
    assert!(matches!(actions[0], VtAction::Print('x')));
    match &actions[1] {
        VtAction::CsiDispatch { params, intermediates, ignore, action } => {
            assert_eq!(params, &vec![vec![1], vec![38, 5, 9], vec![0]]);
            assert_eq!(intermediates, &b"?".to_vec());
            assert!(!*ignore);
            assert_eq!(*action, 'm');
        }
        other => panic!("expected a control sequence, got {:?}", other),
    }
}

#[test]
fn device_control_strings_are_recorded() {
    let actions = record(b"\x1bP1;2$qab\x1b\\");
    assert_eq!(actions.len(), 5);
    match &actions[0] {
        VtAction::Hook { params, intermediates, ignore, action } => {
            assert_eq!(params, &vec![vec![1], vec![2]]);
            assert_eq!(intermediates, &b"$".to_vec());
            assert!(!*ignore);
            assert_eq!(*action, 'q');
        }
        other => panic!("expected a hook, got {:?}", other),
    }
    assert!(matches!(actions[1], VtAction::Put(b'a')));
    assert!(matches!(actions[2], VtAction::Put(b'b')));
    assert!(matches!(actions[3], VtAction::Unhook));
    assert!(matches!(
        &actions[4],
        VtAction::EscDispatch { byte: b'\\', ignore: false, .. }
    ));
}
