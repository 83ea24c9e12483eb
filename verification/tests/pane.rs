use terbulator::pane::pane::{
    DrainStep, Pane, PtyDrain, PtyRead, MAX_READ_PER_FRAME, READ_BUFFER_BYTES,
};

#[test]
fn a_new_pane_is_inactive_and_to_be_drawn() {
    let mut pane = Pane::new(3, 10, 4, 50);
    assert_eq!(pane.id(), 3);
    assert!(!pane.is_active());
    assert!(pane.needs_redraw());
    assert_eq!(pane.terminal().grid().cols(), 10);
    assert_eq!(pane.terminal().grid().rows(), 4);
    pane.set_active(true);
    assert!(pane.is_active());
    pane.clear_redraw_flag();
    assert!(!pane.needs_redraw());
    pane.mark_dirty();
    assert!(pane.needs_redraw());
    pane.resize(5, 2);
    assert_eq!(pane.terminal().grid().cols(), 5);
    assert_eq!(pane.terminal().grid().rows(), 2);
    pane.set_cell_size(7000, 15000);
    assert_eq!(pane.terminal().cell_size(), (7000, 15000));
}

#[test]
fn a_short_read_ends_the_frame_and_asks_for_a_redraw() {
    let mut pane = Pane::new(0, 10, 2, 0);
    pane.clear_redraw_flag();
    let mut drain = PtyDrain::new();
    assert_eq!(drain, PtyDrain { total_read: 0, has_output: false });
    let step = pane.process_pty_output(&mut drain, PtyRead::Data(b"hi".to_vec()));
    assert_eq!(step, DrainStep::Done);
    assert_eq!(drain, PtyDrain { total_read: 2, has_output: true });
    assert!(pane.needs_redraw());
    assert_eq!(pane.terminal().grid().get(1, 0).unwrap().ch, 'i');
}

#[test]
fn full_reads_go_on_until_the_quota() {
    let mut pane = Pane::new(0, 10, 2, 0);
    pane.clear_redraw_flag();
    let mut drain = PtyDrain::new();
    let reads = MAX_READ_PER_FRAME / READ_BUFFER_BYTES;
    assert_eq!(reads, 16);
    for i in 1..reads {
        let step = pane.process_pty_output(&mut drain, PtyRead::Data(vec![b'a'; READ_BUFFER_BYTES]));
        assert_eq!(step, DrainStep::Continue);
        assert_eq!(drain.total_read, i * READ_BUFFER_BYTES);
        assert!(!pane.needs_redraw());
    }
    let step = pane.process_pty_output(&mut drain, PtyRead::Data(vec![b'a'; READ_BUFFER_BYTES]));
    assert_eq!(step, DrainStep::Done);
    assert_eq!(drain.total_read, 65536);
    assert!(pane.needs_redraw());
}

#[test]
fn empty_reads_end_the_frame() {
    for read in [PtyRead::Data(Vec::new()), PtyRead::Eof, PtyRead::WouldBlock] {
        let mut pane = Pane::new(0, 10, 2, 0);
        pane.clear_redraw_flag();
        let mut drain = PtyDrain::new();
        assert_eq!(pane.process_pty_output(&mut drain, read), DrainStep::Done);
        assert_eq!(drain, PtyDrain::new());
        assert!(!pane.needs_redraw());
    }
    let mut pane = Pane::new(0, 10, 2, 0);
    pane.clear_redraw_flag();
    let mut drain = PtyDrain::new();
    pane.process_pty_output(&mut drain, PtyRead::Data(vec![b'a'; READ_BUFFER_BYTES]));
    assert!(!pane.needs_redraw());
    assert_eq!(pane.process_pty_output(&mut drain, PtyRead::WouldBlock), DrainStep::Done);
    assert!(pane.needs_redraw());
}

#[test]
fn a_failed_read_marks_nothing() {
    let mut pane = Pane::new(0, 10, 2, 0);
    pane.clear_redraw_flag();
    let mut drain = PtyDrain::new();
    pane.process_pty_output(&mut drain, PtyRead::Data(vec![b'a'; READ_BUFFER_BYTES]));
    assert_eq!(pane.process_pty_output(&mut drain, PtyRead::Failed), DrainStep::Failed);
    assert!(!pane.needs_redraw());
    assert_eq!(drain, PtyDrain { total_read: 4096, has_output: true });
}
