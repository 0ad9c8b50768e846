use hexview::viewport::{
    action_for_key, max_start_exec, CursorCommand, Intent, KeyAction, TermSnapshot, Viewport,
};

fn term(cursor_col: u16, cursor_row: u16, cols: u16, rows: u16) -> TermSnapshot {
    TermSnapshot { cursor_col, cursor_row, cols, rows }
}

/// Applies one intent and, as a faithful terminal would, feeds the cursor
/// command back into the snapshot for the next step.
fn apply(vp: &mut Viewport, intent: Intent, total_lines: usize, snap: &mut TermSnapshot) -> bool {
    let (cmd, redraw) = vp.navigate(intent, total_lines, *snap);
    if let CursorCommand::MoveTo { col, row } = cmd {
        snap.cursor_col = col;
        snap.cursor_row = row;
    }
    redraw
}

#[test]
fn up_and_down_move_the_cursor_without_redraw_inside_the_window() {
    let mut vp = Viewport::new();
    let (cmd, redraw) = vp.navigate(Intent::Down, 100, term(10, 5, 80, 20));
    assert_eq!(cmd, CursorCommand::MoveTo { col: 10, row: 6 });
    assert!(!redraw);
    assert_eq!(vp.start, 0);
    let (cmd, redraw) = vp.navigate(Intent::Up, 100, term(10, 5, 80, 20));
    assert_eq!(cmd, CursorCommand::MoveTo { col: 10, row: 4 });
    assert!(!redraw);
    assert_eq!(vp.start, 0);
}

#[test]
fn down_on_the_bottom_row_scrolls_and_redraws() {
    let mut vp = Viewport::new();
    // rows = 20: rows 0..=18 show content, row 19 is the status row.
    let (cmd, redraw) = vp.navigate(Intent::Down, 100, term(10, 18, 80, 20));
    assert_eq!(cmd, CursorCommand::MoveTo { col: 10, row: 18 });
    assert!(redraw);
    assert_eq!(vp.start, 1);
}

#[test]
fn up_on_the_top_row_scrolls_back_and_redraws() {
    let mut vp = Viewport::new();
    vp.navigate(Intent::GoToEnd, 100, term(10, 0, 80, 20));
    assert_eq!(vp.start, 81);
    let (cmd, redraw) = vp.navigate(Intent::Up, 100, term(10, 0, 80, 20));
    assert_eq!(cmd, CursorCommand::MoveTo { col: 10, row: 0 });
    assert!(redraw);
    assert_eq!(vp.start, 80);
}

#[test]
fn up_at_the_very_top_is_a_no_op() {
    let mut vp = Viewport::new();
    let (cmd, redraw) = vp.navigate(Intent::Up, 100, term(10, 0, 80, 20));
    assert_eq!(cmd, CursorCommand::MoveTo { col: 10, row: 0 });
    assert!(!redraw);
    assert_eq!(vp.start, 0);
}

#[test]
fn left_and_right_stay_within_the_hex_field() {
    let mut vp = Viewport::new();
    let (cmd, redraw) = vp.navigate(Intent::Left, 100, term(11, 3, 80, 20));
    assert_eq!(cmd, CursorCommand::MoveTo { col: 10, row: 3 });
    assert!(!redraw);
    let (cmd, _) = vp.navigate(Intent::Left, 100, term(10, 3, 80, 20));
    assert_eq!(cmd, CursorCommand::MoveTo { col: 10, row: 3 });
    let (cmd, _) = vp.navigate(Intent::Right, 100, term(57, 3, 80, 20));
    assert_eq!(cmd, CursorCommand::MoveTo { col: 58, row: 3 });
    let (cmd, redraw) = vp.navigate(Intent::Right, 100, term(58, 3, 80, 20));
    assert_eq!(cmd, CursorCommand::MoveTo { col: 58, row: 3 });
    assert!(!redraw);
    assert_eq!(vp.start, 0);
}

#[test]
fn column_jumps_move_only_the_cursor_column() {
    let mut vp = Viewport::new();
    let (cmd, redraw) = vp.navigate(Intent::ColumnStart, 100, term(37, 7, 80, 20));
    assert_eq!(cmd, CursorCommand::MoveTo { col: 10, row: 7 });
    assert!(!redraw);
    let (cmd, redraw) = vp.navigate(Intent::ColumnEnd, 100, term(37, 7, 80, 20));
    assert_eq!(cmd, CursorCommand::MoveTo { col: 58, row: 7 });
    assert!(!redraw);
    assert_eq!(vp.start, 0);
}

#[test]
fn jump_round_trip_redraws_exactly_where_start_changes() {
    let mut vp = Viewport::new();
    let mut snap = term(10, 0, 80, 20);
    // max_start = 100 - 19 = 81.
    assert_eq!(max_start_exec(100, 20), 81);
    assert!(!apply(&mut vp, Intent::GoToStart, 100, &mut snap));
    assert_eq!(vp.start, 0);
    assert!(apply(&mut vp, Intent::GoToEnd, 100, &mut snap));
    assert_eq!(vp.start, 81);
    assert_eq!(snap.cursor_row, 18);
    assert!(apply(&mut vp, Intent::GoToStart, 100, &mut snap));
    assert_eq!(vp.start, 0);
    assert_eq!(snap.cursor_row, 0);
    // Already at the target: idempotent, no redraw.
    assert!(!apply(&mut vp, Intent::GoToStart, 100, &mut snap));
    assert_eq!(vp.start, 0);
}

#[test]
fn goto_end_when_everything_fits_on_screen_does_not_scroll() {
    let mut vp = Viewport::new();
    let (cmd, redraw) = vp.navigate(Intent::GoToEnd, 5, term(10, 0, 80, 20));
    assert_eq!(cmd, CursorCommand::MoveTo { col: 10, row: 18 });
    assert!(!redraw);
    assert_eq!(vp.start, 0);
}

#[test]
fn down_repeated_never_scrolls_past_max_start() {
    // 5 lines of content, 4 terminal rows: 3 visible rows, max_start = 2.
    let total = 5;
    let mut vp = Viewport::new();
    let mut snap = term(10, 0, 40, 4);
    assert_eq!(max_start_exec(total, 4), 2);
    for _ in 0..total {
        apply(&mut vp, Intent::Down, total, &mut snap);
        assert!(vp.start <= 2);
    }
    assert_eq!(vp.start, 2);
    assert_eq!(snap.cursor_row, 2);
    // Further Downs at the absolute bottom are no-ops.
    for _ in 0..3 {
        let redraw = apply(&mut vp, Intent::Down, total, &mut snap);
        assert!(!redraw);
        assert_eq!(vp.start, 2);
        assert_eq!(snap.cursor_row, 2);
    }
}

#[test]
fn resize_always_requires_redraw() {
    let mut vp = Viewport::new();
    let (cmd, redraw) = vp.navigate(Intent::Resize, 100, term(10, 5, 80, 20));
    assert_eq!(cmd, CursorCommand::Stay);
    assert!(redraw);
    vp.navigate(Intent::GoToEnd, 100, term(10, 5, 80, 20));
    let (cmd, redraw) = vp.navigate(Intent::Resize, 100, term(33, 12, 132, 43));
    assert_eq!(cmd, CursorCommand::Stay);
    assert!(redraw);
    let (_, redraw) = vp.navigate(Intent::Resize, 0, term(0, 0, 2, 2));
    assert!(redraw);
}

#[test]
fn keys_map_to_their_actions() {
    assert_eq!(action_for_key('q'), Some(KeyAction::Quit));
    assert_eq!(action_for_key('h'), Some(KeyAction::Nav(Intent::Left)));
    assert_eq!(action_for_key('j'), Some(KeyAction::Nav(Intent::Down)));
    assert_eq!(action_for_key('k'), Some(KeyAction::Nav(Intent::Up)));
    assert_eq!(action_for_key('l'), Some(KeyAction::Nav(Intent::Right)));
    assert_eq!(action_for_key('0'), Some(KeyAction::Nav(Intent::ColumnStart)));
    assert_eq!(action_for_key('$'), Some(KeyAction::Nav(Intent::ColumnEnd)));
    assert_eq!(action_for_key('g'), Some(KeyAction::Nav(Intent::GoToStart)));
    assert_eq!(action_for_key('G'), Some(KeyAction::Nav(Intent::GoToEnd)));
    assert_eq!(action_for_key('x'), None);
    assert_eq!(action_for_key(' '), None);
}
