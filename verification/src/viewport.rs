//! The viewport controller: a pure state machine over navigation intents.
//! It owns the scroll offset `start` (the index of the first buffer line on
//! screen) and decides, from a fresh snapshot of the terminal, how `start`
//! and the cursor move and whether a full redraw is required.

use vstd::prelude::*;

verus! {

/// Number of bytes shown on one line of the dump.
pub const LINE_LENGTH: usize = 16;

/// Screen column of the first hex byte: the eight-digit address, a colon
/// and a space.
pub const LEFT_MARGIN: u16 = 10;

/// Ceiling division on non-negative values.
pub open spec fn ceil_div(len: int, step: int) -> int {
    (len + step - 1) / step
}

/// Number of lines the buffer occupies: `ceil(len / bytes_per_line)`.
pub fn total_lines(len: usize, bytes_per_line: usize) -> (n: usize)
    requires
        bytes_per_line > 0,
    ensures
        n == ceil_div(len as int, bytes_per_line as int),
        n * bytes_per_line >= len,
        len > 0 ==> (n - 1) * bytes_per_line < len,
        n <= len,
{
    let whole: usize = len / bytes_per_line;
    let extra: usize = if len % bytes_per_line != 0 {
        1
    } else {
        0
    };
    proof {
        let l = len as int;
        let b = bytes_per_line as int;
        vstd::arithmetic::div_mod::lemma_fundamental_div_mod(l, b);
        vstd::arithmetic::div_mod::lemma_fundamental_div_mod(l + b - 1, b);
        assert((l + b - 1) / b == l / b + if l % b != 0 { 1int } else { 0int }) by (nonlinear_arith)
            requires b > 0, l >= 0;
        assert((l / b + extra) * b >= l) by (nonlinear_arith)
            requires b > 0, l >= 0, extra == if l % b != 0 { 1int } else { 0int };
        assert(l > 0 ==> (l / b + extra - 1) * b < l) by (nonlinear_arith)
            requires b > 0, l >= 0, extra == if l % b != 0 { 1int } else { 0int };
        assert(l / b + extra <= l) by (nonlinear_arith)
            requires b > 0, l >= 0, extra == if l % b != 0 { 1int } else { 0int };
    }
    whole + extra
}

/// A navigation intent, decoded from a key, mouse or resize event.
#[derive(Clone, Copy, PartialEq, Eq, Structural, Debug)]
pub enum Intent {
    /// One row up; scrolls when the cursor is already on the top row.
    Up,
    /// One row down; scrolls when the cursor is already on the bottom row.
    Down,
    /// One column left within the hex field.
    Left,
    /// One column right within the hex field.
    Right,
    /// Jump to the first line of the buffer.
    GoToStart,
    /// Jump to the last page of the buffer.
    GoToEnd,
    /// Jump to the first column of the hex field.
    ColumnStart,
    /// Jump past the last column of the hex field.
    ColumnEnd,
    /// The terminal was resized.
    Resize,
}

/// What the terminal should do with the cursor after a navigation step.
#[derive(Clone, Copy, PartialEq, Eq, Structural, Debug)]
pub enum CursorCommand {
    /// Place the cursor at this screen position.
    MoveTo { col: u16, row: u16 },
    /// Leave the cursor where it is.
    Stay,
}

/// A fresh snapshot of the externally owned terminal state, re-queried
/// before every decision rather than cached.
#[derive(Clone, Copy, PartialEq, Eq, Structural, Debug)]
pub struct TermSnapshot {
    /// Current cursor column.
    pub cursor_col: u16,
    /// Current cursor row.
    pub cursor_row: u16,
    /// Terminal width in columns.
    pub cols: u16,
    /// Terminal height in rows.
    pub rows: u16,
}

/// The scroll state: the index of the first buffer line on screen.
#[derive(Clone, Copy, PartialEq, Eq, Structural, Debug)]
pub struct Viewport {
    /// Index of the buffer line rendered in screen row 0.
    pub start: usize,
}

/// Rows available for content: all but the status row.
pub open spec fn visible_rows(rows: int) -> int {
    rows - 1
}

/// The largest allowed scroll offset: `max(0, total_lines - visible_rows)`.
pub open spec fn max_start(total_lines: int, rows: int) -> int {
    if total_lines <= visible_rows(rows) {
        0
    } else {
        total_lines - visible_rows(rows)
    }
}

/// The scroll offset after one navigation step.
pub open spec fn step_start(intent: Intent, start: int, total_lines: int, row: int, rows: int) -> int {
    match intent {
        Intent::Up => if row > 0 {
            start
        } else if start > 0 {
            start - 1
        } else {
            start
        },
        Intent::Down => if row < visible_rows(rows) - 1 {
            start
        } else if start < max_start(total_lines, rows) {
            start + 1
        } else {
            start
        },
        Intent::GoToStart => 0,
        Intent::GoToEnd => if start < max_start(total_lines, rows) {
            max_start(total_lines, rows)
        } else {
            start
        },
        _ => start,
    }
}

/// Whether one navigation step requires a full redraw: exactly when the
/// scroll offset changes, and always on a resize.
pub open spec fn step_redraw(intent: Intent, start: int, total_lines: int, row: int, rows: int) -> bool {
    match intent {
        Intent::Up => row == 0 && start > 0,
        Intent::Down => row >= visible_rows(rows) - 1 && start < max_start(total_lines, rows),
        Intent::GoToStart => start != 0,
        Intent::GoToEnd => start < max_start(total_lines, rows),
        Intent::Resize => true,
        _ => false,
    }
}

/// The cursor column after one navigation step, clamped to the hex field
/// `[LEFT_MARGIN, LEFT_MARGIN + 3 * LINE_LENGTH]`.
pub open spec fn step_col(intent: Intent, col: int) -> int {
    match intent {
        Intent::Left => if col > LEFT_MARGIN {
            col - 1
        } else {
            col
        },
        Intent::Right => if col < LEFT_MARGIN + 3 * LINE_LENGTH {
            col + 1
        } else {
            col
        },
        Intent::GoToStart => LEFT_MARGIN as int,
        Intent::GoToEnd => LEFT_MARGIN as int,
        Intent::ColumnStart => LEFT_MARGIN as int,
        Intent::ColumnEnd => LEFT_MARGIN + 3 * LINE_LENGTH,
        _ => col,
    }
}

/// The cursor row after one navigation step.
pub open spec fn step_row(intent: Intent, row: int, rows: int) -> int {
    match intent {
        Intent::Up => if row > 0 {
            row - 1
        } else {
            row
        },
        Intent::Down => if row < visible_rows(rows) - 1 {
            row + 1
        } else {
            row
        },
        Intent::GoToStart => 0,
        Intent::GoToEnd => visible_rows(rows) - 1,
        _ => row,
    }
}

/// The cursor command of one navigation step: a resize leaves the cursor
/// alone, every other intent places it at the stepped position.
pub open spec fn step_cursor(intent: Intent, col: int, row: int, rows: int) -> CursorCommand {
    match intent {
        Intent::Resize => CursorCommand::Stay,
        _ => CursorCommand::MoveTo {
            col: step_col(intent, col) as u16,
            row: step_row(intent, row, rows) as u16,
        },
    }
}

/// The largest allowed scroll offset for the given buffer and terminal.
pub fn max_start_exec(total_lines: usize, rows: u16) -> (m: usize)
    requires
        rows >= 1,
    ensures
        m == max_start(total_lines as int, rows as int),
{
    let vr: usize = (rows - 1) as usize;
    if total_lines <= vr {
        0
    } else {
        total_lines - vr
    }
}

impl Viewport {
    /// A viewport scrolled to the top of the buffer.
    pub fn new() -> (vp: Viewport)
        ensures
            vp.start == 0,
    {
        Viewport { start: 0 }
    }

    /// Applies one navigation intent against a fresh terminal snapshot:
    /// updates the scroll offset, and returns the cursor command for the
    /// terminal and whether a full redraw is required.
    pub fn navigate(&mut self, intent: Intent, total_lines: usize, term: TermSnapshot) -> (out: (
        CursorCommand,
        bool,
    ))
        requires
            term.rows >= 2,
        ensures
            final(self).start == step_start(
                intent,
                old(self).start as int,
                total_lines as int,
                term.cursor_row as int,
                term.rows as int,
            ),
            out.0 == step_cursor(
                intent,
                term.cursor_col as int,
                term.cursor_row as int,
                term.rows as int,
            ),
            out.1 == step_redraw(
                intent,
                old(self).start as int,
                total_lines as int,
                term.cursor_row as int,
                term.rows as int,
            ),
    {
        let col = term.cursor_col;
        let row = term.cursor_row;
        match intent {
            Intent::Up => {
                if row > 0 {
                    (CursorCommand::MoveTo { col, row: row - 1 }, false)
                } else if self.start > 0 {
                    self.start = self.start - 1;
                    (CursorCommand::MoveTo { col, row }, true)
                } else {
                    (CursorCommand::MoveTo { col, row }, false)
                }
            },
            Intent::Down => {
                let ms = max_start_exec(total_lines, term.rows);
                if row < term.rows - 2 {
                    (CursorCommand::MoveTo { col, row: row + 1 }, false)
                } else if self.start < ms {
                    self.start = self.start + 1;
                    (CursorCommand::MoveTo { col, row }, true)
                } else {
                    (CursorCommand::MoveTo { col, row }, false)
                }
            },
            Intent::Left => {
                if col > LEFT_MARGIN {
                    (CursorCommand::MoveTo { col: col - 1, row }, false)
                } else {
                    (CursorCommand::MoveTo { col, row }, false)
                }
            },
            Intent::Right => {
                if col < LEFT_MARGIN + 3 * (LINE_LENGTH as u16) {
                    (CursorCommand::MoveTo { col: col + 1, row }, false)
                } else {
                    (CursorCommand::MoveTo { col, row }, false)
                }
            },
            Intent::GoToStart => {
                let redraw = self.start != 0;
                self.start = 0;
                (CursorCommand::MoveTo { col: LEFT_MARGIN, row: 0 }, redraw)
            },
            Intent::GoToEnd => {
                let ms = max_start_exec(total_lines, term.rows);
                let redraw = self.start < ms;
                if redraw {
                    self.start = ms;
                }
                (CursorCommand::MoveTo { col: LEFT_MARGIN, row: term.rows - 2 }, redraw)
            },
            Intent::ColumnStart => {
                (CursorCommand::MoveTo { col: LEFT_MARGIN, row }, false)
            },
            Intent::ColumnEnd => {
                (CursorCommand::MoveTo { col: LEFT_MARGIN + 3 * (LINE_LENGTH as u16), row }, false)
            },
            Intent::Resize => (CursorCommand::Stay, true),
        }
    }
}

/// What the event loop should do with a pressed key, if anything.
#[derive(Clone, Copy, PartialEq, Eq, Structural, Debug)]
pub enum KeyAction {
    /// Leave the viewer.
    Quit,
    /// Hand the intent to the viewport controller.
    Nav(Intent),
}

/// The key binding: vi-style movement, horizontal jumps, first/last line,
/// and quit; every other key is ignored.
pub open spec fn key_action(c: char) -> Option<KeyAction> {
    if c == 'q' {
        Some(KeyAction::Quit)
    } else if c == 'h' {
        Some(KeyAction::Nav(Intent::Left))
    } else if c == 'j' {
        Some(KeyAction::Nav(Intent::Down))
    } else if c == 'k' {
        Some(KeyAction::Nav(Intent::Up))
    } else if c == 'l' {
        Some(KeyAction::Nav(Intent::Right))
    } else if c == '0' {
        Some(KeyAction::Nav(Intent::ColumnStart))
    } else if c == '$' {
        Some(KeyAction::Nav(Intent::ColumnEnd))
    } else if c == 'g' {
        Some(KeyAction::Nav(Intent::GoToStart))
    } else if c == 'G' {
        Some(KeyAction::Nav(Intent::GoToEnd))
    } else {
        None
    }
}

/// Decodes a pressed character key into its action, `None` for a key that
/// is not bound.
pub fn action_for_key(c: char) -> (a: Option<KeyAction>)
    ensures
        a == key_action(c),
{
    if c == 'q' {
        Some(KeyAction::Quit)
    } else if c == 'h' {
        Some(KeyAction::Nav(Intent::Left))
    } else if c == 'j' {
        Some(KeyAction::Nav(Intent::Down))
    } else if c == 'k' {
        Some(KeyAction::Nav(Intent::Up))
    } else if c == 'l' {
        Some(KeyAction::Nav(Intent::Right))
    } else if c == '0' {
        Some(KeyAction::Nav(Intent::ColumnStart))
    } else if c == '$' {
        Some(KeyAction::Nav(Intent::ColumnEnd))
    } else if c == 'g' {
        Some(KeyAction::Nav(Intent::GoToStart))
    } else if c == 'G' {
        Some(KeyAction::Nav(Intent::GoToEnd))
    } else {
        None
    }
}

/// The view state a faithful terminal reaches after one step: the new
/// scroll offset, and the row the cursor command places the cursor on.
pub open spec fn step_pair(intent: Intent, start: int, row: int, total_lines: int, rows: int) -> (
    int,
    int,
) {
    (step_start(intent, start, total_lines, row, rows), step_row(intent, row, rows))
}

/// The view state after a whole sequence of navigation intents, applied
/// first to last at a fixed terminal size.
pub open spec fn run(intents: Seq<Intent>, start: int, row: int, total_lines: int, rows: int) -> (
    int,
    int,
)
    decreases intents.len(),
{
    if intents.len() == 0 {
        (start, row)
    } else {
        let next = step_pair(intents[0], start, row, total_lines, rows);
        run(intents.drop_first(), next.0, next.1, total_lines, rows)
    }
}

/// One navigation step preserves the scroll invariant
/// `0 <= start <= max_start` and keeps the cursor on a visible row.
pub proof fn lemma_step_preserves_invariant(
    intent: Intent,
    start: int,
    row: int,
    total_lines: int,
    rows: int,
)
    requires
        rows >= 2,
        total_lines >= 0,
        0 <= start <= max_start(total_lines, rows),
        0 <= row <= visible_rows(rows) - 1,
    ensures
        0 <= step_start(intent, start, total_lines, row, rows) <= max_start(total_lines, rows),
        0 <= step_row(intent, row, rows) <= visible_rows(rows) - 1,
{
}

/// The scroll invariant holds after any sequence of operations: starting
/// from a valid view state, `0 <= start <= max(0, total_lines -
/// visible_rows)` still holds at the end, and the cursor is still on a
/// visible row.
pub proof fn lemma_run_preserves_invariant(
    intents: Seq<Intent>,
    start: int,
    row: int,
    total_lines: int,
    rows: int,
)
    requires
        rows >= 2,
        total_lines >= 0,
        0 <= start <= max_start(total_lines, rows),
        0 <= row <= visible_rows(rows) - 1,
    ensures
        0 <= run(intents, start, row, total_lines, rows).0 <= max_start(total_lines, rows),
        0 <= run(intents, start, row, total_lines, rows).1 <= visible_rows(rows) - 1,
    decreases intents.len(),
{
    if intents.len() > 0 {
        let next = step_pair(intents[0], start, row, total_lines, rows);
        lemma_step_preserves_invariant(intents[0], start, row, total_lines, rows);
        lemma_run_preserves_invariant(intents.drop_first(), next.0, next.1, total_lines, rows);
    }
}

/// GoToStart, then GoToEnd, then GoToStart returns the scroll offset to 0,
/// lands on `max_start` in between, and signals a redraw exactly on the
/// transitions where the offset actually changes.
pub proof fn lemma_jump_round_trip(start: int, row: int, total_lines: int, rows: int)
    requires
        rows >= 2,
        total_lines >= 0,
        0 <= start <= max_start(total_lines, rows),
    ensures
        ({
            let s1 = step_start(Intent::GoToStart, start, total_lines, row, rows);
            let r1 = step_redraw(Intent::GoToStart, start, total_lines, row, rows);
            let s2 = step_start(Intent::GoToEnd, s1, total_lines, 0, rows);
            let r2 = step_redraw(Intent::GoToEnd, s1, total_lines, 0, rows);
            let s3 = step_start(Intent::GoToStart, s2, total_lines, visible_rows(rows) - 1, rows);
            let r3 = step_redraw(Intent::GoToStart, s2, total_lines, visible_rows(rows) - 1, rows);
            s1 == 0 && s2 == max_start(total_lines, rows) && s3 == 0 && r1 == (s1 != start) && r2
                == (s2 != s1) && r3 == (s3 != s2)
        }),
{
}

/// Down repeated any number of times never takes the scroll offset past
/// `max_start`; and a further Down at `max_start` with the cursor already
/// on the bottom row is a no-op that requests no redraw.
pub proof fn lemma_down_repeated(n: nat, start: int, row: int, total_lines: int, rows: int)
    requires
        rows >= 2,
        total_lines >= 0,
        0 <= start <= max_start(total_lines, rows),
        0 <= row <= visible_rows(rows) - 1,
    ensures
        run(Seq::new(n, |i: int| Intent::Down), start, row, total_lines, rows).0 <= max_start(
            total_lines,
            rows,
        ),
        step_start(
            Intent::Down,
            max_start(total_lines, rows),
            total_lines,
            visible_rows(rows) - 1,
            rows,
        ) == max_start(total_lines, rows),
        !step_redraw(
            Intent::Down,
            max_start(total_lines, rows),
            total_lines,
            visible_rows(rows) - 1,
            rows,
        ),
{
    lemma_run_preserves_invariant(
        Seq::new(n, |i: int| Intent::Down),
        start,
        row,
        total_lines,
        rows,
    );
}

/// Resize always requires a redraw, whatever the prior state.
pub proof fn lemma_resize_always_redraws(start: int, row: int, total_lines: int, rows: int)
    ensures
        step_redraw(Intent::Resize, start, total_lines, row, rows),
{
}

} // verus!
