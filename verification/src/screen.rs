//! Assembling a full screen of output: one formatted buffer line per
//! visible row, from the scroll offset down, and the status message fitted
//! to the terminal width on the final row.

use vstd::prelude::*;

use crate::formatter::{fit_to_width, fitted, format_line, raw_line};
use crate::viewport::LINE_LENGTH;

verus! {

/// The whole frame for one repaint: for each screen row `r` in
/// `0..rows - 1` the formatted line `start + r` of the buffer, fitted to
/// `cols` characters, and on the last row the status message fitted the
/// same way.
pub fn render_frame(buffer: &Vec<u8>, start: usize, rows: u16, cols: usize, status: &str) -> (frame:
    Vec<String>)
    requires
        rows >= 1,
        (start + rows) * LINE_LENGTH <= usize::MAX,
    ensures
        frame@.len() == rows,
        forall|r: int|
            0 <= r < rows - 1 ==> frame@[r]@ == fitted(
                raw_line(buffer@, start + r, LINE_LENGTH as int),
                cols as int,
            ),
        frame@[rows - 1]@ == fitted(status@, cols as int),
        forall|r: int| 0 <= r < rows ==> frame@[r]@.len() == cols,
{
    let mut frame: Vec<String> = Vec::new();
    let visible: usize = (rows - 1) as usize;
    let mut r: usize = 0;
    while r < visible
        invariant
            r <= visible,
            visible == rows - 1,
            (start + rows) * LINE_LENGTH <= usize::MAX,
            frame@.len() == r,
            forall|i: int|
                0 <= i < r ==> frame@[i]@ == fitted(
                    raw_line(buffer@, start + i, LINE_LENGTH as int),
                    cols as int,
                ),
            forall|i: int| 0 <= i < r ==> frame@[i]@.len() == cols,
        decreases visible - r,
    {
        proof {
            assert((start + r) * LINE_LENGTH <= (start + rows) * LINE_LENGTH) by (nonlinear_arith)
                requires r < rows, LINE_LENGTH > 0;
        }
        let line = format_line(buffer, start + r, LINE_LENGTH, cols);
        frame.push(line);
        r += 1;
    }
    let status_line = fit_to_width(status, cols);
    frame.push(status_line);
    frame
}

} // verus!
