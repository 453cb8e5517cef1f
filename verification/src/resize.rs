//! The resize negotiator: converts a rendering surface's pixel size and a
//! monospace font's metrics into a target row/column count, and decides
//! whether a resize request must be sent to the terminal engine.

use vstd::prelude::*;

verus! {

/// A terminal geometry: the grid's row and column count and the pixel size
/// of the surface it fills.
#[derive(Debug, Clone, Copy, PartialEq, Eq, Structural)]
pub struct TerminalSize {
    pub rows: usize,
    pub cols: usize,
    pub pixel_width: usize,
    pub pixel_height: usize,
}

/// The row count that fills the reserved fraction of `pixel_height` at
/// `line_height` pixels per row: the grid is given 39/50 (0.78) of the
/// surface height, the rest is reserved for non-terminal chrome.
pub open spec fn target_rows(pixel_height: int, line_height: int) -> int {
    39 * pixel_height / (50 * line_height)
}

/// The column count that fills `pixel_width` when a monospace column is 3/5
/// (0.6) of a line height wide.
pub open spec fn target_cols(pixel_width: int, line_height: int) -> int {
    5 * pixel_width / (3 * line_height)
}

/// Computes the target grid size for a surface and decides whether a resize
/// request must be emitted: `None` exactly when the computed target matches
/// the engine's current size, so no redundant reflow is triggered. A zero
/// pixel size yields a zero target; the owner treats that as "suspend
/// rendering" rather than resizing the engine.
pub fn negotiate_resize(
    pixel_width: usize,
    pixel_height: usize,
    line_height: usize,
    current_rows: usize,
    current_cols: usize,
) -> (r: Option<TerminalSize>)
    requires
        line_height >= 1,
        39 * pixel_height <= usize::MAX,
        5 * pixel_width <= usize::MAX,
        50 * line_height <= usize::MAX,
    ensures
        ({
            let tr = target_rows(pixel_height as int, line_height as int);
            let tc = target_cols(pixel_width as int, line_height as int);
            match r {
                None => tr == current_rows && tc == current_cols,
                Some(size) => (tr != current_rows || tc != current_cols) && size == (TerminalSize {
                    rows: tr as usize,
                    cols: tc as usize,
                    pixel_width,
                    pixel_height,
                }),
            }
        }),
{
    let tr = (39 * pixel_height) / (50 * line_height);
    let tc = (5 * pixel_width) / (3 * line_height);
    if tr == current_rows && tc == current_cols {
        None
    } else {
        Some(TerminalSize { rows: tr, cols: tc, pixel_width, pixel_height })
    }
}

/// Floor division against a doubled numerator: the quotient at least doubles
/// and at most doubles plus one.
proof fn lemma_div_double(a: int, d: int)
    requires
        a >= 0,
        d >= 1,
    ensures
        2 * (a / d) <= (2 * a) / d <= 2 * (a / d) + 1,
{
    assert(2 * (a / d) <= (2 * a) / d <= 2 * (a / d) + 1) by (nonlinear_arith)
        requires a >= 0, d >= 1;
}

/// A pixel size that corresponds exactly to the current grid size computes
/// that same grid size as its target, so no resize request is emitted.
pub proof fn lemma_resize_fixed_point(
    rows: int,
    cols: int,
    line_height: int,
    pixel_height: int,
    pixel_width: int,
)
    requires
        line_height >= 1,
        rows >= 0,
        cols >= 0,
        50 * rows * line_height <= 39 * pixel_height,
        39 * pixel_height < 50 * (rows + 1) * line_height,
        3 * cols * line_height <= 5 * pixel_width,
        5 * pixel_width < 3 * (cols + 1) * line_height,
    ensures
        target_rows(pixel_height, line_height) == rows,
        target_cols(pixel_width, line_height) == cols,
{
    assert(39 * pixel_height / (50 * line_height) == rows) by (nonlinear_arith)
        requires
            line_height >= 1,
            rows >= 0,
            50 * rows * line_height <= 39 * pixel_height,
            39 * pixel_height < 50 * (rows + 1) * line_height;
    assert(5 * pixel_width / (3 * line_height) == cols) by (nonlinear_arith)
        requires
            line_height >= 1,
            cols >= 0,
            3 * cols * line_height <= 5 * pixel_width,
            5 * pixel_width < 3 * (cols + 1) * line_height;
}

/// Doubling the surface's pixel size at least doubles, and at most doubles
/// plus one, the computed target rows and columns; the slack is floor
/// rounding.
pub proof fn lemma_resize_double(pixel_width: int, pixel_height: int, line_height: int)
    requires
        line_height >= 1,
        pixel_width >= 0,
        pixel_height >= 0,
    ensures
        2 * target_rows(pixel_height, line_height) <= target_rows(2 * pixel_height, line_height),
        target_rows(2 * pixel_height, line_height) <= 2 * target_rows(pixel_height, line_height)
            + 1,
        2 * target_cols(pixel_width, line_height) <= target_cols(2 * pixel_width, line_height),
        target_cols(2 * pixel_width, line_height) <= 2 * target_cols(pixel_width, line_height) + 1,
{
    lemma_div_double(39 * pixel_height, 50 * line_height);
    lemma_div_double(5 * pixel_width, 3 * line_height);
    assert(39 * (2 * pixel_height) == 2 * (39 * pixel_height));
    assert(5 * (2 * pixel_width) == 2 * (5 * pixel_width));
}

} // verus!
