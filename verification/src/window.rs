//! Viewport cache-window manager.
//!
//! Decides, from the scroll position and the viewport size, which line
//! range must be considered rendered, and when the render cache must be
//! invalidated. Small scrolls that stay within the safety margin keep
//! the stored window; scrolls past the margin, resizes, and the first
//! event after creation replace it.

use vstd::prelude::*;

verus! {

/// Pixel height of one rendered line.
pub const LINE_HEIGHT_PX: u64 = 20;

/// How many viewport heights of margin pad the window on each side.
pub const MARGIN_MULTIPLIER: u64 = 2;

/// How many lines a viewport of the given pixel height shows, rounded
/// up, with one spare line at each edge.
pub open spec fn spec_visible_lines(viewport_height: int) -> int {
    (viewport_height + LINE_HEIGHT_PX - 1) / (LINE_HEIGHT_PX as int) + 2
}

/// The first line a scroll offset in pixels brings into view.
pub open spec fn spec_first_visible(scroll_offset: int) -> int {
    scroll_offset / (LINE_HEIGHT_PX as int)
}

/// The margin, in lines, padded on each side of the visible range.
pub open spec fn spec_margin(viewport_height: int) -> int {
    spec_visible_lines(viewport_height) * (MARGIN_MULTIPLIER as int)
}

/// The line range that must be considered rendered, with its safety
/// margin, and the viewport it was computed for.
pub struct CacheWindow {
    window_start_line: u64,
    window_end_line: u64,
    established: bool,
    viewport_width: u32,
    viewport_height: u32,
}

impl CacheWindow {
    /// The first line of the stored window.
    pub closed spec fn start_line(&self) -> int {
        self.window_start_line as int
    }

    /// The line one past the stored window.
    pub closed spec fn end_line(&self) -> int {
        self.window_end_line as int
    }

    /// Whether a window has been computed yet.
    pub closed spec fn is_established(&self) -> bool {
        self.established
    }

    /// The viewport size the stored window was computed for.
    pub closed spec fn viewport(&self) -> (int, int) {
        (self.viewport_width as int, self.viewport_height as int)
    }

    /// The window a scroll event computes: the visible range padded by
    /// the margin on each side, clamped at the document start.
    pub closed spec fn spec_rewindowed(scroll_offset: int, w: int, h: int) -> CacheWindow {
        let first = spec_first_visible(scroll_offset);
        let visible = spec_visible_lines(h);
        let margin = spec_margin(h);
        CacheWindow {
            window_start_line: (if first >= margin {
                first - margin
            } else {
                0
            }) as u64,
            window_end_line: (first + visible + margin) as u64,
            established: true,
            viewport_width: w as u32,
            viewport_height: h as u32,
        }
    }

    /// Whether a scroll or resize event must replace the stored window
    /// and invalidate the render cache: no window is established yet,
    /// the viewport size changed, the first visible line crossed into
    /// the lower half of the margin below the window start, or the
    /// last visible line crossed into the upper half of the margin
    /// above the window end. At the document start, where the window
    /// is clamped to line zero, nothing below it can come into view
    /// and the lower test is moot.
    pub open spec fn spec_should_rewindow(self, scroll_offset: int, w: int, h: int) -> bool {
        let first = spec_first_visible(scroll_offset);
        let last = first + spec_visible_lines(h);
        let margin = spec_margin(h);
        ||| !self.is_established()
        ||| self.viewport() != (w, h)
        ||| (self.start_line() > 0 && first < self.start_line() + margin / 2)
        ||| last > self.end_line() - margin / 2
    }

    /// Creates a manager with no window established: the first event
    /// always invalidates.
    pub fn new() -> (r: CacheWindow)
        ensures
            !r.is_established(),
    {
        CacheWindow {
            window_start_line: 0,
            window_end_line: 0,
            established: false,
            viewport_width: 0,
            viewport_height: 0,
        }
    }

    /// Returns the first line of the stored window.
    pub fn window_start(&self) -> (r: u64)
        ensures
            r as int == self.start_line(),
    {
        self.window_start_line
    }

    /// Returns the line one past the stored window.
    pub fn window_end(&self) -> (r: u64)
        ensures
            r as int == self.end_line(),
    {
        self.window_end_line
    }

    /// Handles a scroll or resize event: replaces the stored window
    /// when the safety margin is breached, the viewport changed, or no
    /// window stood yet, and says whether the render cache must be
    /// invalidated. A scroll that stays within the margin keeps the
    /// stored window.
    pub fn on_scroll(&mut self, scroll_offset: u64, viewport_width: u32, viewport_height: u32) -> (invalidated: bool)
        ensures
            invalidated == old(self).spec_should_rewindow(
                scroll_offset as int,
                viewport_width as int,
                viewport_height as int,
            ),
            invalidated ==> *final(self) == CacheWindow::spec_rewindowed(
                scroll_offset as int,
                viewport_width as int,
                viewport_height as int,
            ),
            !invalidated ==> *final(self) == *old(self),
    {
        let visible: u64 = (viewport_height as u64 + (LINE_HEIGHT_PX - 1)) / LINE_HEIGHT_PX + 2;
        let first: u64 = scroll_offset / LINE_HEIGHT_PX;
        proof {
            assert(first <= u64::MAX / 20) by (nonlinear_arith)
                requires first == scroll_offset as int / 20 && scroll_offset <= u64::MAX;
            assert(visible <= u64::MAX / 20 + 3) by (nonlinear_arith)
                requires visible == (viewport_height as int + 19) / 20 + 2 && viewport_height
                    <= u32::MAX;
        }
        let last: u64 = first + visible;
        let margin: u64 = visible * MARGIN_MULTIPLIER;
        let rewindow = !self.established || viewport_width != self.viewport_width
            || viewport_height != self.viewport_height || (self.window_start_line > 0 && (
        first as u128) < self.window_start_line as u128 + (margin / 2) as u128) || (last + margin
            / 2) as u128 > self.window_end_line as u128;
        if rewindow {
            self.window_start_line = if first >= margin {
                first - margin
            } else {
                0
            };
            self.window_end_line = last + margin;
            self.established = true;
            self.viewport_width = viewport_width;
            self.viewport_height = viewport_height;
            true
        } else {
            false
        }
    }
}

/// A scroll of at most half the margin away from the window's own
/// scroll position does not replace the stored window.
pub proof fn lemma_window_stable_within_half_margin(o1: int, w: int, h: int, o2: int)
    requires
        0 <= o1 <= u64::MAX,
        0 <= o2 <= u64::MAX,
        0 <= h <= u32::MAX,
        0 <= w <= u32::MAX,
        spec_first_visible(o2) <= spec_first_visible(o1) + spec_margin(h) / 2,
        spec_first_visible(o1) <= spec_first_visible(o2) + spec_margin(h) / 2,
    ensures
        !CacheWindow::spec_rewindowed(o1, w, h).spec_should_rewindow(o2, w, h),
{
    let f1 = spec_first_visible(o1);
    let f2 = spec_first_visible(o2);
    let visible = spec_visible_lines(h);
    let margin = spec_margin(h);
    assert(visible >= 2) by (nonlinear_arith)
        requires visible == (h + 19) / 20 + 2 && h >= 0;
    assert(margin == 2 * visible);
    assert(margin / 2 == visible);
    assert(0 <= f1 <= u64::MAX / 20) by (nonlinear_arith)
        requires f1 == o1 / 20 && 0 <= o1 <= u64::MAX;
    assert(0 <= f2 <= u64::MAX / 20) by (nonlinear_arith)
        requires f2 == o2 / 20 && 0 <= o2 <= u64::MAX;
    assert(visible <= u32::MAX / 20 + 3) by (nonlinear_arith)
        requires visible == (h + 19) / 20 + 2 && 0 <= h <= u32::MAX;
    let win = CacheWindow::spec_rewindowed(o1, w, h);
    assert(win.start_line() == if f1 >= margin {
        f1 - margin
    } else {
        0
    });
    assert(win.end_line() == f1 + visible + margin);
    if win.start_line() > 0 {
        assert(f2 >= f1 - margin / 2);
        assert(win.start_line() + margin / 2 == f1 - margin + margin / 2);
        assert(!(f2 < win.start_line() + margin / 2));
    }
    assert(f2 + visible <= f1 + visible + margin / 2);
    assert(!(f2 + visible > win.end_line() - margin / 2));
}

/// A scroll past the margin boundary, in either direction, replaces
/// the stored window.
pub proof fn lemma_window_rewindows_beyond_margin(o1: int, w: int, h: int, o2: int)
    requires
        0 <= o1 <= u64::MAX,
        0 <= o2 <= u64::MAX,
        0 <= h <= u32::MAX,
        0 <= w <= u32::MAX,
        spec_first_visible(o2) > spec_first_visible(o1) + spec_margin(h) || (spec_first_visible(o1)
            > spec_margin(h) && spec_first_visible(o2) < spec_first_visible(o1) - spec_margin(h)),
    ensures
        CacheWindow::spec_rewindowed(o1, w, h).spec_should_rewindow(o2, w, h),
{
    let f1 = spec_first_visible(o1);
    let f2 = spec_first_visible(o2);
    let visible = spec_visible_lines(h);
    let margin = spec_margin(h);
    assert(visible >= 2) by (nonlinear_arith)
        requires visible == (h + 19) / 20 + 2 && h >= 0;
    assert(margin == 2 * visible);
    assert(margin / 2 == visible);
    assert(0 <= f1 <= u64::MAX / 20) by (nonlinear_arith)
        requires f1 == o1 / 20 && 0 <= o1 <= u64::MAX;
    assert(0 <= f2 <= u64::MAX / 20) by (nonlinear_arith)
        requires f2 == o2 / 20 && 0 <= o2 <= u64::MAX;
    assert(visible <= u32::MAX / 20 + 3) by (nonlinear_arith)
        requires visible == (h + 19) / 20 + 2 && 0 <= h <= u32::MAX;
    let win = CacheWindow::spec_rewindowed(o1, w, h);
    if f2 > f1 + margin {
        assert(f2 + visible > win.end_line() - margin / 2);
    } else {
        assert(win.start_line() == f1 - margin);
        assert(f2 < win.start_line() + margin / 2);
    }
}

} // verus!
