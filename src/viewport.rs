//! The viewport engine: maps a scrollable, zoomable strip of pixel columns onto
//! a growing array of samples, and turns pointer input into panning and
//! selections.

use core::ops::Range;
use vstd::prelude::*;
use vstd::arithmetic::div_mod::{
    lemma_fundamental_div_mod, lemma_fundamental_div_mod_converse, lemma_mod_pos_bound,
};

verus! {

/// A half-open range of sample indices, `start <= end`.
#[derive(Debug)]
pub struct Selection {
    pub range: Range<usize>,
}

impl Clone for Selection {
    fn clone(&self) -> (r: Selection)
        ensures
            r == *self,
    {
        Selection { range: self.range.start..self.range.end }
    }
}

impl Selection {
    pub open spec fn wf_within(&self, len: nat) -> bool {
        self.range.start <= self.range.end <= len
    }

    /// The selection spanning `a` and `b`, whichever comes first.
    pub fn new(a: usize, b: usize) -> (r: Selection)
        ensures
            r.range.start == if a <= b { a } else { b },
            r.range.end == if a <= b { b } else { a },
    {
        if a <= b {
            Selection { range: a..b }
        } else {
            Selection { range: b..a }
        }
    }

    /// Moves the nearer bound to `n`: the start when `n` lies before it, the
    /// end otherwise. Returns the updated selection.
    pub fn update_bounds(&mut self, n: usize) -> (r: Selection)
        requires
            old(self).range.start <= old(self).range.end,
        ensures
            n < old(self).range.start ==> final(self).range.start == n && final(self).range.end
                == old(self).range.end,
            n >= old(self).range.start ==> final(self).range.start == old(self).range.start
                && final(self).range.end == n,
            final(self).range.start <= final(self).range.end,
            r.range == final(self).range,
    {
        if n < self.range.start {
            self.range = n..self.range.end;
        } else {
            self.range = self.range.start..n;
        }
        Selection { range: self.range.start..self.range.end }
    }
}

/// A position inside the viewport, in pixels from its top left corner.
#[derive(Clone, Copy, Debug, PartialEq, Eq, Structural)]
pub struct ScreenPos {
    pub x: u32,
    pub y: u32,
}

/// Where a pointer drag stands. A press is remembered with its position until
/// motion is first reported, so that the whole motion since the press counts.
#[derive(Clone, Copy, Debug, PartialEq, Eq, Structural)]
pub enum DragState {
    DownButNotDragging(ScreenPos),
    Dragging,
    NotDragging,
}

/// Which button, if any, the presentation layer reports as dragging.
#[derive(Clone, Copy, Debug, PartialEq, Eq, Structural)]
pub enum PointerDrag {
    NoDrag,
    Primary,
    Secondary,
}

/// What the presentation layer observed of the pointer during one frame.
#[derive(Clone, Copy, Debug)]
pub struct PointerEvent {
    /// A button is held down on the viewport.
    pub down: bool,
    /// The pointer position inside the viewport, if it is inside.
    pub pos: Option<ScreenPos>,
    /// The button being dragged.
    pub drag: PointerDrag,
    /// The motion the presentation layer reports for this frame, floored.
    pub delta_x: i64,
    pub delta_y: i64,
    /// The hover position inside the viewport, if the pointer hovers it.
    pub hover: Option<ScreenPos>,
}

/// Clamps an integer into `[0, len]`.
pub open spec fn clamp_len(v: int, len: int) -> int {
    if v < 0 {
        0
    } else if v > len {
        len
    } else {
        v
    }
}

/// Clamps an integer into `[0, usize::MAX]`.
pub open spec fn clamp_usize(v: int) -> int {
    clamp_len(v, usize::MAX as int)
}

/// The view state of one clip: its size, horizontal scale (samples per pixel
/// column), vertical scale, offset in samples, live-follow flag, selection and
/// drag state.
pub struct Timeline {
    height: usize,
    width: usize,
    sample_len: usize,
    scale: u32,
    vscale: u32,
    offset: usize,
    live: bool,
    selection: Option<Selection>,
    drag_state: DragState,
    cursor_pos: Option<ScreenPos>,
}

impl Timeline {
    pub open spec fn wf(&self) -> bool {
        &&& 1 <= self.spec_scale()
        &&& 1 <= self.spec_vscale()
        &&& match self.spec_selection() {
            Some(s) => s.wf_within(self.spec_sample_len()),
            None => true,
        }
    }

    pub closed spec fn spec_width(&self) -> nat {
        self.width as nat
    }

    pub closed spec fn spec_height(&self) -> nat {
        self.height as nat
    }

    pub closed spec fn spec_sample_len(&self) -> nat {
        self.sample_len as nat
    }

    pub closed spec fn spec_scale(&self) -> nat {
        self.scale as nat
    }

    pub closed spec fn spec_vscale(&self) -> nat {
        self.vscale as nat
    }

    pub closed spec fn spec_offset(&self) -> nat {
        self.offset as nat
    }

    pub closed spec fn spec_live(&self) -> bool {
        self.live
    }

    pub closed spec fn spec_selection(&self) -> Option<Selection> {
        self.selection
    }

    pub closed spec fn spec_drag_state(&self) -> DragState {
        self.drag_state
    }

    pub closed spec fn spec_cursor_pos(&self) -> Option<ScreenPos> {
        self.cursor_pos
    }

    /// Data coordinate of screen column `x`: `x * scale + offset`.
    pub open spec fn s2d(&self, x: int) -> int {
        x * self.spec_scale() + self.spec_offset()
    }

    /// Screen column of data coordinate `x`: `floor((x - offset) / scale)`.
    pub open spec fn d2s(&self, x: int) -> int {
        (x - self.spec_offset()) / (self.spec_scale() as int)
    }

    /// The offset that live-follow sets for `len` samples: the newest sample
    /// sits in the rightmost column, or the view starts at 0 when the data
    /// does not fill it.
    pub open spec fn live_offset(&self, len: int) -> int {
        let v = len - self.spec_width() * self.spec_scale();
        if v < 0 {
            0
        } else {
            v
        }
    }
}


proof fn lemma_floor_div_neg(m: int, s: int)
    requires
        m > 0,
        s > 0,
    ensures
        (-m) / s == -((m - 1) / s + 1),
{
    lemma_fundamental_div_mod(m - 1, s);
    lemma_mod_pos_bound(m - 1, s);
    let q = (m - 1) / s;
    let r = (m - 1) % s;
    assert(-m == (-(q + 1)) * s + (s - 1 - r)) by (nonlinear_arith)
        requires
            m - 1 == s * q + r,
    ;
    lemma_fundamental_div_mod_converse(-m, s, -(q + 1), s - 1 - r);
}

proof fn lemma_mul_bound(x: int, s: int)
    requires
        -0x1_0000_0000_0000_0000 <= x <= 0x1_0000_0000_0000_0000,
        0 <= s <= u32::MAX,
    ensures
        -0x1_0000_0000_0000_0000_0000_0000 < x * s < 0x1_0000_0000_0000_0000_0000_0000,
{
    let b: int = 0x1_0000_0000_0000_0000;
    assert(x * s <= b * s) by (nonlinear_arith)
        requires
            x <= b,
            0 <= s,
    ;
    assert(-b * s <= x * s) by (nonlinear_arith)
        requires
            -b <= x,
            0 <= s,
    ;
    assert(b * s <= b * 0x1_0000_0000) by (nonlinear_arith)
        requires
            0 <= s <= 0x1_0000_0000,
            b > 0,
    ;
}

/// Clamps `v` into `[0, len]`.
fn clamp_to(v: i128, len: usize) -> (r: usize)
    ensures
        r == clamp_len(v as int, len as int),
{
    if v < 0 {
        0
    } else if v > len as i128 {
        len
    } else {
        v as usize
    }
}

/// The drag state once a frame's button state is taken in: a press on the
/// viewport from rest remembers its position; a release ends any drag.
pub open spec fn after_press(st: DragState, ev: PointerEvent) -> DragState {
    if ev.down {
        if st == DragState::NotDragging && ev.pos.is_some() {
            DragState::DownButNotDragging(ev.pos.unwrap())
        } else {
            st
        }
    } else {
        DragState::NotDragging
    }
}

impl Timeline {
    /// A live-following view one column wide and 256 rows high, 1024 samples
    /// per column, over no data.
    pub fn new() -> (r: Timeline)
        ensures
            r.wf(),
            r.spec_width() == 1,
            r.spec_height() == 256,
            r.spec_sample_len() == 0,
            r.spec_scale() == 1024,
            r.spec_vscale() == 1,
            r.spec_offset() == 0,
            r.spec_live(),
            r.spec_selection() is None,
            r.spec_drag_state() == DragState::NotDragging,
            r.spec_cursor_pos() is None,
    {
        Timeline {
            height: 256,
            width: 1,
            sample_len: 0,
            scale: 1024,
            vscale: 1,
            offset: 0,
            live: true,
            selection: None,
            drag_state: DragState::NotDragging,
            cursor_pos: None,
        }
    }

    /// Data coordinate of screen column `x`, without the offset: `x * scale`.
    pub fn screen_to_data_x_without_offset(&self, x: i64) -> (r: i128)
        requires
            self.wf(),
        ensures
            r == x * self.spec_scale(),
    {
        proof {
            lemma_mul_bound(x as int, self.scale as int);
        }
        (x as i128) * (self.scale as i128)
    }

    /// Data coordinate of screen column `x`: `x * scale + offset`.
    pub fn screen_to_data_x(&self, x: i64) -> (r: i128)
        requires
            self.wf(),
        ensures
            r == self.s2d(x as int),
    {
        proof {
            lemma_mul_bound(x as int, self.scale as int);
        }
        (x as i128) * (self.scale as i128) + self.offset as i128
    }

    fn column_to_data(&self, x: usize) -> (r: i128)
        requires
            self.wf(),
        ensures
            r == self.s2d(x as int),
    {
        proof {
            lemma_mul_bound(x as int, self.scale as int);
        }
        (x as i128) * (self.scale as i128) + self.offset as i128
    }

    /// Screen column of data coordinate `x`: `floor((x - offset) / scale)`.
    pub fn data_to_screen_x(&self, x: usize) -> (r: i128)
        requires
            self.wf(),
        ensures
            r == self.d2s(x as int),
    {
        let s = self.scale as usize;
        if x >= self.offset {
            ((x - self.offset) / s) as i128
        } else {
            let m = self.offset - x;
            let q = (m - 1) / s + 1;
            proof {
                lemma_floor_div_neg(m as int, s as int);
            }
            -(q as i128)
        }
    }

    /// The samples shown in pixel column `x`: `[x * scale + offset, (x + 1) * scale + offset)`,
    /// both ends clamped into `[0, sample_len]`. Empty once the column lies
    /// past the data.
    pub fn screen_x_coordinate_to_data_range(&self, x: usize) -> (r: Range<usize>)
        requires
            self.wf(),
        ensures
            r.start == clamp_len(self.s2d(x as int), self.spec_sample_len() as int),
            r.end == clamp_len(self.s2d(x + 1), self.spec_sample_len() as int),
            r.start <= r.end,
    {
        let a = self.column_to_data(x);
        proof {
            lemma_mul_bound(x as int + 1, self.scale as int);
        }
        let b = (x as i128 + 1) * (self.scale as i128) + self.offset as i128;
        proof {
            assert(self.s2d(x as int) <= self.s2d(x + 1)) by (nonlinear_arith)
                requires
                    self.spec_scale() >= 1,
                    self.s2d(x as int) == x * self.spec_scale() + self.spec_offset(),
                    self.s2d(x + 1) == (x + 1) * self.spec_scale() + self.spec_offset(),
            ;
        }
        clamp_to(a, self.sample_len)..clamp_to(b, self.sample_len)
    }

    /// The pixel columns that show the samples of `range`, clamped into `[0, width]`.
    pub fn data_x_range_to_screen_x_range(&self, range: &Range<usize>) -> (r: Range<usize>)
        requires
            self.wf(),
        ensures
            r.start == clamp_len(self.d2s(range.start as int), self.spec_width() as int),
            r.end == clamp_len(self.d2s(range.end as int), self.spec_width() as int),
    {
        let a = self.data_to_screen_x(range.start);
        let b = self.data_to_screen_x(range.end);
        clamp_to(a, self.width)..clamp_to(b, self.width)
    }
}

impl Timeline {
    /// Takes in the current number of samples. A live view moves its offset
    /// so that the newest sample sits in the rightmost column (offset 0 while
    /// the data does not fill the view); a selection is cut back to the data.
    pub fn update_sample_len(&mut self, sample_len: usize)
        requires
            old(self).wf(),
        ensures
            final(self).wf(),
            final(self).spec_selection() matches Some(s) ==> s.range.start <= s.range.end
                <= sample_len,
            final(self).spec_sample_len() == sample_len,
            old(self).spec_live() ==> final(self).spec_offset() == old(self).live_offset(
                sample_len as int,
            ),
            !old(self).spec_live() ==> final(self).spec_offset() == old(self).spec_offset(),
            final(self).spec_selection() == match old(self).spec_selection() {
                Some(s) => Some(
                    Selection {
                        range: Range {
                            start: if s.range.start <= sample_len { s.range.start } else { sample_len },
                            end: if s.range.end <= sample_len { s.range.end } else { sample_len },
                        },
                    },
                ),
                None => None,
            },
            final(self).spec_width() == old(self).spec_width(),
            final(self).spec_height() == old(self).spec_height(),
            final(self).spec_scale() == old(self).spec_scale(),
            final(self).spec_vscale() == old(self).spec_vscale(),
            final(self).spec_live() == old(self).spec_live(),
            final(self).spec_drag_state() == old(self).spec_drag_state(),
            final(self).spec_cursor_pos() == old(self).spec_cursor_pos(),
    {
        self.sample_len = sample_len;
        if self.live {
            proof {
                lemma_mul_bound(self.width as int, self.scale as int);
            }
            let visible = (self.width as i128) * (self.scale as i128);
            let v = sample_len as i128 - visible;
            self.offset = if v < 0 {
                0
            } else {
                v as usize
            };
        }
        match &self.selection {
            Some(sel) => {
                let a = if sel.range.start <= sample_len {
                    sel.range.start
                } else {
                    sample_len
                };
                let b = if sel.range.end <= sample_len {
                    sel.range.end
                } else {
                    sample_len
                };
                self.selection = Some(Selection { range: a..b });
            },
            None => {},
        }
    }

    /// Pans by `delta_x` columns: leaves live-follow and moves the offset by
    /// `-delta_x * scale` samples, clamped into `[0, usize::MAX]`.
    pub fn pan_action(&mut self, delta_x: i64)
        requires
            old(self).wf(),
        ensures
            final(self).wf(),
            !final(self).spec_live(),
            final(self).spec_offset() == clamp_usize(
                old(self).spec_offset() - delta_x * old(self).spec_scale(),
            ),
            final(self).spec_sample_len() == old(self).spec_sample_len(),
            final(self).spec_width() == old(self).spec_width(),
            final(self).spec_height() == old(self).spec_height(),
            final(self).spec_scale() == old(self).spec_scale(),
            final(self).spec_vscale() == old(self).spec_vscale(),
            final(self).spec_selection() == old(self).spec_selection(),
            final(self).spec_drag_state() == old(self).spec_drag_state(),
            final(self).spec_cursor_pos() == old(self).spec_cursor_pos(),
    {
        self.live = false;
        let d = self.screen_to_data_x_without_offset(delta_x);
        proof {
            lemma_mul_bound(delta_x as int, self.scale as int);
        }
        let v = self.offset as i128 - d;
        self.offset = clamp_to(v, usize::MAX);
    }

    /// The motion of this frame. On the first reported motion after a press,
    /// the whole motion since the press (the presentation layer reports none
    /// until its threshold is crossed), and the drag begins; during a drag, the
    /// motion as reported; otherwise none.
    pub fn correct_drag_delta(&mut self, pos: Option<ScreenPos>, delta_x: i64, delta_y: i64) -> (r: (i64, i64))
        requires
            old(self).wf(),
        ensures
            final(self).wf(),
            match (old(self).spec_drag_state(), pos) {
                (DragState::DownButNotDragging(p), Some(c)) => {
                    &&& r.0 == c.x - p.x
                    &&& r.1 == c.y - p.y
                    &&& final(self).spec_drag_state() == DragState::Dragging
                },
                (DragState::Dragging, _) => {
                    &&& r == (delta_x, delta_y)
                    &&& final(self).spec_drag_state() == DragState::Dragging
                },
                _ => {
                    &&& r == (0i64, 0i64)
                    &&& final(self).spec_drag_state() == old(self).spec_drag_state()
                },
            },
            final(self).spec_live() == old(self).spec_live(),
            final(self).spec_offset() == old(self).spec_offset(),
            final(self).spec_sample_len() == old(self).spec_sample_len(),
            final(self).spec_width() == old(self).spec_width(),
            final(self).spec_height() == old(self).spec_height(),
            final(self).spec_scale() == old(self).spec_scale(),
            final(self).spec_vscale() == old(self).spec_vscale(),
            final(self).spec_selection() == old(self).spec_selection(),
            final(self).spec_cursor_pos() == old(self).spec_cursor_pos(),
    {
        match self.drag_state {
            DragState::DownButNotDragging(p) => match pos {
                Some(c) => {
                    self.drag_state = DragState::Dragging;
                    (c.x as i64 - p.x as i64, c.y as i64 - p.y as i64)
                },
                None => (0, 0),
            },
            DragState::Dragging => (delta_x, delta_y),
            DragState::NotDragging => (0, 0),
        }
    }

    /// Sets the horizontal scale to `scale`, at least 1,
    /// keeping the data coordinate under column `screen_pos` in place (as far
    /// as the offset can go). A live view keeps its offset: live-follow sets it.
    pub fn update_scale(&mut self, scale: u32, screen_pos: usize)
        requires
            old(self).wf(),
        ensures
            final(self).wf(),
            final(self).spec_scale() == if scale < 1 {
                1
            } else {
                scale as int
            },
            final(self).spec_scale() == old(self).spec_scale() || old(self).spec_live()
                ==> final(self).spec_offset() == old(self).spec_offset(),
            final(self).spec_scale() != old(self).spec_scale() && !old(self).spec_live()
                ==> final(self).spec_offset() == clamp_usize(
                old(self).s2d(screen_pos as int) - screen_pos * final(self).spec_scale(),
            ),
            final(self).spec_scale() != old(self).spec_scale() && !old(self).spec_live() && 0
                <= old(self).s2d(screen_pos as int) - screen_pos * final(self).spec_scale()
                <= usize::MAX ==> final(self).s2d(screen_pos as int) == old(self).s2d(
                screen_pos as int,
            ),
            final(self).spec_live() == old(self).spec_live(),
            final(self).spec_sample_len() == old(self).spec_sample_len(),
            final(self).spec_width() == old(self).spec_width(),
            final(self).spec_height() == old(self).spec_height(),
            final(self).spec_vscale() == old(self).spec_vscale(),
            final(self).spec_selection() == old(self).spec_selection(),
            final(self).spec_drag_state() == old(self).spec_drag_state(),
            final(self).spec_cursor_pos() == old(self).spec_cursor_pos(),
    {
        let scale = if scale < 1 {
            1
        } else {
            scale
        };
        if self.scale == scale {
            return;
        }
        let adj = self.column_to_data(screen_pos);
        self.scale = scale;
        if !self.live {
            let w = self.column_to_data(screen_pos) - self.offset as i128;
            self.offset = clamp_to(adj - w, usize::MAX);
        }
    }

    /// Clamps a data coordinate into `[0, sample_len]`.
    fn clamp_data(&self, v: i128) -> (r: usize)
        ensures
            r == clamp_len(v as int, self.spec_sample_len() as int),
    {
        clamp_to(v, self.sample_len)
    }

    /// Handles one frame of pointer input. A press from rest remembers where
    /// it happened; a release ends the drag. A primary drag selects from the
    /// data under the press to the data under the pointer, both clamped into
    /// the data; a secondary drag pans by the corrected motion. The cursor
    /// follows the hover position.
    pub fn interact(&mut self, ev: &PointerEvent)
        requires
            old(self).wf(),
        ensures
            final(self).wf(),
            final(self).spec_selection() matches Some(s) ==> s.range.start <= s.range.end
                <= final(self).spec_sample_len(),
            final(self).spec_cursor_pos() == ev.hover,
            final(self).spec_sample_len() == old(self).spec_sample_len(),
            final(self).spec_width() == old(self).spec_width(),
            final(self).spec_scale() == old(self).spec_scale(),
            ({
                let st = after_press(old(self).spec_drag_state(), *ev);
                let len = old(self).spec_sample_len() as int;
                match (ev.drag, ev.pos) {
                    (PointerDrag::Primary, Some(cur)) => {
                        let c = clamp_len(old(self).s2d(cur.x as int), len);
                        &&& final(self).spec_drag_state() == st
                        &&& final(self).spec_offset() == old(self).spec_offset()
                        &&& final(self).spec_live() == old(self).spec_live()
                        &&& match st {
                            DragState::DownButNotDragging(b) => {
                                let a = clamp_len(old(self).s2d(b.x as int), len);
                                &&& final(self).spec_selection() is Some
                                &&& final(self).spec_selection()->0.range.start == if a <= c { a } else { c }
                                &&& final(self).spec_selection()->0.range.end == if a <= c { c } else { a }
                            },
                            _ => match old(self).spec_selection() {
                                Some(s) => {
                                    &&& final(self).spec_selection() is Some
                                    &&& c < s.range.start ==> final(self).spec_selection()->0.range
                                        == Range { start: c as usize, end: s.range.end }
                                    &&& c >= s.range.start ==> final(self).spec_selection()->0.range
                                        == Range { start: s.range.start, end: c as usize }
                                },
                                None => final(self).spec_selection() is None,
                            },
                        }
                    },
                    (PointerDrag::Secondary, _) => {
                        &&& final(self).spec_selection() == old(self).spec_selection()
                        &&& !final(self).spec_live()
                        &&& match (st, ev.pos) {
                            (DragState::DownButNotDragging(p), Some(c)) => {
                                &&& final(self).spec_drag_state() == DragState::Dragging
                                &&& final(self).spec_offset() == clamp_usize(
                                    old(self).spec_offset() - (c.x - p.x) * old(self).spec_scale(),
                                )
                            },
                            (DragState::Dragging, _) => {
                                &&& final(self).spec_drag_state() == DragState::Dragging
                                &&& final(self).spec_offset() == clamp_usize(
                                    old(self).spec_offset() - ev.delta_x * old(self).spec_scale(),
                                )
                            },
                            _ => {
                                &&& final(self).spec_drag_state() == st
                                &&& final(self).spec_offset() == old(self).spec_offset()
                            },
                        }
                    },
                    _ => {
                        &&& final(self).spec_drag_state() == st
                        &&& final(self).spec_selection() == old(self).spec_selection()
                        &&& final(self).spec_offset() == old(self).spec_offset()
                        &&& final(self).spec_live() == old(self).spec_live()
                    },
                }
            }),
    {
        if ev.down {
            if self.drag_state == DragState::NotDragging {
                if let Some(p) = ev.pos {
                    self.drag_state = DragState::DownButNotDragging(p);
                }
            }
        } else {
            self.drag_state = DragState::NotDragging;
        }
        match ev.drag {
            PointerDrag::Primary => {
                if let Some(cur) = ev.pos {
                    let current = self.clamp_data(self.screen_to_data_x(cur.x as i64));
                    if let DragState::DownButNotDragging(begin) = self.drag_state {
                        let start = self.clamp_data(self.screen_to_data_x(begin.x as i64));
                        self.selection = Some(Selection::new(start, current));
                    } else {
                        let mut sel = self.selection.take();
                        if let Some(s) = &mut sel {
                            s.update_bounds(current);
                        }
                        self.selection = sel;
                    }
                }
            },
            PointerDrag::Secondary => {
                let d = self.correct_drag_delta(ev.pos, ev.delta_x, ev.delta_y);
                self.pan_action(d.0);
            },
            PointerDrag::NoDrag => {},
        }
        self.cursor_pos = ev.hover;
    }
}

/// With live-follow on, once the view has taken in the sample count (as
/// `update_sample_len` leaves it), the newest sample lies in the rightmost
/// column when the data fills the view, and the view starts at sample 0 when
/// it does not.
pub proof fn lemma_live_follow_right_edge(t: Timeline)
    requires
        t.wf(),
        t.spec_live(),
        t.spec_width() >= 1,
        t.spec_offset() == t.live_offset(t.spec_sample_len() as int),
    ensures
        t.spec_sample_len() >= t.spec_width() * t.spec_scale() ==> t.s2d(t.spec_width() - 1)
            <= t.spec_sample_len() - 1 < t.s2d(t.spec_width() as int),
        t.spec_sample_len() < t.spec_width() * t.spec_scale() ==> t.spec_offset() == 0,
{
    let w = t.spec_width() as int;
    let s = t.spec_scale() as int;
    let len = t.spec_sample_len() as int;
    if len >= w * s {
        assert((w - 1) * s == w * s - s) by (nonlinear_arith);
    }
}

impl Timeline {
    pub fn width(&self) -> (r: usize)
        ensures
            r == self.spec_width(),
    {
        self.width
    }

    pub fn height(&self) -> (r: usize)
        ensures
            r == self.spec_height(),
    {
        self.height
    }

    pub fn sample_len(&self) -> (r: usize)
        ensures
            r == self.spec_sample_len(),
    {
        self.sample_len
    }

    pub fn scale(&self) -> (r: u32)
        ensures
            r == self.spec_scale(),
    {
        self.scale
    }

    pub fn vscale(&self) -> (r: u32)
        ensures
            r == self.spec_vscale(),
    {
        self.vscale
    }

    pub fn offset(&self) -> (r: usize)
        ensures
            r == self.spec_offset(),
    {
        self.offset
    }

    pub fn is_live(&self) -> (r: bool)
        ensures
            r == self.spec_live(),
    {
        self.live
    }

    pub fn selection(&self) -> (r: Option<Selection>)
        ensures
            r == self.spec_selection(),
    {
        match &self.selection {
            Some(s) => Some(s.clone()),
            None => None,
        }
    }

    pub fn drag_state(&self) -> (r: DragState)
        ensures
            r == self.spec_drag_state(),
    {
        self.drag_state
    }

    pub fn cursor_pos(&self) -> (r: Option<ScreenPos>)
        ensures
            r == self.spec_cursor_pos(),
    {
        self.cursor_pos
    }

    /// Sets the size of the view in pixels.
    pub fn set_size(&mut self, width: usize, height: usize)
        requires
            old(self).wf(),
        ensures
            final(self).wf(),
            final(self).spec_width() == width,
            final(self).spec_height() == height,
            final(self).spec_sample_len() == old(self).spec_sample_len(),
            final(self).spec_scale() == old(self).spec_scale(),
            final(self).spec_vscale() == old(self).spec_vscale(),
            final(self).spec_offset() == old(self).spec_offset(),
            final(self).spec_live() == old(self).spec_live(),
            final(self).spec_selection() == old(self).spec_selection(),
            final(self).spec_drag_state() == old(self).spec_drag_state(),
            final(self).spec_cursor_pos() == old(self).spec_cursor_pos(),
    {
        self.width = width;
        self.height = height;
    }

    /// Turns live-follow on or off.
    pub fn set_live(&mut self, live: bool)
        requires
            old(self).wf(),
        ensures
            final(self).wf(),
            final(self).spec_live() == live,
            final(self).spec_width() == old(self).spec_width(),
            final(self).spec_height() == old(self).spec_height(),
            final(self).spec_sample_len() == old(self).spec_sample_len(),
            final(self).spec_scale() == old(self).spec_scale(),
            final(self).spec_vscale() == old(self).spec_vscale(),
            final(self).spec_offset() == old(self).spec_offset(),
            final(self).spec_selection() == old(self).spec_selection(),
            final(self).spec_drag_state() == old(self).spec_drag_state(),
            final(self).spec_cursor_pos() == old(self).spec_cursor_pos(),
    {
        self.live = live;
    }

    /// Sets the vertical scale, at least 1.
    pub fn set_vscale(&mut self, vscale: u32)
        requires
            old(self).wf(),
        ensures
            final(self).wf(),
            final(self).spec_vscale() == if vscale < 1 { 1 } else { vscale as int },
            final(self).spec_width() == old(self).spec_width(),
            final(self).spec_height() == old(self).spec_height(),
            final(self).spec_sample_len() == old(self).spec_sample_len(),
            final(self).spec_scale() == old(self).spec_scale(),
            final(self).spec_offset() == old(self).spec_offset(),
            final(self).spec_live() == old(self).spec_live(),
            final(self).spec_selection() == old(self).spec_selection(),
            final(self).spec_drag_state() == old(self).spec_drag_state(),
            final(self).spec_cursor_pos() == old(self).spec_cursor_pos(),
    {
        self.vscale = if vscale < 1 {
            1
        } else {
            vscale
        };
    }
}

impl Timeline {
    /// The smallest and largest of the samples shown in pixel column `x`, or
    /// none when the column lies past the data. `samples` is the data whose
    /// length the view last took in (or a longer snapshot of it).
    pub fn column_extent(&self, samples: &[i16], x: usize) -> (r: Option<(i16, i16)>)
        requires
            self.wf(),
            self.spec_sample_len() <= samples@.len(),
        ensures
            ({
                let a = clamp_len(self.s2d(x as int), self.spec_sample_len() as int);
                let b = clamp_len(self.s2d(x + 1), self.spec_sample_len() as int);
                match r {
                    None => a == b,
                    Some((lo, hi)) => {
                        &&& a < b
                        &&& forall|k: int| a <= k < b ==> lo <= #[trigger] samples@[k] <= hi
                        &&& exists|k: int| a <= k < b && samples@[k] == lo
                        &&& exists|k: int| a <= k < b && samples@[k] == hi
                    },
                }
            }),
    {
        let range = self.screen_x_coordinate_to_data_range(x);
        let a = range.start;
        let b = range.end;
        if a >= b {
            return None;
        }
        let mut lo = samples[a];
        let mut hi = samples[a];
        let mut i = a + 1;
        while i < b
            invariant
                a < i <= b,
                b <= samples@.len(),
                forall|k: int| a <= k < i ==> lo <= #[trigger] samples@[k] <= hi,
                exists|k: int| a <= k < i && samples@[k] == lo,
                exists|k: int| a <= k < i && samples@[k] == hi,
            decreases b - i,
        {
            let v = samples[i];
            if v < lo {
                lo = v;
            }
            if v > hi {
                hi = v;
            }
            i = i + 1;
        }
        Some((lo, hi))
    }

    /// `e` is the (min, max) of the samples in pixel column `x`, which is
    /// not empty.
    pub open spec fn is_column_extent(&self, samples: Seq<i16>, x: int, e: (i16, i16)) -> bool {
        let a = clamp_len(self.s2d(x), self.spec_sample_len() as int);
        let b = clamp_len(self.s2d(x + 1), self.spec_sample_len() as int);
        &&& a < b
        &&& forall|k: int| a <= k < b ==> e.0 <= #[trigger] samples[k] <= e.1
        &&& exists|k: int| a <= k < b && samples[k] == e.0
        &&& exists|k: int| a <= k < b && samples[k] == e.1
    }

    /// Pixel column `x` shows no sample.
    pub open spec fn column_empty(&self, x: int) -> bool {
        clamp_len(self.s2d(x), self.spec_sample_len() as int) == clamp_len(
            self.s2d(x + 1),
            self.spec_sample_len() as int,
        )
    }

    /// The extents of the columns from the left edge up to the first one
    /// past the data (or the view's width): one `(min, max)` pair per
    /// column, so that no column past the data and none past the width is
    /// read.
    pub fn visible_extents(&self, samples: &[i16]) -> (r: Vec<(i16, i16)>)
        requires
            self.wf(),
            self.spec_sample_len() <= samples@.len(),
        ensures
            r@.len() <= self.spec_width(),
            r@.len() < self.spec_width() ==> self.column_empty(r@.len() as int),
            forall|x: int| 0 <= x < r@.len() ==> self.is_column_extent(samples@, x, #[trigger] r@[x]),
    {
        let mut out: Vec<(i16, i16)> = Vec::new();
        let mut x: usize = 0;
        let mut done = false;
        while x < self.width && !done
            invariant
                self.wf(),
                self.spec_sample_len() <= samples@.len(),
                x <= self.width,
                done ==> x < self.width && self.column_empty(x as int),
                out@.len() == x,
                forall|c: int| 0 <= c < out@.len() ==> self.is_column_extent(samples@, c, #[trigger] out@[c]),
            decreases self.width - x + if done { 0int } else { 1int },
        {
            match self.column_extent(samples, x) {
                Some(e) => {
                    let ghost before = out@;
                    out.push(e);
                    assert(self.is_column_extent(samples@, x as int, e));
                    assert forall|c: int| 0 <= c < out@.len() implies self.is_column_extent(
                        samples@,
                        c,
                        #[trigger] out@[c],
                    ) by {
                        if c < x {
                            assert(out@[c] == before[c]);
                        }
                    }
                    x = x + 1;
                },
                None => {
                    done = true;
                },
            }
        }
        out
    }

    /// Index of pixel `(x, y)` in a row-major image of the view's size, each
    /// coordinate clamped into the view.
    pub fn screen_to_image_idx(&self, x: usize, y: usize) -> (r: usize)
        requires
            self.spec_width() >= 1,
            self.spec_height() >= 1,
            self.spec_width() * self.spec_height() <= usize::MAX,
        ensures
            r == (if y < self.spec_height() { y as int } else { self.spec_height() - 1 })
                * self.spec_width() + (if x < self.spec_width() { x as int } else { self.spec_width() - 1 }),
            r < self.spec_width() * self.spec_height(),
    {
        let cy = if y < self.height {
            y
        } else {
            self.height - 1
        };
        let cx = if x < self.width {
            x
        } else {
            self.width - 1
        };
        proof {
            let w = self.width as int;
            let h = self.height as int;
            assert(cy * w + cx < w * h) by (nonlinear_arith)
                requires
                    0 <= cy < h,
                    0 <= cx < w,
            ;
            assert(cy * w <= w * h) by (nonlinear_arith)
                requires
                    0 <= cy < h,
                    0 <= w,
            ;
        }
        cy * self.width + cx
    }
}

} // verus!