//! Pixel grids and the layout of the scrolling note display.

use crate::color::{Rgb, Rgba};
use vstd::prelude::*;

verus! {

/// Anything that fixes the size of a canvas.
pub trait CanvasWidthHeight {
    /// Number of columns.
    spec fn spec_width(&self) -> nat;

    /// Number of rows.
    spec fn spec_height(&self) -> nat;

    /// Number of columns.
    fn width(&self) -> (w: u32)
        ensures
            w == self.spec_width(),
    ;

    /// Number of rows.
    fn height(&self) -> (h: u32)
        ensures
            h == self.spec_height(),
    ;
}

/// `slice.rotate_right(k)` of the standard library: the last `k` elements
/// move to the front and the others follow in their old order. It panics
/// when `k` exceeds the length, which the precondition rules out.
pub assume_specification<Elem>[ <[Elem]>::rotate_right ](slice: &mut [Elem], k: usize)
    requires
        k <= old(slice)@.len(),
    ensures
        final(slice)@ == old(slice)@.subrange(old(slice)@.len() - k, old(slice)@.len() as int)
            + old(slice)@.subrange(0, old(slice)@.len() - k),
;

/// A row-major grid of `w` columns and `h` rows.
pub struct Canvas<T> {
    data: Vec<T>,
    w: u32,
    h: u32,
}

impl<T> View for Canvas<T> {
    type V = Seq<T>;

    /// The cells, row after row.
    closed spec fn view(&self) -> Seq<T> {
        self.data@
    }
}

impl<T> Canvas<T> {
    /// Number of columns.
    pub closed spec fn spec_width(&self) -> nat {
        self.w as nat
    }

    /// Number of rows.
    pub closed spec fn spec_height(&self) -> nat {
        self.h as nat
    }

    /// The grid holds exactly one cell per column and row.
    pub open spec fn wf(&self) -> bool {
        self@.len() == self.spec_width() * self.spec_height()
    }

    /// Row `r` as a sequence of `w` cells.
    pub open spec fn spec_row(&self, r: int) -> Seq<T> {
        self@.subrange(r * self.spec_width(), (r + 1) * self.spec_width())
    }

    /// A grid of the size that `ctx` names, each cell a clone of `default`.
    pub fn new<C: CanvasWidthHeight>(ctx: &C, default: T) -> (canvas: Self) where T: Clone
        requires
            ctx.spec_width() * ctx.spec_height() <= usize::MAX,
        ensures
            canvas.wf(),
            canvas.spec_width() == ctx.spec_width(),
            canvas.spec_height() == ctx.spec_height(),
            forall|i: int|
                0 <= i < ctx.spec_width() * ctx.spec_height() ==> cloned(
                    default,
                    #[trigger] canvas@[i],
                ),
    {
        let w = ctx.width();
        let h = ctx.height();
        Self::new_with_size(w, h, default)
    }

    /// A grid of `w` by `h` cells, each a clone of `default`.
    pub fn new_with_size(w: u32, h: u32, default: T) -> (canvas: Self) where T: Clone
        requires
            w * h <= usize::MAX,
        ensures
            canvas.wf(),
            canvas.spec_width() == w,
            canvas.spec_height() == h,
            forall|i: int| 0 <= i < w * h ==> cloned(default, #[trigger] canvas@[i]),
    {
        proof {
            assert(0 <= (w as int) * (h as int)) by (nonlinear_arith)
                requires
                    w >= 0,
                    h >= 0,
            ;
        }
        let n: usize = (w as usize) * (h as usize);
        let data = crate::util::vec_clone(&default, n);
        Canvas { data, w, h }
    }

    /// Number of columns.
    pub fn width(&self) -> (w: u32)
        ensures
            w == self.spec_width(),
    {
        self.w
    }

    /// Number of rows.
    pub fn height(&self) -> (h: u32)
        ensures
            h == self.spec_height(),
    {
        self.h
    }

    /// Read access to row `r`.
    pub fn row_immut(&self, r: usize) -> (row: &[T])
        requires
            self.wf(),
            r < self.spec_height(),
        ensures
            row@ == self.spec_row(r as int),
            row@.len() == self.spec_width(),
    {
        let cells = self.data.as_slice();
        let len: usize = cells.len();
        proof {
            lemma_row_bounds(self.w as nat, self.h as nat, r as nat);
            assert((r + 1) * self.w <= len);
        }
        let start: usize = r * (self.w as usize);
        let end: usize = start + (self.w as usize);
        vstd::slice::slice_subrange(cells, start, end)
    }

    /// Write access to row `r`; the other rows are left as they are.
    pub fn row(&mut self, r: usize) -> (row: &mut [T])
        requires
            old(self).wf(),
            r < old(self).spec_height(),
        ensures
            row@ == old(self).spec_row(r as int),
            final(row)@.len() == row@.len() ==> final(self).wf(),
            final(self).spec_width() == old(self).spec_width(),
            final(self).spec_height() == old(self).spec_height(),
            final(self)@ == old(self)@.subrange(0, r * old(self).spec_width()) + final(row)@
                + old(self)@.subrange((r + 1) * old(self).spec_width(), old(self)@.len() as int),
    {
        let width: usize = self.w as usize;
        let len: usize = self.data.len();
        proof {
            lemma_row_bounds(self.w as nat, self.h as nat, r as nat);
            assert((r + 1) * width <= len);
        }
        let start: usize = r * width;
        let (_head, rest) = self.data.as_mut_slice().split_at_mut(start);
        let (row, _tail) = rest.split_at_mut(width);
        row
    }

    /// All rows, top to bottom.
    pub fn iter_rows(&self) -> (rows: Vec<&[T]>)
        requires
            self.wf(),
        ensures
            rows@.len() == self.spec_height(),
            forall|r: int|
                0 <= r < self.spec_height() ==> (#[trigger] rows@[r])@ == self.spec_row(r),
    {
        let mut rows: Vec<&[T]> = Vec::new();
        let mut r: usize = 0;
        while r < self.h as usize
            invariant
                self.wf(),
                r <= self.h,
                rows@.len() == r,
                forall|k: int| 0 <= k < r ==> (#[trigger] rows@[k])@ == self.spec_row(k),
            decreases self.h - r,
        {
            let row = self.row_immut(r);
            rows.push(row);
            r += 1;
        }
        rows
    }

    /// Replaces every cell by `blend` of itself and the cell of `other` at
    /// the same place.
    pub fn overlay<F: Fn(&T, &T) -> T>(&mut self, other: &Self, blend: F)
        requires
            old(self)@.len() <= other@.len(),
            forall|i: int|
                0 <= i < old(self)@.len() ==> call_requires(
                    blend,
                    (&#[trigger] old(self)@[i], &other@[i]),
                ),
        ensures
            final(self)@.len() == old(self)@.len(),
            final(self).spec_width() == old(self).spec_width(),
            final(self).spec_height() == old(self).spec_height(),
            forall|i: int|
                0 <= i < old(self)@.len() ==> call_ensures(
                    blend,
                    (&old(self)@[i], &other@[i]),
                    #[trigger] final(self)@[i],
                ),
    {
        let n: usize = self.data.len();
        let mut i: usize = 0;
        while i < n
            invariant
                i <= n,
                n == old(self)@.len(),
                n <= other@.len(),
                self.data@.len() == n,
                self.w == old(self).w,
                self.h == old(self).h,
                forall|k: int| i <= k < n ==> self.data@[k] == old(self)@[k],
                forall|k: int|
                    0 <= k < n ==> call_requires(blend, (&#[trigger] old(self)@[k], &other@[k])),
                forall|k: int|
                    0 <= k < i ==> call_ensures(
                        blend,
                        (&old(self)@[k], &other@[k]),
                        #[trigger] self.data@[k],
                    ),
            decreases n - i,
        {
            let cell = blend(&self.data[i], &other.data[i]);
            self.data[i] = cell;
            i += 1;
        }
    }

    /// Moves every row one place down; the last row becomes the first.
    pub fn rotate_down(&mut self)
        requires
            old(self).wf(),
            old(self).spec_height() > 0,
        ensures
            final(self).wf(),
            final(self).spec_width() == old(self).spec_width(),
            final(self).spec_height() == old(self).spec_height(),
            final(self).spec_row(0) == old(self).spec_row(old(self).spec_height() - 1),
            forall|r: int|
                1 <= r < old(self).spec_height() ==> #[trigger] final(self).spec_row(r) == old(
                    self,
                ).spec_row(r - 1),
    {
        proof {
            lemma_row_bounds(self.w as nat, self.h as nat, (self.h - 1) as nat);
        }
        let k: usize = self.w as usize;
        self.data.as_mut_slice().rotate_right(k);
        proof {
            let w = self.w as int;
            let h = self.h as int;
            let old_cells = old(self)@;
            let new_cells = self@;
            assert(new_cells.len() == old_cells.len());
            assert(final(self).spec_row(0) == old(self).spec_row(h - 1));
            assert forall|r: int| 1 <= r < h implies #[trigger] final(self).spec_row(r) == old(
                self,
            ).spec_row(r - 1) by {
                lemma_row_bounds(w as nat, h as nat, r as nat);
                lemma_row_bounds(w as nat, h as nat, (r - 1) as nat);
                assert(final(self).spec_row(r) =~= old(self).spec_row(r - 1));
            }
        }
    }
}

impl Canvas<Rgba> {
    /// The cells in row-major order, each scaled by its own alpha.
    pub fn into_rgb(self) -> (pixels: Vec<Rgb>)
        ensures
            pixels@.len() == self@.len(),
            forall|i: int| 0 <= i < self@.len() ==> #[trigger] pixels@[i] == self@[i].spec_flatten(),
    {
        let mut pixels: Vec<Rgb> = Vec::new();
        let n: usize = self.data.len();
        let mut i: usize = 0;
        while i < n
            invariant
                i <= n,
                n == self.data@.len(),
                pixels@.len() == i,
                forall|k: int| 0 <= k < i ==> #[trigger] pixels@[k] == self.data@[k].spec_flatten(),
            decreases n - i,
        {
            let cell = self.data[i];
            pixels.push(cell.flatten());
            i += 1;
        }
        pixels
    }
}

/// How long each remembered row of notes stays on the matrix: entry `n` is
/// the number of matrix rows over which history row `n` is drawn.
pub struct PaintConfig {
    pub roll_len: Vec<u32>,
}

impl Default for PaintConfig {
    fn default() -> (cfg: Self)
        ensures
            cfg.roll_len@ == seq![12u32, 5u32, 3u32, 2u32, 2u32, 1u32, 1u32],
    {
        let mut roll_len: Vec<u32> = Vec::new();
        roll_len.push(12);
        roll_len.push(5);
        roll_len.push(3);
        roll_len.push(2);
        roll_len.push(2);
        roll_len.push(1);
        roll_len.push(1);
        assert(roll_len@ =~= seq![12u32, 5u32, 3u32, 2u32, 2u32, 1u32, 1u32]);
        PaintConfig { roll_len }
    }
}

/// Number of pitch classes, and so of columns in the strip of notes.
pub const NOTES: usize = 12;

/// Widest matrix on which the strip and both of its echoes find room.
pub const MAX_WIDTH: u32 = 37;

/// Columns left free on either side of the centred strip of notes.
pub open spec fn spec_padding(width: nat) -> nat {
    if width < 12 {
        0
    } else {
        ((width - 12) / 2) as nat
    }
}

/// Columns left free on either side of the centred strip of notes.
pub fn padding(width: u32) -> (pad: usize)
    ensures
        pad == spec_padding(width as nat),
{
    if width < 12 {
        0
    } else {
        ((width - 12) / 2) as usize
    }
}

/// A faded copy of a note in the margin: its column, and its strength as
/// `weight / scale` of the edge factor.
#[derive(Clone, Copy, Debug, PartialEq, Eq, Structural)]
pub struct EdgeEcho {
    pub column: usize,
    pub weight: usize,
    pub scale: usize,
}

/// Where one pitch class is drawn in a row of the matrix.
#[derive(Clone, Copy, Debug, PartialEq, Eq, Structural)]
pub struct NoteColumns {
    /// Column of the note at full strength.
    pub main: usize,
    /// Echo past the right end of the strip, for the first notes.
    pub right: Option<EdgeEcho>,
    /// Echo before the left end of the strip, for the last notes.
    pub left: Option<EdgeEcho>,
}

/// Columns of pitch class `note` on a matrix of `width` columns.
pub open spec fn spec_note_columns(width: nat, note: nat) -> NoteColumns {
    let pad = spec_padding(width);
    NoteColumns {
        main: (note + pad) as usize,
        right: if note < pad {
            Some(
                EdgeEcho {
                    column: (pad + 12 + note) as usize,
                    weight: (pad - note) as usize,
                    scale: pad as usize,
                },
            )
        } else {
            None
        },
        left: if note + pad >= 12 {
            Some(
                EdgeEcho {
                    column: (pad + note - 12) as usize,
                    weight: (note + pad - 12) as usize,
                    scale: pad as usize,
                },
            )
        } else {
            None
        },
    }
}

/// Columns of pitch class `note` on a matrix of `width` columns: the
/// strip of twelve is centred, and what would fall off one end is echoed
/// at the other, the fainter the nearer it lies to the strip.
pub fn note_columns(width: u32, note: usize) -> (cols: NoteColumns)
    requires
        12 <= width <= MAX_WIDTH,
        note < NOTES,
    ensures
        cols == spec_note_columns(width as nat, note as nat),
        cols.main < width,
        cols.right matches Some(e) ==> e.column < width && 0 < e.weight <= e.scale,
        cols.left matches Some(e) ==> e.column < width && e.weight < e.scale,
{
    let pad = padding(width);
    let right = if note < pad {
        Some(EdgeEcho { column: pad + 12 + note, weight: pad - note, scale: pad })
    } else {
        None
    };
    let left = if note + pad >= 12 {
        Some(EdgeEcho { column: pad + note - 12, weight: note + pad - 12, scale: pad })
    } else {
        None
    };
    NoteColumns { main: note + pad, right, left }
}

/// No column is claimed twice: the strip, its right echo and its left echo
/// lie in three runs of columns that do not meet, and within each run two
/// pitch classes never share a column.
pub proof fn lemma_note_columns_disjoint(width: nat, a: nat, b: nat)
    requires
        12 <= width <= MAX_WIDTH,
        a < 12,
        b < 12,
    ensures
        ({
            let pad = spec_padding(width);
            let ca = spec_note_columns(width, a);
            let cb = spec_note_columns(width, b);
            &&& pad <= ca.main < pad + 12
            &&& ca.right.is_some() ==> pad + 12 <= ca.right.unwrap().column < width
            &&& ca.left.is_some() ==> ca.left.unwrap().column < pad
            &&& a != b ==> ca.main != cb.main
            &&& a != b && ca.right.is_some() && cb.right.is_some() ==> ca.right.unwrap().column
                != cb.right.unwrap().column
            &&& a != b && ca.left.is_some() && cb.left.is_some() ==> ca.left.unwrap().column
                != cb.left.unwrap().column
        }),
{
}

/// One matrix row of the scrolling display: the history row it shows, and
/// how far (`step` of `len`) it has moved on from the row before.
#[derive(Clone, Copy, Debug, PartialEq, Eq, Structural)]
pub struct RollStep {
    pub history_row: usize,
    pub step: u32,
    pub len: u32,
}

impl RollStep {
    /// Whether the row is drawn as a mix of its history row and the one
    /// before: always, but for the newest row and for rows shown once.
    pub fn blends_previous(&self) -> (b: bool)
        ensures
            b == (self.history_row > 0 && self.len != 1),
    {
        self.history_row > 0 && self.len != 1
    }
}

/// Matrix rows taken by the first `n` history rows.
pub open spec fn roll_rows_before(roll_len: Seq<u32>, n: int) -> nat
    decreases n,
{
    if n <= 0 || n > roll_len.len() {
        0
    } else {
        roll_rows_before(roll_len, n - 1) + roll_len[n - 1] as nat
    }
}

/// Matrix rows taken by the whole history.
pub open spec fn roll_rows(roll_len: Seq<u32>) -> nat {
    roll_rows_before(roll_len, roll_len.len() as int)
}

/// Whether `step` is what matrix row `i` shows under `roll_len`.
pub open spec fn is_roll_step(roll_len: Seq<u32>, i: int, step: RollStep) -> bool {
    &&& step.history_row < roll_len.len()
    &&& step.len == roll_len[step.history_row as int]
    &&& step.step < step.len
    &&& roll_rows_before(roll_len, step.history_row as int) + step.step == i
}

/// The matrix rows of the scrolling display from the top down: history row
/// 0 over the first `roll_len[0]` rows, history row 1 over the next
/// `roll_len[1]`, and so on.
pub fn roll_schedule(roll_len: &Vec<u32>) -> (steps: Vec<RollStep>)
    requires
        roll_rows(roll_len@) <= usize::MAX,
    ensures
        steps@.len() == roll_rows(roll_len@),
        forall|i: int| 0 <= i < steps@.len() ==> is_roll_step(roll_len@, i, #[trigger] steps@[i]),
{
    let mut steps: Vec<RollStep> = Vec::new();
    let mut n: usize = 0;
    while n < roll_len.len()
        invariant
            n <= roll_len@.len(),
            roll_rows(roll_len@) <= usize::MAX,
            steps@.len() == roll_rows_before(roll_len@, n as int),
            forall|i: int|
                0 <= i < steps@.len() ==> is_roll_step(roll_len@, i, #[trigger] steps@[i]),
        decreases roll_len@.len() - n,
    {
        let len: u32 = roll_len[n];
        let mut j: u32 = 0;
        proof {
            lemma_roll_rows_monotone(roll_len@, n as int + 1, roll_len@.len() as int);
        }
        while j < len
            invariant
                n < roll_len@.len(),
                len == roll_len@[n as int],
                j <= len,
                roll_rows_before(roll_len@, n as int + 1) <= usize::MAX,
                steps@.len() == roll_rows_before(roll_len@, n as int) + j,
                forall|i: int|
                    0 <= i < steps@.len() ==> is_roll_step(roll_len@, i, #[trigger] steps@[i]),
            decreases len - j,
        {
            steps.push(RollStep { history_row: n, step: j, len });
            j += 1;
        }
        n += 1;
    }
    steps
}

/// Later history rows start no higher up than earlier ones.
pub proof fn lemma_roll_rows_monotone(roll_len: Seq<u32>, a: int, b: int)
    requires
        0 <= a <= b <= roll_len.len(),
    ensures
        roll_rows_before(roll_len, a) <= roll_rows_before(roll_len, b),
    decreases b - a,
{
    if a < b {
        lemma_roll_rows_monotone(roll_len, a, b - 1);
    }
}

/// A matrix row shows one history row only: two steps that both fit row
/// `i` are the same step.
pub proof fn lemma_roll_step_unique(roll_len: Seq<u32>, i: int, s: RollStep, t: RollStep)
    requires
        is_roll_step(roll_len, i, s),
        is_roll_step(roll_len, i, t),
    ensures
        s == t,
{
    if s.history_row < t.history_row {
        lemma_roll_rows_monotone(roll_len, s.history_row as int + 1, t.history_row as int);
    } else if t.history_row < s.history_row {
        lemma_roll_rows_monotone(roll_len, t.history_row as int + 1, s.history_row as int);
    }
}

/// Row `r` of a `w` by `h` grid lies inside the grid.
pub proof fn lemma_row_bounds(w: nat, h: nat, r: nat)
    requires
        r < h,
    ensures
        0 <= r * w,
        r * w + w == (r + 1) * w,
        (r + 1) * w <= h * w,
        h * w == w * h,
{
    assert(r * w + w == (r + 1) * w) by (nonlinear_arith);
    assert((r + 1) * w <= h * w) by (nonlinear_arith)
        requires
            r + 1 <= h,
    ;
    assert(h * w == w * h) by (nonlinear_arith);
    assert(0 <= r * w) by (nonlinear_arith);
}

} // verus!
