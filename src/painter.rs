//! The diff painter: it turns the previous and the new frame of a screen region
//! into the cursor moves and writes that show the new frame, without clearing
//! the screen.
use vstd::prelude::*;
use vstd::utf8::{decode_utf8, valid_utf8};
use crate::frame::{frame_lines, is_blank, lines_of, shown_lines, views, CaptionBlock};

verus! {

/// One terminal update, always from column 0.
#[derive(Clone, Debug, PartialEq, Eq)]
pub enum PaintOp {
    /// Overwrite `width` cells of `row` with spaces.
    Erase { row: usize, width: usize },
    /// Write `text` in the run's style at `row`.
    Write { row: usize, text: String },
}

/// What a `PaintOp` does, over mathematical values.
pub enum Stroke {
    Erase { row: int, width: int },
    Write { row: int, text: Seq<char> },
}

impl View for PaintOp {
    type V = Stroke;

    open spec fn view(&self) -> Stroke {
        match self {
            PaintOp::Erase { row, width } => Stroke::Erase { row: *row as int, width: *width as int },
            PaintOp::Write { row, text } => Stroke::Write { row: *row as int, text: text@ },
        }
    }
}

/// The strokes of a sequence of updates.
pub open spec fn strokes(ops: Seq<PaintOp>) -> Seq<Stroke> {
    ops.map_values(|o: PaintOp| o@)
}

/// Blanking out the previous frame: each of its lines is overwritten, on its own
/// row, with as many spaces as it is long.
pub open spec fn erase_strokes(previous: Seq<Seq<char>>, origin: int) -> Seq<Stroke> {
    Seq::new(previous.len(), |i: int| Stroke::Erase { row: origin + i, width: previous[i].len() as int })
}

/// Drawing the new frame: its lines that are not blank, in order, on
/// consecutive rows from `origin`, so that blank lines leave no gap.
pub open spec fn write_strokes(current: Seq<Seq<char>>, origin: int) -> Seq<Stroke> {
    Seq::new(shown_lines(current).len(), |k: int| Stroke::Write { row: origin + k, text: shown_lines(current)[k] })
}

/// The whole repaint of a region: first the previous frame is erased, then the
/// current one is written.
pub open spec fn paint_strokes(previous: Seq<Seq<char>>, current: Seq<Seq<char>>, origin: int) -> Seq<Stroke> {
    erase_strokes(previous, origin) + write_strokes(current, origin)
}

/// The updates that replace `previous` on screen by `current`, with the first
/// line of each at `origin_row`.
pub fn paint_ops(previous: &Vec<String>, current: &Vec<String>, origin_row: usize) -> (ops: Vec<PaintOp>)
    requires
        origin_row + previous.len() <= usize::MAX,
        origin_row + current.len() <= usize::MAX,
    ensures
        strokes(ops@) == paint_strokes(views(previous@), views(current@), origin_row as int),
{
    let mut ops: Vec<PaintOp> = Vec::new();
    let ghost p = views(previous@);
    let ghost c = views(current@);
    let ghost o = origin_row as int;
    let mut i: usize = 0;
    while i < previous.len()
        invariant
            p == views(previous@),
            o == origin_row,
            origin_row + previous.len() <= usize::MAX,
            i <= previous.len(),
            strokes(ops@) == erase_strokes(p.take(i as int), o),
        decreases previous.len() - i,
    {
        let ghost before = ops@;
        let width = previous[i].unicode_len();
        assert(width == p[i as int].len());
        ops.push(PaintOp::Erase { row: origin_row + i, width });
        assert(strokes(ops@) =~= strokes(before).push(Stroke::Erase { row: o + i, width: p[i as int].len() as int }));
        assert(strokes(ops@) =~= erase_strokes(p.take(i + 1), o));
        i = i + 1;
    }
    assert(p.take(i as int) =~= p);
    let ghost erased = strokes(ops@);
    let mut written: usize = 0;
    let mut j: usize = 0;
    assert(c.take(0) =~= Seq::<Seq<char>>::empty());
    proof {
        reveal(Seq::filter);
    }
    assert(strokes(ops@) =~= erased + write_strokes(c.take(0), o));
    while j < current.len()
        invariant
            c == views(current@),
            o == origin_row,
            origin_row + current.len() <= usize::MAX,
            j <= current.len(),
            written <= j,
            written == shown_lines(c.take(j as int)).len(),
            strokes(ops@) == erased + write_strokes(c.take(j as int), o),
        decreases current.len() - j,
    {
        proof {
            reveal(Seq::filter);
        }
        assert(c.take(j + 1).drop_last() =~= c.take(j as int));
        assert(c.take(j + 1).last() == current@[j as int]@);
        let ghost before = ops@;
        let ghost shown = shown_lines(c.take(j as int));
        if !is_blank(current[j].as_str()) {
            assert(shown_lines(c.take(j + 1)) == shown.push(c[j as int]));
            ops.push(PaintOp::Write { row: origin_row + written, text: current[j].clone() });
            assert(strokes(ops@) =~= strokes(before).push(Stroke::Write { row: o + written, text: c[j as int] }));
            written = written + 1;
        } else {
            assert(shown_lines(c.take(j + 1)) == shown);
        }
        assert(strokes(ops@) =~= erased + write_strokes(c.take(j + 1), o));
        j = j + 1;
    }
    assert(c.take(j as int) =~= c);
    ops
}

/// A screen region painted frame after frame: it keeps the frame last painted so
/// that the next paint can erase it.
#[derive(Debug)]
pub struct DiffPainter {
    /// The row of the region's first line.
    pub origin_row: usize,
    /// The lines painted last; empty before the first paint.
    pub previous: Vec<String>,
}

impl DiffPainter {
    /// Every row of the previous frame can be addressed.
    pub open spec fn wf(&self) -> bool {
        self.origin_row + self.previous.len() <= usize::MAX
    }

    /// Whether rendered output can be painted: it is valid UTF-8, and every row
    /// of its lines can be addressed.
    pub open spec fn can_paint(&self, bytes: Seq<u8>) -> bool {
        valid_utf8(bytes) && self.origin_row + lines_of(decode_utf8(bytes)).len() <= usize::MAX
    }

    /// A painter for the region that starts at `origin_row`, with nothing painted yet.
    pub fn new(origin_row: usize) -> (r: DiffPainter)
        ensures
            r.wf(),
            r.origin_row == origin_row,
            r.previous@.len() == 0,
    {
        DiffPainter { origin_row, previous: Vec::new() }
    }

    /// Paints `current` over the previous frame, which it then replaces.
    pub fn paint(&mut self, current: Vec<String>) -> (ops: Vec<PaintOp>)
        requires
            old(self).wf(),
            old(self).origin_row + current.len() <= usize::MAX,
        ensures
            final(self).wf(),
            strokes(ops@) == paint_strokes(views(old(self).previous@), views(current@), old(self).origin_row as int),
            final(self).previous@ == current@,
            final(self).origin_row == old(self).origin_row,
    {
        let ops = paint_ops(&self.previous, &current, self.origin_row);
        self.previous = current;
        ops
    }

    /// Paints the lines of rendered output. Where rendering failed (`None`) or
    /// the output cannot be painted, nothing is painted and the previous frame
    /// stays on screen.
    pub fn paint_rendered(&mut self, rendered: Option<Vec<u8>>) -> (ops: Vec<PaintOp>)
        requires
            old(self).wf(),
        ensures
            final(self).wf(),
            final(self).origin_row == old(self).origin_row,
            match rendered {
                Some(b) if old(self).can_paint(b@) => {
                    &&& strokes(ops@) == paint_strokes(
                        views(old(self).previous@),
                        lines_of(decode_utf8(b@)),
                        old(self).origin_row as int,
                    )
                    &&& views(final(self).previous@) == lines_of(decode_utf8(b@))
                },
                _ => ops@.len() == 0 && *final(self) == *old(self),
            },
    {
        match rendered {
            Some(bytes) => match frame_lines(bytes) {
                Some(lines) => {
                    if lines.len() <= usize::MAX - self.origin_row {
                        self.paint(lines)
                    } else {
                        Vec::new()
                    }
                },
                None => Vec::new(),
            },
            None => Vec::new(),
        }
    }
}

impl CaptionBlock {
    /// The updates that draw the caption from the top row, with nothing under it.
    pub fn paint_ops(&self) -> (ops: Vec<PaintOp>)
        ensures
            strokes(ops@) == paint_strokes(Seq::empty(), views(self.lines@), 0),
    {
        let nothing: Vec<String> = Vec::new();
        assert(views(nothing@) =~= Seq::<Seq<char>>::empty());
        paint_ops(&nothing, &self.lines, 0)
    }
}

/// Painting a frame over itself adds no erase beyond the frame's own lines: the
/// erases are one per line of the frame, each as wide as that line, and what is
/// written is what any paint of that frame writes, whatever it replaced.
pub proof fn lemma_repaint_erases_only_own_lines(earlier: Seq<Seq<char>>, frame: Seq<Seq<char>>, origin: int)
    ensures
        paint_strokes(frame, frame, origin).len() == frame.len() + shown_lines(frame).len(),
        forall|i: int|
            0 <= i < frame.len() ==> #[trigger] paint_strokes(frame, frame, origin)[i] == (Stroke::Erase {
                row: origin + i,
                width: frame[i].len() as int,
            }),
        paint_strokes(frame, frame, origin).skip(frame.len() as int) == paint_strokes(earlier, frame, origin).skip(
            earlier.len() as int,
        ),
{
    assert(paint_strokes(frame, frame, origin).skip(frame.len() as int) =~= write_strokes(frame, origin));
    assert(paint_strokes(earlier, frame, origin).skip(earlier.len() as int) =~= write_strokes(frame, origin));
}

} // verus!
