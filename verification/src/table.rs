//! Shared building blocks for the panes: credit lines, selection, hoverable
//! segments, sliders, cover art, and the pinned right-hand row.

use vstd::prelude::*;
use vstd::string::*;

use crate::geometry::{max_usize, min16, min_usize, over, Position, Rect};
use crate::play_state::PlayState;
use crate::scene::{
    lemma_low16, line_cells, line_w, lines_of, put_hit, put_text, restyled, row_of, run, Canvas,
    Line, Op, OpView, Picture, Place, Row, Run, Scene, Span, Target,
};
use crate::state::{artists_line, credit_names, Credit, Pen, Wear, CREDIT_SEP};
use crate::text::{
    a_narrow_text_takes_its_length, a_number_reads_back, cells, char_at, chars_of, copies, dec,
    decimal, digits_alone, fit, fitted, index_at, joined, lemma_cells_concat, lemma_index_at,
    low16, low_half, number_in, pad_left, padded_left, repeated, text_cells, text_of,
    text_width, trim_end, trimmed, width, width_of,
};
use crate::theme;
use crate::theme::Style;

verus! {

/// Where one credited name is printed inside a cell, in display columns from
/// its left edge, with the artist it opens.
#[derive(Debug, Clone, PartialEq, Eq)]
pub struct CreditRun {
    pub dx: u16,
    pub width: u16,
    pub credit: Credit,
}

/// The cells of a credit line that carry ink.
pub open spec fn credit_ink(credits: Seq<Credit>, w: usize) -> usize {
    width_of(trimmed(fitted(credit_names(credits), w as nat)))
}

/// The runs of `credits[i..]`, the first of them starting after column `dx`,
/// in a cell of which `inked` columns are printed.
///
/// A name the cell ran out of room for has no run, and a name of which part is
/// printed has a run as wide as that part.
pub open spec fn credit_runs(credits: Seq<Credit>, i: int, dx: usize, inked: usize) -> Seq<
    CreditRun,
>
    decreases credits.len() - i,
{
    if i < 0 || i >= credits.len() {
        Seq::empty()
    } else {
        let at = if i > 0 {
            dx.saturating_add(width_of(CREDIT_SEP@))
        } else {
            dx
        };
        if at >= inked {
            Seq::empty()
        } else {
            let name_w = width_of(credits[i].name@);
            let shown = min_usize(name_w, (inked - at) as usize);
            let rest = credit_runs(credits, i + 1, at.saturating_add(name_w), inked);
            if shown > 0 {
                seq![
                    CreditRun {
                        dx: low16(at as int),
                        width: low16(shown as int),
                        credit: credits[i],
                    },
                ] + rest
            } else {
                rest
            }
        }
    }
}

/// The credit line as a `w`-cell cell, with the run each name occupies.
#[verifier::loop_isolation(false)]
pub fn credit_line(credits: &Vec<Credit>, w: usize) -> (r: (String, Vec<CreditRun>))
    ensures
        r.0@ == fitted(credit_names(credits@), w as nat),
        cells(r.0@) == w,
        r.1@ == credit_runs(credits@, 0, 0, credit_ink(credits@, w)),
{
    let line = artists_line(credits);
    let cell = fit(line.as_str(), w);
    let ink = trim_end(cell.as_str());
    let inked: usize = width(ink.as_str());
    let mut runs: Vec<CreditRun> = Vec::new();
    let mut dx: usize = 0;
    let mut i: usize = 0;
    let ghost all = credit_runs(credits@, 0, 0, inked);
    assert(runs@ + all =~= all);
    while i < credits.len()
        invariant
            i <= credits@.len(),
            runs@ + credit_runs(credits@, i as int, dx, inked) == all,
        decreases credits@.len() - i,
    {
        let ghost rest = credit_runs(credits@, i as int, dx, inked);
        let at: usize = if i > 0 { dx.saturating_add(width(CREDIT_SEP)) } else { dx };
        if at >= inked {
            assert(runs@ + rest =~= runs@);
            return (cell, runs);
        }
        let name_w: usize = width(credits[i].name.as_str());
        let shown: usize = min_usize(name_w, inked - at);
        let ghost before = runs@;
        let ghost tail = credit_runs(credits@, i + 1, at.saturating_add(name_w), inked);
        if shown > 0 {
            runs.push(
                CreditRun {
                    dx: low_half(at),
                    width: low_half(shown),
                    credit: credits[i].copy(),
                },
            );
            assert(runs@ + tail =~= before + rest);
        }
        dx = at.saturating_add(name_w);
        i = i + 1;
    }
    assert(runs@ + credit_runs(credits@, i as int, dx, inked) =~= runs@);
    (cell, runs)
}

/// `acc` with a run of `text` after it, where there is any text.
pub open spec fn piece(acc: Seq<Run>, text: Seq<char>, style: Style) -> Seq<Run> {
    if text.len() == 0 {
        acc
    } else {
        acc.push(run(text, style))
    }
}

/// Where run `r` of a cell starts and ends in it, never before `cut`.
pub open spec fn run_ends(cell: Seq<char>, r: CreditRun, cut: nat) -> (nat, nat) {
    let start = index_at(cell, r.dx as nat);
    let start = if start < cut { cut } else { start };
    let end = index_at(cell, (r.dx + r.width) as nat);
    (start, if end < start { start } else { end })
}

/// The cell as far as its first `n` runs reach, and the index they reach to.
pub open spec fn credit_pieces(
    cell: Seq<char>,
    runs: Seq<CreditRun>,
    n: nat,
    style: Style,
    hovered: Option<usize>,
) -> (Seq<Run>, nat)
    decreases n,
{
    if n == 0 {
        (Seq::empty(), 0)
    } else {
        let k = (n - 1) as nat;
        let (acc, cut) = credit_pieces(cell, runs, k, style, hovered);
        let (start, end) = run_ends(cell, runs[k as int], cut);
        let lit = if hovered == Some(k as usize) {
            hover_style(style)
        } else {
            style
        };
        let acc = piece(acc, cell.subrange(cut as int, start as int), style);
        (piece(acc, cell.subrange(start as int, end as int), lit), end)
    }
}

/// The whole cell, with the hovered run lit.
pub open spec fn credit_row(
    cell: Seq<char>,
    runs: Seq<CreditRun>,
    style: Style,
    hovered: Option<usize>,
) -> Seq<Run> {
    let (acc, cut) = credit_pieces(cell, runs, runs.len(), style, hovered);
    piece(acc, cell.subrange(cut as int, cell.len() as int), style)
}

/// The text of a row of runs, end to end.
pub open spec fn printed(line: Seq<Run>) -> Seq<char>
    decreases line.len(),
{
    if line.len() == 0 {
        Seq::empty()
    } else {
        printed(line.drop_last()) + line.last().text
    }
}

proof fn lemma_printed_piece(acc: Seq<Run>, text: Seq<char>, style: Style)
    ensures
        printed(piece(acc, text, style)) == printed(acc) + text,
{
    if text.len() == 0 {
        assert(printed(acc) + text =~= printed(acc));
    } else {
        assert(piece(acc, text, style).drop_last() =~= acc);
    }
}

proof fn lemma_pieces_print(
    cell: Seq<char>,
    runs: Seq<CreditRun>,
    n: nat,
    style: Style,
    hovered: Option<usize>,
)
    ensures
        credit_pieces(cell, runs, n, style, hovered).1 <= cell.len(),
        printed(credit_pieces(cell, runs, n, style, hovered).0) == cell.take(
            credit_pieces(cell, runs, n, style, hovered).1 as int,
        ),
    decreases n,
{
    if n == 0 {
        assert(cell.take(0) =~= Seq::empty());
    } else {
        let k = (n - 1) as nat;
        lemma_pieces_print(cell, runs, k, style, hovered);
        let (acc, cut) = credit_pieces(cell, runs, k, style, hovered);
        let (start, end) = run_ends(cell, runs[k as int], cut);
        lemma_index_at(cell, runs[k as int].dx as nat);
        lemma_index_at(cell, (runs[k as int].dx + runs[k as int].width) as nat);
        let lit = if hovered == Some(k as usize) {
            hover_style(style)
        } else {
            style
        };
        let a = cell.subrange(cut as int, start as int);
        let b = cell.subrange(start as int, end as int);
        lemma_printed_piece(acc, a, style);
        lemma_printed_piece(piece(acc, a, style), b, lit);
        assert(cell.take(cut as int) + a + b =~= cell.take(end as int));
    }
}

/// However a credit cell is cut into runs, and whichever is lit, the runs print
/// the cell and nothing else.
pub proof fn credit_row_prints_its_cell(
    cell: Seq<char>,
    runs: Seq<CreditRun>,
    style: Style,
    hovered: Option<usize>,
)
    ensures
        printed(credit_row(cell, runs, style, hovered)) == cell,
{
    lemma_pieces_print(cell, runs, runs.len(), style, hovered);
    let (acc, cut) = credit_pieces(cell, runs, runs.len(), style, hovered);
    let rest = cell.subrange(cut as int, cell.len() as int);
    lemma_printed_piece(acc, rest, style);
    assert(cell.take(cut as int) + rest =~= cell);
}

/// Runs that lie between two columns, each past the end of the one before it.
pub open spec fn runs_inside(runs: Seq<CreditRun>, from: usize, to: usize) -> bool {
    &&& forall|k: int|
        0 <= k < runs.len() ==> {
            &&& from <= (#[trigger] runs[k]).dx
            &&& runs[k].dx + runs[k].width <= to
            &&& runs[k].width > 0
        }
    &&& forall|j: int, k: int|
        0 <= j < k < runs.len() ==> (#[trigger] runs[j]).dx + runs[j].width <= (
        #[trigger] runs[k]).dx
}

/// Every run of a credit line lies inside the columns the cell prints, and
/// each starts where the one before it has ended.
pub proof fn credit_runs_stay_inside(credits: Seq<Credit>, i: int, dx: usize, inked: usize)
    requires
        inked <= 0xFFFF,
    ensures
        runs_inside(credit_runs(credits, i, dx, inked), dx, inked),
    decreases credits.len() - i,
{
    let runs = credit_runs(credits, i, dx, inked);
    if 0 <= i < credits.len() {
        let at = if i > 0 {
            dx.saturating_add(width_of(CREDIT_SEP@))
        } else {
            dx
        };
        if at < inked {
            let name_w = width_of(credits[i].name@);
            let shown = min_usize(name_w, (inked - at) as usize);
            let after = at.saturating_add(name_w);
            let rest = credit_runs(credits, i + 1, after, inked);
            credit_runs_stay_inside(credits, i + 1, after, inked);
            if shown > 0 {
                assert(runs.len() == rest.len() + 1);
                assert(runs[0].dx == at && runs[0].width == shown);
                assert forall|k: int| 0 < k < runs.len() implies #[trigger] runs[k] == rest[k
                    - 1] by {}
                assert forall|k: int| 0 <= k < runs.len() implies {
                    &&& dx <= (#[trigger] runs[k]).dx
                    &&& runs[k].dx + runs[k].width <= inked
                    &&& runs[k].width > 0
                } by {
                    if k > 0 {
                        assert(after <= rest[k - 1].dx);
                    }
                }
                assert forall|j: int, k: int| 0 <= j < k < runs.len() implies (
                #[trigger] runs[j]).dx + runs[j].width <= (#[trigger] runs[k]).dx by {
                    assert(after <= rest[k - 1].dx);
                    if j > 0 {
                        assert(rest[j - 1].dx + rest[j - 1].width <= rest[k - 1].dx);
                    }
                }
            } else {
                assert(runs == rest);
            }
        }
    }
}

/// Append a piece of a cell, where there is any of it.
fn put_piece(line: &mut Line, v: &Vec<char>, from: usize, to: usize, style: Style)
    requires
        from <= to <= v@.len(),
    ensures
        final(line)@ == piece(old(line)@, v@.subrange(from as int, to as int), style),
{
    if from < to {
        line.put(text_of(v, from, to), style);
    }
}

/// The spans of a credit line, with the `hovered` run lit.
///
/// The light goes on one name, not on the whole cell: the names either side of
/// it lead somewhere else.
pub fn credit_spans(
    cell: &str,
    runs: &Vec<CreditRun>,
    style: Style,
    hovered: Option<usize>,
) -> (line: Line)
    ensures
        line@ == credit_row(cell@, runs@, style, hovered),
{
    let v = chars_of(cell);
    let mut line = Line::empty();
    let mut cut: usize = 0;
    let mut i: usize = 0;
    while i < runs.len()
        invariant
            i <= runs@.len(),
            v@ == cell@,
            cut <= v@.len(),
            (line@, cut as nat) == credit_pieces(cell@, runs@, i as nat, style, hovered),
        decreases runs@.len() - i,
    {
        let at: usize = char_at(&v, runs[i].dx as usize);
        let start: usize = max_usize(cut, at);
        let stop: usize = char_at(&v, runs[i].dx as usize + runs[i].width as usize);
        let end: usize = max_usize(start, stop);
        put_piece(&mut line, &v, cut, start, style);
        let lit: bool = match hovered {
            Some(h) => h == i,
            None => false,
        };
        put_piece(&mut line, &v, start, end, if lit { hover_style(style) } else { style });
        cut = end;
        i = i + 1;
    }
    put_piece(&mut line, &v, cut, v.len(), style);
    line
}

/// Where a run lands on screen, clipped to the cell it is printed in.
#[verifier::allow_in_spec]
pub fn credit_rect(cell: Rect, r: &CreditRun) -> Rect
    returns
        (Rect { x: cell.x.saturating_add(r.dx), y: cell.y, width: r.width, height: 1 }).intersection(
            cell,
        ),
{
    (Rect { x: cell.x.saturating_add(r.dx), y: cell.y, width: r.width, height: 1 }).intersection(
        cell,
    )
}

/// The first run from `i` on that leads somewhere and is under `at`.
pub open spec fn run_under(cell: Rect, runs: Seq<CreditRun>, at: Position, i: int) -> Option<usize>
    decreases runs.len() - i,
{
    if i < 0 || i >= runs.len() {
        None
    } else if runs[i].credit.id is Some && credit_rect(cell, &runs[i]).contains(at) {
        Some(i as usize)
    } else {
        run_under(cell, runs, at, i + 1)
    }
}

/// Which run the pointer is on.
pub open spec fn credit_under(
    cell: Rect,
    runs: Seq<CreditRun>,
    mouse: Option<Position>,
) -> Option<usize> {
    match mouse {
        Some(at) => if at.y == cell.y {
            run_under(cell, runs, at, 0)
        } else {
            None
        },
        None => None,
    }
}

/// Which run of a credit line the pointer is on. Only a run that leads
/// somewhere answers.
#[verifier::loop_isolation(false)]
pub fn hovered_credit(cell: Rect, runs: &Vec<CreditRun>, mouse: Option<Position>) -> (r: Option<
    usize,
>)
    ensures
        r == credit_under(cell, runs@, mouse),
{
    let at = match mouse {
        Some(at) => at,
        None => return None,
    };
    if at.y != cell.y {
        return None;
    }
    let mut i: usize = 0;
    while i < runs.len()
        invariant
            i <= runs@.len(),
            run_under(cell, runs@, at, 0) == run_under(cell, runs@, at, i as int),
        decreases runs@.len() - i,
    {
        if runs[i].credit.id.is_some() && credit_rect(cell, &runs[i]).contains(at) {
            return Some(i);
        }
        i = i + 1;
    }
    None
}

/// Which list of names a link belongs to.
#[derive(Debug, Clone, Copy, PartialEq, Eq, Structural)]
pub enum Names {
    Now,
    Header,
    Track,
    Album,
}

/// What a click on a name of a list leads to.
pub open spec fn name_target(names: Names, credit: Credit) -> Target {
    match names {
        Names::Now => Target::NowArtist(credit),
        Names::Header => Target::HeaderArtist(credit),
        Names::Track => Target::TrackArtist(credit),
        Names::Album => Target::AlbumArtist(credit),
    }
}

/// The canvas with the first `n` runs recorded, those that lead somewhere and
/// show.
pub open spec fn linked(c: Canvas, cell: Rect, runs: Seq<CreditRun>, n: nat, names: Names) -> Canvas
    decreases n,
{
    if n == 0 {
        c
    } else {
        let before = linked(c, cell, runs, (n - 1) as nat, names);
        let r = runs[n - 1];
        let area = credit_rect(cell, &r);
        if r.credit.id is Some && !area.is_empty() {
            put_hit(before, area, name_target(names, r.credit))
        } else {
            before
        }
    }
}

/// Record every clickable name of a credit line drawn at `cell`. A name with
/// no page behind it gets no record at all.
pub fn credit_links(cell: Rect, runs: &Vec<CreditRun>, names: Names, scene: &mut Scene)
    ensures
        final(scene)@ == linked(old(scene)@, cell, runs@, runs@.len(), names),
{
    let ghost start = scene@;
    let mut i: usize = 0;
    while i < runs.len()
        invariant
            i <= runs@.len(),
            scene@ == linked(start, cell, runs@, i as nat, names),
        decreases runs@.len() - i,
    {
        let area = credit_rect(cell, &runs[i]);
        if runs[i].credit.id.is_some() && !area.is_empty() {
            let credit = runs[i].credit.copy();
            let target = match names {
                Names::Now => Target::NowArtist(credit),
                Names::Header => Target::HeaderArtist(credit),
                Names::Track => Target::TrackArtist(credit),
                Names::Album => Target::AlbumArtist(credit),
            };
            scene.hit(area, target);
        }
        i = i + 1;
    }
}

/// The style of the selected row: weight and brightness, not a filled bar.
#[verifier::allow_in_spec]
pub fn selection_style(style: Style) -> Style
    returns
        (Style { fg: Some(theme::BRIGHT), bg: style.bg, bold: true, italic: style.italic }),
{
    Style { fg: Some(theme::BRIGHT), bg: style.bg, bold: true, italic: style.italic }
}

/// A row restyled as selected.
pub open spec fn selected_line(line: Seq<Run>) -> Seq<Run> {
    restyled(line, |s: Style| selection_style(s))
}

/// A row restyled as hovered.
pub open spec fn hovered_line(line: Seq<Run>) -> Seq<Run> {
    restyled(line, |s: Style| hover_style(s))
}

/// Restyle every span of a row as selected.
pub fn apply_selection(line: &mut Line)
    ensures
        final(line)@ == selected_line(old(line)@),
{
    let ghost start = line@;
    let mut spans: Vec<Span> = Vec::new();
    let mut i: usize = 0;
    while i < line.spans.len()
        invariant
            i <= line.spans@.len(),
            line@ == start,
            spans@.len() == i,
            forall|j: int|
                0 <= j < i ==> (#[trigger] spans@[j])@ == run(
                    start[j].text,
                    selection_style(start[j].style),
                ),
        decreases line.spans@.len() - i,
    {
        assert(start[i as int] == line.spans@[i as int]@);
        spans.push(
            Span {
                text: line.spans[i].text.clone(),
                style: selection_style(line.spans[i].style),
            },
        );
        i = i + 1;
    }
    *line = Line { spans };
    assert(line@ =~= selected_line(start));
}

/// Restyle every span of a row as hovered.
pub fn apply_hover(line: &mut Line)
    ensures
        final(line)@ == hovered_line(old(line)@),
{
    let ghost start = line@;
    let mut spans: Vec<Span> = Vec::new();
    let mut i: usize = 0;
    while i < line.spans.len()
        invariant
            i <= line.spans@.len(),
            line@ == start,
            spans@.len() == i,
            forall|j: int|
                0 <= j < i ==> (#[trigger] spans@[j])@ == run(
                    start[j].text,
                    hover_style(start[j].style),
                ),
        decreases line.spans@.len() - i,
    {
        assert(start[i as int] == line.spans@[i as int]@);
        spans.push(
            Span { text: line.spans[i].text.clone(), style: hover_style(line.spans[i].style) },
        );
        i = i + 1;
    }
    *line = Line { spans };
    assert(line@ =~= hovered_line(start));
}

/// The row the pointer is on, given the list's first visible row.
pub open spec fn row_under(
    rows: Rect,
    offset: usize,
    len: usize,
    mouse: Option<Position>,
) -> Option<usize> {
    match mouse {
        Some(at) => if rows.contains(at) && offset + (at.y - rows.y) < len {
            Some((offset + (at.y - rows.y)) as usize)
        } else {
            None
        },
        None => None,
    }
}

/// The row the pointer is on, as an index into a list's items. A pointer past
/// the last row of an underfilled list is over no row.
pub fn hovered_row(rows: Rect, offset: usize, len: usize, mouse: Option<Position>) -> (r: Option<
    usize,
>)
    ensures
        r == row_under(rows, offset, len, mouse),
{
    match mouse {
        Some(at) => {
            if !rows.contains(at) {
                return None;
            }
            let row: usize = offset.saturating_add((at.y - rows.y) as usize);
            if row < len {
                Some(row)
            } else {
                None
            }
        },
        None => None,
    }
}

/// The row under the pointer is one of the list's, and moves with the scroll.
pub proof fn the_hovered_row_follows_the_scroll(
    rows: Rect,
    offset: usize,
    len: usize,
    at: Position,
)
    ensures
        row_under(rows, offset, len, Some(at)) matches Some(r) ==> r < len && r >= offset && r
            - offset == at.y - rows.y && rows.contains(at),
        row_under(rows, offset, len, None) is None,
{
}

/// A list row, washed when the pointer is on it.
pub fn hover_row(line: Line, hovered: bool) -> (r: Row)
    ensures
        r@ == row_of(line@, hovered),
{
    Row { line, wash: hovered }
}

/// A scrolled list's bar, where the content overflows its viewport.
pub open spec fn barred(c: Canvas, bar: Rect, len: usize, offset: usize) -> Canvas {
    if bar.height == 0 || len <= bar.height {
        c
    } else {
        c.push(OpView::Scrollbar { bar, len, offset })
    }
}

/// Draw a scrollbar in `bar` when the content overflows its viewport.
pub fn draw_scrollbar(scene: &mut Scene, bar: Rect, len: usize, offset: usize)
    ensures
        final(scene)@ == barred(old(scene)@, bar, len, offset),
{
    if bar.height == 0 || len <= bar.height as usize {
        return;
    }
    scene.put(Op::Scrollbar { bar, len, offset });
}

/// Restyle a run as hovered: a dim pill behind it, with dim text brightened so
/// it stays readable on top.
#[verifier::allow_in_spec]
pub fn hover_style(style: Style) -> Style
    returns
        (Style {
            fg: if style.fg == Some(theme::DIM) {
                Some(theme::TEXT)
            } else {
                style.fg
            },
            bg: Some(theme::DIM),
            bold: style.bold,
            italic: style.italic,
        }),
{
    let fg = match style.fg {
        Some(c) => if c == theme::DIM {
            Some(theme::TEXT)
        } else {
            Some(c)
        },
        None => None,
    };
    Style { fg, bg: Some(theme::DIM), bold: style.bold, italic: style.italic }
}

/// The cells a segment takes, before it is clipped.
pub open spec fn segment_cells(x: u16, area: Rect, parts: Seq<Run>) -> Rect {
    Rect { x, y: area.y, width: line_w(parts), height: 1 }
}

/// Whether a segment is lit: the pointer is in it, and it is drawn whole.
pub open spec fn segment_lit(x: u16, area: Rect, mouse: Option<Position>, parts: Seq<Run>) -> bool {
    let cells = segment_cells(x, area, parts);
    over(mouse, cells) && cells.right() <= area.right()
}

/// A row with a segment after it.
pub open spec fn with_segment(
    line: Seq<Run>,
    x: u16,
    area: Rect,
    mouse: Option<Position>,
    parts: Seq<Run>,
) -> Seq<Run> {
    line + (if segment_lit(x, area, mouse, parts) {
        hovered_line(parts)
    } else {
        parts
    })
}

/// Where a segment answers a click.
pub open spec fn segment_rect(x: u16, area: Rect, parts: Seq<Run>) -> Rect {
    segment_cells(x, area, parts).intersection(area)
}

/// Append one hoverable segment to a row and return its screen rect.
pub fn segment(
    line: &mut Line,
    x: &mut u16,
    area: Rect,
    mouse: Option<Position>,
    parts: Line,
) -> (r: Rect)
    ensures
        final(line)@ == with_segment(old(line)@, *old(x), area, mouse, parts@),
        *final(x) == old(x).saturating_add(line_w(parts@)),
        r == segment_rect(*old(x), area, parts@),
{
    let width: u16 = parts.width();
    let rect = Rect { x: *x, y: area.y, width, height: 1 };
    let mut parts = parts;
    if over(mouse, rect) && rect.right() <= area.right() {
        apply_hover(&mut parts);
    }
    line.extend(parts);
    *x = x.saturating_add(width);
    rect.intersection(area)
}

/// Where a link of `text` at `x` shows.
pub open spec fn link_cells(x: u16, area: Rect, text: Seq<char>) -> Rect {
    (Rect { x, y: area.y, width: low16(text_cells(text) as int), height: 1 }).intersection(area)
}

/// A row with a link after it.
pub open spec fn with_link(
    line: Seq<Run>,
    x: u16,
    area: Rect,
    mouse: Option<Position>,
    text: Seq<char>,
    style: Style,
    clickable: bool,
) -> Seq<Run> {
    let lit = clickable && over(mouse, link_cells(x, area, text));
    line.push(
        run(
            text,
            if lit {
                hover_style(style)
            } else {
                style
            },
        ),
    )
}

/// Where a link answers a click: nowhere, where it leads nowhere.
pub open spec fn link_rect(x: u16, area: Rect, text: Seq<char>, clickable: bool) -> Rect {
    if clickable {
        link_cells(x, area, text)
    } else {
        Rect::zero()
    }
}

/// Append one clickable run to a row and return its screen rect. A run that is
/// not `clickable` is drawn and inert.
pub fn link(
    line: &mut Line,
    x: &mut u16,
    area: Rect,
    mouse: Option<Position>,
    text: String,
    style: Style,
    clickable: bool,
) -> (r: Rect)
    ensures
        final(line)@ == with_link(old(line)@, *old(x), area, mouse, text@, style, clickable),
        *final(x) == old(x).saturating_add(link_cells(*old(x), area, text@).width),
        r == link_rect(*old(x), area, text@, clickable),
{
    let width: u16 = low_half(text_width(text.as_str()));
    let rect = (Rect { x: *x, y: area.y, width, height: 1 }).intersection(area);
    let lit: bool = clickable && over(mouse, rect);
    *x = x.saturating_add(rect.width);
    line.put(text, if lit { hover_style(style) } else { style });
    if clickable {
        rect
    } else {
        Rect::zero()
    }
}

/// A segment and a link answer only inside the area they were laid out in.
pub proof fn controls_stay_in_their_row(
    x: u16,
    area: Rect,
    parts: Seq<Run>,
    text: Seq<char>,
    clickable: bool,
    at: Position,
)
    ensures
        segment_rect(x, area, parts).contains(at) ==> area.contains(at),
        link_rect(x, area, text, clickable).contains(at) ==> area.contains(at),
        !clickable ==> !link_rect(x, area, text, clickable).contains(at),
{
}

/// Cells the mark occupies: a note, a space, and four letters.
pub const BRAND_W: u16 = 6;

/// The mark a saved track or station wears.
pub const LIKED_MARK: &'static str = "★";

/// The mark of the control that copies a link.
pub const SHARE_MARK: &'static str = "⧉";

/// The mark of the control that puts a track on a playlist.
pub const ADD_MARK: &'static str = "+";

/// Cells of the liked control of a row, padding included.
pub const LIKE_W: usize = 3;

/// Cells of the share control of a row.
pub const SHARE_W: usize = 3;

/// Cells of the add control of a row.
pub const ADD_W: usize = 3;

/// The run of three controls at the end of a track row. The cells sit flush:
/// each carries its own padding.
pub const ACTIONS_W: usize = 9;

/// Narrowest list that still carries the run.
pub const ACTIONS_MIN: usize = 33;

/// The wordmark: the note in the accent, the word in white.
pub open spec fn brand_runs(accent: u32) -> Seq<Run> {
    Seq::empty().push(run("♫ "@, theme::accent(accent))).push(
        run("spot"@, theme::bright().bold()),
    )
}

/// Where the mark answers: its own cells, or nowhere on a row too narrow to
/// draw it whole.
pub open spec fn brand_rect(row: Rect, accent: u32) -> Rect {
    let rect = segment_rect(row.x, row, brand_runs(accent));
    if row.width == 0 || row.height == 0 || rect.width < BRAND_W {
        Rect::zero()
    } else {
        rect
    }
}

/// The canvas with the mark on it, where it fits.
pub open spec fn branded(c: Canvas, row: Rect, pen: Pen) -> Canvas {
    let rect = segment_rect(row.x, row, brand_runs(pen.accent));
    if row.width == 0 || row.height == 0 || rect.width < BRAND_W {
        c
    } else {
        put_text(
            c,
            rect,
            with_segment(Seq::empty(), row.x, row, pen.mouse, brand_runs(pen.accent)),
        )
    }
}

/// The wordmark at the left of `row`, and the home button it doubles as.
///
/// All or nothing: half a wordmark reads as a fault.
pub fn brand(scene: &mut Scene, row: Rect, pen: Pen) -> (r: Rect)
    ensures
        final(scene)@ == branded(old(scene)@, row, pen),
        r == brand_rect(row, pen.accent),
{
    if row.width == 0 || row.height == 0 {
        return Rect::zero();
    }
    let mut parts = Line::empty();
    parts.print("♫ ", theme::accent(pen.accent));
    parts.print("spot", theme::bright().bold());
    let mut line = Line::empty();
    let mut x: u16 = row.x;
    let rect = segment(&mut line, &mut x, row, pen.mouse, parts);
    if rect.width < BRAND_W {
        return Rect::zero();
    }
    scene.text(rect, line);
    rect
}

/// A control of a track row's run.
#[derive(Debug, Clone, Copy, PartialEq, Eq, Structural)]
pub enum RowAction {
    Like,
    Share,
    Add,
}

/// A control's style, lit when the pointer is on it.
#[verifier::allow_in_spec]
pub fn lit_action(style: Style, hover: Option<RowAction>, action: RowAction) -> Style
    returns
        (if hover == Some(action) {
            hover_style(style)
        } else {
            style
        }),
{
    let lit: bool = match hover {
        Some(h) => h == action,
        None => false,
    };
    if lit { hover_style(style) } else { style }
}

/// A mark with a space either side.
pub open spec fn padded_mark(mark: Seq<char>) -> Seq<char> {
    " "@ + mark + " "@
}

/// The run of controls for one row. The star is the accent when the track is
/// saved, and dim when it is not or that is not known.
pub open spec fn action_runs(liked: Option<bool>, hover: Option<RowAction>, accent: u32) -> Seq<
    Run,
> {
    let like = if liked == Some(true) {
        theme::accent(accent)
    } else {
        theme::dim()
    };
    Seq::empty().push(run(padded_mark(LIKED_MARK@), lit_action(like, hover, RowAction::Like))).push(
        run(padded_mark(SHARE_MARK@), lit_action(theme::dim(), hover, RowAction::Share)),
    ).push(run(padded_mark(ADD_MARK@), lit_action(theme::dim(), hover, RowAction::Add)))
}

fn pad_mark(mark: &str) -> (r: String)
    ensures
        r@ == padded_mark(mark@),
{
    let head = joined(" ", mark);
    joined(head.as_str(), " ")
}

/// The run of controls for one row.
pub fn action_spans(liked: Option<bool>, hover: Option<RowAction>, accent: u32) -> (r: Line)
    ensures
        r@ == action_runs(liked, hover, accent),
{
    let saved: bool = match liked {
        Some(b) => b,
        None => false,
    };
    let like = if saved { theme::accent(accent) } else { theme::dim() };
    let mut line = Line::empty();
    line.put(pad_mark(LIKED_MARK), lit_action(like, hover, RowAction::Like));
    line.put(pad_mark(SHARE_MARK), lit_action(theme::dim(), hover, RowAction::Share));
    line.put(pad_mark(ADD_MARK), lit_action(theme::dim(), hover, RowAction::Add));
    line
}

/// How long each frame of the spinner holds, in milliseconds.
pub const SPINNER_FRAME: u64 = 110;

/// How many frames the spinner has.
pub const SPINNER_LEN: u64 = 8;

/// The spinner's frames, in the order they are shown: a weight travelling
/// round a braille cell.
#[verifier::allow_in_spec]
pub fn spinner_frame(i: u64) -> &'static str
    returns
        (if i == 0 {
            "⣾"
        } else if i == 1 {
            "⣽"
        } else if i == 2 {
            "⣻"
        } else if i == 3 {
            "⢿"
        } else if i == 4 {
            "⡿"
        } else if i == 5 {
            "⣟"
        } else if i == 6 {
            "⣯"
        } else {
            "⣷"
        }),
{
    if i == 0 {
        "⣾"
    } else if i == 1 {
        "⣽"
    } else if i == 2 {
        "⣻"
    } else if i == 3 {
        "⢿"
    } else if i == 4 {
        "⡿"
    } else if i == 5 {
        "⣟"
    } else if i == 6 {
        "⣯"
    } else {
        "⣷"
    }
}

/// The spinner frame `elapsed_ms` after every spinner started turning.
#[verifier::allow_in_spec]
pub fn spinner(elapsed_ms: u64) -> &'static str
    returns
        spinner_frame(((elapsed_ms / SPINNER_FRAME) % SPINNER_LEN) as u64),
{
    spinner_frame((elapsed_ms / SPINNER_FRAME) % SPINNER_LEN)
}

/// Every frame of the spinner takes one cell, so nothing beside it moves.
pub proof fn a_spinner_frame_is_one_cell(i: u64)
    ensures
        cells(spinner_frame(i)@) == 1,
        text_cells(spinner_frame(i)@) == 1,
        width_of(spinner_frame(i)@) == 1,
{
    reveal_strlit("⣾");
    reveal_strlit("⣽");
    reveal_strlit("⣻");
    reveal_strlit("⢿");
    reveal_strlit("⡿");
    reveal_strlit("⣟");
    reveal_strlit("⣯");
    reveal_strlit("⣷");
    a_narrow_text_takes_its_length(spinner_frame(i)@);
}

/// A turn of the spinner comes back to the frame it started on.
pub proof fn the_spinner_comes_round(elapsed_ms: u64)
    requires
        elapsed_ms + SPINNER_FRAME * SPINNER_LEN <= u64::MAX,
    ensures
        spinner((elapsed_ms + SPINNER_FRAME * SPINNER_LEN) as u64) == spinner(elapsed_ms),
{
    assert((elapsed_ms + 880) / 110 == elapsed_ms / 110 + 8) by (nonlinear_arith);
}

/// Whether `s` ends in `t`.
pub open spec fn ends_in(s: Seq<char>, t: Seq<char>) -> bool {
    s.len() >= t.len() && s.subrange(s.len() - t.len(), s.len() as int) == t
}

fn ends_with(s: &Vec<char>, t: &Vec<char>) -> (r: bool)
    ensures
        r == ends_in(s@, t@),
{
    if s.len() < t.len() {
        return false;
    }
    let len: usize = s.len();
    let skip: usize = len - t.len();
    let mut i: usize = 0;
    while i < t.len()
        invariant
            i <= t@.len(),
            len == s@.len(),
            skip + t@.len() == len,
            forall|j: int| 0 <= j < i ==> s@[skip + j] == t@[j],
        decreases t@.len() - i,
    {
        if s[skip + i] != t[i] {
            proof {
                let tail = s@.subrange(s@.len() - t@.len(), s@.len() as int);
                assert(tail[i as int] == s@[skip + i]);
            }
            return false;
        }
        i = i + 1;
    }
    assert(s@.subrange(s@.len() - t@.len(), s@.len() as int) =~= t@);
    true
}

/// Whether a row ends in the word on frame `i` of the spinner.
pub open spec fn ends_on_frame(line: Seq<char>, i: u64) -> bool {
    ends_in(trimmed(line), spinner_frame(i)@ + " LOADING"@)
}

/// Whether `line` ends in the spinning word of the header, on whichever frame
/// the spinner happens to be.
#[verifier::loop_isolation(false)]
pub fn ends_with_loading(line: &str) -> (r: bool)
    ensures
        r == exists|i: u64| 0 <= i < SPINNER_LEN && #[trigger] ends_on_frame(line@, i),
{
    let ink = trim_end(line);
    let v = chars_of(ink.as_str());
    let mut i: u64 = 0;
    while i < SPINNER_LEN
        invariant
            i <= SPINNER_LEN,
            forall|j: u64| 0 <= j < i ==> !#[trigger] ends_on_frame(line@, j),
        decreases SPINNER_LEN - i,
    {
        let word = joined(spinner_frame(i), " LOADING");
        let w = chars_of(word.as_str());
        if ends_with(&v, &w) {
            assert(ends_on_frame(line@, i));
            return true;
        }
        i = i + 1;
    }
    false
}

/// How a part of a split area claims its cells.
#[derive(Debug, Clone, Copy, PartialEq, Eq, Structural)]
pub enum Part {
    Length(u16),
    Min(u16),
}

/// `area` without a margin at its left and right: nothing at all, where the
/// margins do not fit.
pub open spec fn inset(area: Rect, side_margin: u16) -> Rect {
    let both = side_margin.saturating_add(side_margin);
    if area.width < both {
        Rect::zero()
    } else {
        Rect {
            x: area.x.saturating_add(side_margin),
            y: area.y,
            width: area.width.saturating_sub(both),
            height: area.height,
        }
    }
}

/// Where a block starts, down or across.
pub open spec fn start_of(vertical: bool, r: Rect) -> int {
    if vertical {
        r.y as int
    } else {
        r.x as int
    }
}

/// Where a block ends, down or across: no further than coordinates go.
pub open spec fn end_of(vertical: bool, r: Rect) -> int {
    if vertical {
        r.bottom() as int
    } else {
        r.right() as int
    }
}

/// The cells a block has to split, down or across.
pub open spec fn side_of(vertical: bool, r: Rect) -> int {
    end_of(vertical, r) - start_of(vertical, r)
}

/// The part of `r` that starts at `at` and is `len` long, down or across.
pub open spec fn slice_at(vertical: bool, r: Rect, at: int, len: int) -> Rect {
    if vertical {
        Rect { x: r.x, y: at as u16, width: r.width, height: len as u16 }
    } else {
        Rect { x: at as u16, y: r.y, width: len as u16, height: r.height }
    }
}

/// Whether three parts are two fixed lengths with a least size between them, or
/// a fixed length between two parts that ask for nothing.
pub open spec fn splits(parts: Seq<Part>) -> bool {
    &&& parts.len() == 3
    &&& match (parts[0], parts[1], parts[2]) {
        (Part::Length(_), Part::Min(m), Part::Length(_)) => m <= i16::MAX,
        (Part::Min(0), Part::Length(_), Part::Min(0)) => true,
        _ => false,
    }
}

/// The cells each of two fixed lengths and the part between them gets of `side`.
///
/// Where they fit, the lengths are kept and the part between takes the rest.
/// Where they do not, it keeps its least size as far as there is room; of what
/// is left for the lengths the first gets as near to that size as the two of
/// them allow, neither more than its own.
pub open spec fn ends_of(side: int, a: int, least: int, b: int) -> (int, int, int) {
    if a + least + b <= side {
        (a, side - a - b, b)
    } else {
        let mid = least_of(least, side);
        let rest = side - mid;
        let head = least_of(most_of(mid, rest - b), least_of(a, rest));
        (head, mid, rest - head)
    }
}

/// The cells either side of a length in the middle of `side`, and its own. Of an
/// odd number of cells to spare, the odd one is before it.
pub open spec fn middle_of(side: int, len: int) -> (int, int, int) {
    let kept = least_of(len, side);
    let before = (side - kept + 1) / 2;
    (before, kept, side - kept - before)
}

pub open spec fn least_of(a: int, b: int) -> int {
    if a <= b {
        a
    } else {
        b
    }
}

pub open spec fn most_of(a: int, b: int) -> int {
    if a >= b {
        a
    } else {
        b
    }
}

/// The cells each part gets of `side`.
pub open spec fn sizes_of(side: int, parts: Seq<Part>) -> (int, int, int) {
    match (parts[0], parts[1], parts[2]) {
        (Part::Length(a), Part::Min(m), Part::Length(b)) => ends_of(
            side,
            a as int,
            m as int,
            b as int,
        ),
        (_, Part::Length(len), _) => middle_of(side, len as int),
        _ => (0, side, 0),
    }
}

/// `r` cut into its parts, one after the other.
pub open spec fn cut(vertical: bool, r: Rect, sizes: (int, int, int)) -> Seq<Rect> {
    let at = start_of(vertical, r);
    seq![
        slice_at(vertical, r, at, sizes.0),
        slice_at(vertical, r, at + sizes.0, sizes.1),
        slice_at(vertical, r, at + sizes.0 + sizes.1, sizes.2),
    ]
}

/// Calls `ratatui::layout::Layout::split` on three parts, with a constraint for
/// each and a horizontal margin of `side_margin`.
///
/// Claimed: the area without its margin is cut into three areas of the sizes
/// that [`sizes_of`] gives, one after the other.
///
/// The layout weighs a part's least size over a fixed length, a fixed length
/// over growing, and growing over two neighbours being of one size. The last of
/// these is what decides between two lengths that do not fit: it is asked for
/// pair by pair from the first, once everything else is settled.
#[verifier::external_body]
pub(crate) fn split_area(
    vertical: bool,
    side_margin: u16,
    area: Rect,
    parts: &Vec<Part>,
) -> (rects: Vec<Rect>)
    requires
        splits(parts@),
    ensures
        rects@ == cut(
            vertical,
            inset(area, side_margin),
            sizes_of(side_of(vertical, inset(area, side_margin)), parts@),
        ),
{
    let way = match vertical {
        true => ratatui::layout::Direction::Vertical,
        false => ratatui::layout::Direction::Horizontal,
    };
    let Rect { x, y, width, height } = area;
    let whole = ratatui::layout::Rect { x, y, width, height };
    let wanted = parts.iter().map(|p| match *p {
        Part::Length(n) => ratatui::layout::Constraint::Length(n),
        Part::Min(n) => ratatui::layout::Constraint::Min(n),
    });
    let split = ratatui::layout::Layout::new(way, wanted).horizontal_margin(side_margin).split(whole);
    split.iter().map(|r| Rect { x: r.x, y: r.y, width: r.width, height: r.height }).collect()
}

/// The middle block of `len` rows or columns of `r`, or all of them where it has
/// fewer.
pub open spec fn middle_rect(vertical: bool, r: Rect, len: u16) -> Rect {
    let (before, kept, _) = middle_of(side_of(vertical, r), len as int);
    slice_at(vertical, r, start_of(vertical, r) + before, kept)
}

fn middle(vertical: bool, area: Rect, len: u16) -> (r: Rect)
    ensures
        r == middle_rect(vertical, area, len),
{
    let mut parts: Vec<Part> = Vec::new();
    parts.push(Part::Min(0));
    parts.push(Part::Length(len));
    parts.push(Part::Min(0));
    let rects = split_area(vertical, 0, area, &parts);
    assert(inset(area, 0) == area);
    rects[1]
}

/// A block of `width` by `height` in the middle of `area`, clamped to fit:
/// split off its rows first, then off the columns of those.
pub open spec fn centered_rect(area: Rect, width: u16, height: u16) -> Rect {
    middle_rect(
        false,
        middle_rect(true, area, min16(height, area.height)),
        min16(width, area.width),
    )
}

/// A block of `width` by `height` in the middle of `area`, clamped to fit.
pub fn centered(area: Rect, width: u16, height: u16) -> (r: Rect)
    ensures
        r == centered_rect(area, width, height),
{
    let rows = middle(true, area, min16(height, area.height));
    middle(false, rows, min16(width, area.width))
}

/// A box in the middle lies inside what it is in the middle of, is of the size
/// that was asked for where there is room, and leaves as much on one side of it
/// as on the other, to the cell.
pub proof fn a_box_is_in_the_middle(area: Rect, width: u16, height: u16)
    requires
        area.x + area.width <= u16::MAX,
        area.y + area.height <= u16::MAX,
    ensures
        ({
            let r = centered_rect(area, width, height);
            let (left, right) = (r.x - area.x, area.x + area.width - (r.x + r.width));
            let (above, below) = (r.y - area.y, area.y + area.height - (r.y + r.height));
            &&& r.width == min16(width, area.width)
            &&& r.height == min16(height, area.height)
            &&& 0 <= right <= left <= right + 1
            &&& 0 <= below <= above <= below + 1
        }),
{
}

/// Groups as values.
pub open spec fn groups_of(groups: Seq<Line>) -> Seq<Seq<Run>> {
    lines_of(groups)
}

/// The cells of the first `n` groups.
pub open spec fn groups_cells(groups: Seq<Seq<Run>>, n: nat) -> nat
    decreases n,
{
    if n == 0 {
        0
    } else {
        groups_cells(groups, (n - 1) as nat) + line_cells(groups[n - 1])
    }
}

/// The cells the groups take with one between neighbours.
pub open spec fn groups_w(groups: Seq<Seq<Run>>) -> u16 {
    let gaps = if groups.len() == 0 {
        0
    } else {
        groups.len() - 1
    };
    low16(groups_cells(groups, groups.len()) + gaps)
}

/// A right-hand row as far as it has been laid out.
pub struct Laid {
    pub line: Seq<Run>,
    pub x: u16,
    pub rects: Seq<Rect>,
}

/// The first `n` groups laid out from `start`.
pub open spec fn laid(
    groups: Seq<Seq<Run>>,
    n: nat,
    start: u16,
    row: Rect,
    mouse: Option<Position>,
) -> Laid
    decreases n,
{
    if n == 0 {
        Laid { line: Seq::empty(), x: start, rects: Seq::empty() }
    } else {
        let b = laid(groups, (n - 1) as nat, start, row, mouse);
        let g = groups[n - 1];
        let line = with_segment(b.line, b.x, row, mouse, g);
        let x = b.x.saturating_add(line_w(g));
        let rects = b.rects.push(segment_rect(b.x, row, g));
        if n < groups.len() {
            Laid { line: line.push(run(" "@, Style::plain())), x: x.saturating_add(1), rects }
        } else {
            Laid { line, x, rects }
        }
    }
}

/// Whether a right-hand row has room for its groups.
pub open spec fn row_holds(row: Rect, groups: Seq<Seq<Run>>) -> bool {
    groups_w(groups) <= row.width
}

/// Where the groups of a right-hand row answer: all of them or none.
pub open spec fn right_rects(
    row: Rect,
    mouse: Option<Position>,
    groups: Seq<Seq<Run>>,
) -> Seq<Rect> {
    if row_holds(row, groups) {
        laid(groups, groups.len(), (row.right() - groups_w(groups)) as u16, row, mouse).rects
    } else {
        Seq::new(groups.len(), |_i: int| Rect::zero())
    }
}

/// The canvas with a right-hand row on it, where it fits.
pub open spec fn right_drawn(
    c: Canvas,
    row: Rect,
    mouse: Option<Position>,
    groups: Seq<Seq<Run>>,
) -> Canvas {
    if row_holds(row, groups) {
        let total = groups_w(groups);
        let start = (row.right() - total) as u16;
        put_text(
            c,
            Rect { x: start, y: row.y, width: total, height: row.height },
            laid(groups, groups.len(), start, row, mouse).line,
        )
    } else {
        c
    }
}

/// The cells groups take together, neighbours one cell apart.
fn groups_width(groups: &Vec<Line>) -> (w: u16)
    ensures
        w == groups_w(groups_of(groups@)),
{
    let ghost gs = groups_of(groups@);
    let mut w: u16 = 0;
    let mut i: usize = 0;
    while i < groups.len()
        invariant
            i <= groups@.len(),
            gs == groups_of(groups@),
            w == low16(
                groups_cells(gs, i as nat) + (if i == 0 {
                    0
                } else {
                    i - 1
                }),
            ),
        decreases groups@.len() - i,
    {
        assert(gs[i as int] == groups@[i as int]@);
        let add: u16 = groups[i].width();
        proof {
            let gap: int = if i == 0 { 0 } else { 1 };
            let shown = groups_cells(gs, i as nat) + (if i == 0 { 0 } else { i - 1 });
            lemma_low16(shown, line_cells(gs[i as int]) as int);
            lemma_low16(shown + line_cells(gs[i as int]), gap);
        }
        w = w.wrapping_add(add);
        if i > 0 {
            w = w.wrapping_add(1);
        }
        i = i + 1;
    }
    w
}

/// Lay hoverable groups out flush with `row`'s right edge and draw them as one
/// line, one blank cell between neighbours, returning where each answers.
///
/// A row too narrow for them draws none and answers nowhere: a control pinned
/// this way is fully usable or absent.
pub fn right_row(
    scene: &mut Scene,
    row: Rect,
    mouse: Option<Position>,
    groups: Vec<Line>,
) -> (rects: Vec<Rect>)
    ensures
        final(scene)@ == right_drawn(old(scene)@, row, mouse, groups_of(groups@)),
        rects@ == right_rects(row, mouse, groups_of(groups@)),
        rects@.len() == groups@.len(),
{
    let ghost gs = groups_of(groups@);
    let total: u16 = groups_width(&groups);
    let mut rects: Vec<Rect> = Vec::new();
    let mut i: usize = 0;
    if total > row.width {
        while i < groups.len()
            invariant
                i <= groups@.len(),
                rects@.len() == i,
                forall|j: int| 0 <= j < i ==> rects@[j] == Rect::zero(),
            decreases groups@.len() - i,
        {
            rects.push(Rect::zero());
            i = i + 1;
        }
        assert(rects@ =~= right_rects(row, mouse, gs));
        return rects;
    }
    let start: u16 = row.right() - total;
    let mut line = Line::empty();
    let mut x: u16 = start;
    assert(rects@ =~= Seq::<Rect>::empty());
    while i < groups.len()
        invariant
            i <= groups@.len(),
            gs == groups_of(groups@),
            rects@.len() == i,
            (Laid { line: line@, x, rects: rects@ }) == laid(gs, i as nat, start, row, mouse),
        decreases groups@.len() - i,
    {
        assert(gs[i as int] == groups@[i as int]@);
        let rect = segment(&mut line, &mut x, row, mouse, groups[i].copy());
        rects.push(rect);
        if i + 1 < groups.len() {
            line.print(" ", Style::plain());
            x = x.saturating_add(1);
        }
        i = i + 1;
    }
    scene.text(Rect { x: start, y: row.y, width: total, height: row.height }, line);
    rects
}

proof fn lemma_groups_mono(groups: Seq<Seq<Run>>, a: nat, b: nat)
    requires
        a <= b,
    ensures
        groups_cells(groups, a) <= groups_cells(groups, b),
    decreases b,
{
    if a < b {
        lemma_groups_mono(groups, a, (b - 1) as nat);
    }
}

/// A right-hand row that fits ends flush with the row's right edge, each group
/// in its own cells and one blank cell from its neighbour.
pub proof fn a_right_row_is_flush(row: Rect, mouse: Option<Position>, groups: Seq<Seq<Run>>)
    requires
        groups.len() > 0,
        row.x + row.width <= 0xFFFF,
        groups_cells(groups, groups.len()) + groups.len() - 1 <= row.width,
        row.height > 0,
        row.y < 0xFFFF,
    ensures
        ({
            let r = right_rects(row, mouse, groups);
            &&& r.len() == groups.len()
            &&& r.last().right() == row.right()
            &&& forall|k: int|
                0 <= k < groups.len() ==> (#[trigger] r[k]).width == line_cells(groups[k])
            &&& forall|k: int|
                0 <= k < groups.len() - 1 ==> (#[trigger] r[k]).x + r[k].width + 1 == r[k + 1].x
        }),
{
    let n = groups.len();
    let cells_all = groups_cells(groups, n);
    assert(groups_w(groups) == cells_all + n - 1);
    let start = (row.right() - groups_w(groups)) as u16;
    lemma_laid_fit(groups, n, start, row, mouse);
    assert forall|k: int| 0 <= k < groups.len() implies (#[trigger] right_rects(
        row,
        mouse,
        groups,
    )[k]).width == line_cells(groups[k]) by {
        lemma_groups_mono(groups, (k + 1) as nat, n);
    }
    assert forall|k: int| 0 <= k < groups.len() - 1 implies (#[trigger] right_rects(
        row,
        mouse,
        groups,
    )[k]).x + right_rects(row, mouse, groups)[k].width + 1 == right_rects(
        row,
        mouse,
        groups,
    )[k + 1].x by {
        lemma_groups_mono(groups, (k + 1) as nat, n);
        lemma_groups_mono(groups, (k + 2) as nat, n);
    }
    lemma_groups_mono(groups, (n - 1) as nat, n);
}

proof fn lemma_laid_fit(
    groups: Seq<Seq<Run>>,
    n: nat,
    start: u16,
    row: Rect,
    mouse: Option<Position>,
)
    requires
        n <= groups.len(),
        groups.len() > 0,
        start + groups_cells(groups, groups.len()) + groups.len() - 1 <= 0xFFFF,
    ensures
        ({
            let l = laid(groups, n, start, row, mouse);
            let gaps = if n < groups.len() { n as int } else { n as int - 1 };
            &&& l.rects.len() == n
            &&& l.x == start + groups_cells(groups, n) + gaps
            &&& forall|k: int| 0 <= k < n ==> #[trigger] l.rects[k] == (Rect {
                x: (start + groups_cells(groups, k as nat) + k) as u16,
                y: row.y,
                width: line_cells(groups[k]) as u16,
                height: 1,
            }).intersection(row)
        }),
    decreases n,
{
    lemma_groups_mono(groups, n, groups.len());
    if n > 0 {
        lemma_laid_fit(groups, (n - 1) as nat, start, row, mouse);
        let g = groups[n - 1];
        assert(line_cells(g) <= 0xFFFF);
        assert(line_w(g) == line_cells(g));
    }
}

/// A progress track: `filled` whole cells, a half cell where there is one, and
/// the rest.
pub open spec fn meter_runs(filled: u16, half: bool, width: u16, accent: u32) -> Seq<Run> {
    let spent = filled.saturating_add(if half { 1u16 } else { 0u16 });
    Seq::empty().push(run(copies('━', filled as nat), theme::accent(accent))).push(
        run(
            if half {
                "╸"@
            } else {
                ""@
            },
            theme::accent(accent),
        ),
    ).push(run(copies('─', width.saturating_sub(spent) as nat), theme::dim()))
}

/// The spans of a progress track.
///
/// A track has half-cell resolution: `half` says that the cell after the
/// `filled` ones is half way there.
pub fn meter(filled: u16, half: bool, width: u16, accent: u32) -> (line: Line)
    ensures
        line@ == meter_runs(filled, half, width, accent),
{
    let spent: u16 = filled.saturating_add(if half { 1u16 } else { 0u16 });
    let mut line = Line::empty();
    line.put(repeated('━', filled as usize), theme::accent(accent));
    line.print(if half { "╸" } else { "" }, theme::accent(accent));
    line.put(repeated('─', width.saturating_sub(spent) as usize), theme::dim());
    line
}

/// A slider with its knob on cell `at`.
pub open spec fn slider_runs(at: u16, width: u16, hover: bool, accent: u32) -> Seq<Run> {
    let knob = if hover {
        theme::knob_style(accent)
    } else {
        theme::accent(accent)
    };
    Seq::empty().push(run(copies('━', at as nat), theme::accent(accent))).push(
        run("●"@, knob),
    ).push(run(copies('─', width.saturating_sub(at.saturating_add(1)) as nat), theme::dim()))
}

/// The spans of a slider, its knob brightened under the pointer.
pub fn slider(at: u16, width: u16, hover: bool, accent: u32) -> (line: Line)
    ensures
        line@ == slider_runs(at, width, hover, accent),
{
    let mut line = Line::empty();
    line.put(repeated('━', at as usize), theme::accent(accent));
    let knob = if hover { theme::knob_lit(accent) } else { theme::accent(accent) };
    line.print("●", knob);
    line.put(
        repeated('─', width.saturating_sub(at.saturating_add(1)) as usize),
        theme::dim(),
    );
    line
}

/// The cell of a `width`-cell slider its knob sits on at `percent`, to the
/// nearest cell, halves up. Past a hundred it sits on the last.
#[verifier::allow_in_spec]
pub fn knob_at(percent: u8, width: u16) -> u16
    returns
        (if width == 0 {
            0u16
        } else {
            (((if percent > 100 { 100u32 } else { percent as u32 }) * ((width - 1) as u32) + 50)
                / 100) as u16
        }),
{
    if width == 0 {
        return 0;
    }
    let p: u32 = if percent > 100 { 100 } else { percent as u32 };
    let span: u32 = (width - 1) as u32;
    assert(p * span <= 100 * span) by (nonlinear_arith)
        requires
            p <= 100,
    ;
    assert(0 <= p * span) by (nonlinear_arith);
    assert((p * span + 50) / 100 <= span);
    ((p * span + 50) / 100) as u16
}

/// The knob of a slider is on the slider, at its first cell when it is empty
/// and at its last when it is full, and further along the louder it is.
pub proof fn the_knob_stays_on_its_slider(a: u8, b: u8, width: u16)
    requires
        width > 0,
        a <= b,
    ensures
        knob_at(a, width) < width,
        knob_at(a, width) <= knob_at(b, width),
        knob_at(0, width) == 0,
        knob_at(100, width) == width - 1,
{
    let p: u32 = if a > 100 { 100 } else { a as u32 };
    let q: u32 = if b > 100 { 100 } else { b as u32 };
    let span: u32 = (width - 1) as u32;
    assert(p * span <= 100 * span) by (nonlinear_arith)
        requires
            p <= 100,
    ;
    assert(q * span <= 100 * span) by (nonlinear_arith)
        requires
            q <= 100,
    ;
    assert(p * span <= q * span) by (nonlinear_arith)
        requires
            p <= q,
    ;
    assert(0 <= p * span) by (nonlinear_arith);
    assert((p * span + 50) / 100 <= span);
    assert((q * span + 50) / 100 <= span);
    assert((p * span + 50) / 100 <= (q * span + 50) / 100);
    assert(0 * span == 0) by (nonlinear_arith);
}

/// Cells an art block of `rows` rows takes across: twice as many, which is
/// square on screen.
#[verifier::allow_in_spec]
pub fn art_w(rows: u16) -> u16
    returns
        rows.saturating_add(rows),
{
    rows.saturating_add(rows)
}

/// Rows an art block `cols` cells across can square.
#[verifier::allow_in_spec]
pub fn art_rows(cols: u16) -> u16
    returns
        (cols / 2) as u16,
{
    cols / 2
}

/// The canvas with a picture on it, where there are cells for it.
pub open spec fn pictured(
    c: Canvas,
    area: Rect,
    clip: Rect,
    picture: Picture,
    seed: Seq<char>,
) -> Canvas {
    if area.width == 0 || area.height == 0 || clip.is_empty() {
        c
    } else {
        c.push(OpView::Art { area, clip, picture, seed })
    }
}

/// Paint `area` with a picture. `seed` picks the swatch that stands in for one
/// that has not arrived, and a given seed always gets the same one.
pub fn draw_art(scene: &mut Scene, area: Rect, picture: Picture, seed: String)
    ensures
        final(scene)@ == pictured(old(scene)@, area, area, picture, seed@),
{
    draw_art_clipped(scene, area, area, picture, seed);
}

/// Paint the cells of `area` that fall inside `clip` with a picture the size of
/// the whole of `area`, so a block scrolling past an edge slides under it.
pub fn draw_art_clipped(
    scene: &mut Scene,
    area: Rect,
    clip: Rect,
    picture: Picture,
    seed: String,
)
    ensures
        final(scene)@ == pictured(old(scene)@, area, clip, picture, seed@),
{
    if area.width == 0 || area.height == 0 || clip.is_empty() {
        return;
    }
    scene.put(Op::Art { area, clip, picture, seed });
}

/// One painted cell of a picture: two pixels, one over the other, or the note
/// of a stand-in.
#[derive(Debug, Clone, Copy, PartialEq, Eq, Structural)]
pub struct ArtCell {
    pub at: Position,
    pub note: bool,
    pub fg: u32,
    pub bg: u32,
}

/// Where cell (`row`, `col`) of a picture is on screen.
pub open spec fn art_at(area: Rect, row: int, col: int) -> Position {
    Position { x: area.x.saturating_add(col as u16), y: area.y.saturating_add(row as u16) }
}

/// The cell of a picture at (`row`, `col`): the pixel above on the one below.
pub open spec fn art_cell(area: Rect, px: Seq<u32>, row: int, col: int) -> ArtCell {
    ArtCell {
        at: art_at(area, row, col),
        note: false,
        fg: px[2 * row * area.width + col],
        bg: px[(2 * row + 1) * area.width + col],
    }
}

/// The cells of `row` up to column `n`, those inside `clip`, after `acc`.
pub open spec fn art_row(
    acc: Seq<ArtCell>,
    area: Rect,
    clip: Rect,
    px: Seq<u32>,
    row: int,
    n: nat,
) -> Seq<ArtCell>
    decreases n,
{
    if n == 0 {
        acc
    } else {
        let before = art_row(acc, area, clip, px, row, (n - 1) as nat);
        if clip.contains(art_at(area, row, n - 1)) {
            before.push(art_cell(area, px, row, n - 1))
        } else {
            before
        }
    }
}

/// The cells of the first `n` rows, those inside `clip`.
pub open spec fn art_block(area: Rect, clip: Rect, px: Seq<u32>, n: nat) -> Seq<ArtCell>
    decreases n,
{
    if n == 0 {
        Seq::empty()
    } else {
        art_row(
            art_block(area, clip, px, (n - 1) as nat),
            area,
            clip,
            px,
            n - 1,
            area.width as nat,
        )
    }
}

/// The note in the middle of a stand-in, on the swatch behind it.
pub open spec fn note_cell(area: Rect, px: Seq<u32>) -> ArtCell {
    let cx = (area.width / 2) as int;
    let cy = (area.height / 2) as int;
    ArtCell {
        at: art_at(area, cy, cx),
        note: true,
        fg: theme::BRIGHT,
        bg: px[(2 * cy + 1) * area.width + cx],
    }
}

/// Every painted cell of a picture, the note of a stand-in last.
pub open spec fn art_painted(area: Rect, clip: Rect, px: Seq<u32>, standin: bool) -> Seq<ArtCell> {
    let block = art_block(area, clip, px, area.height as nat);
    if standin && clip.contains(note_cell(area, px).at) {
        block.push(note_cell(area, px))
    } else {
        block
    }
}

proof fn lemma_art_row(
    acc: Seq<ArtCell>,
    area: Rect,
    clip: Rect,
    px: Seq<u32>,
    row: int,
    n: nat,
)
    requires
        forall|i: int| 0 <= i < acc.len() ==> clip.contains((#[trigger] acc[i]).at),
    ensures
        forall|i: int|
            0 <= i < art_row(acc, area, clip, px, row, n).len() ==> clip.contains(
                (#[trigger] art_row(acc, area, clip, px, row, n)[i]).at,
            ),
    decreases n,
{
    if n > 0 {
        lemma_art_row(acc, area, clip, px, row, (n - 1) as nat);
        let before = art_row(acc, area, clip, px, row, (n - 1) as nat);
        let after = art_row(acc, area, clip, px, row, n);
        assert forall|i: int| 0 <= i < after.len() implies clip.contains(
            (#[trigger] after[i]).at,
        ) by {
            if i < before.len() {
                assert(after[i] == before[i]);
            } else {
                assert(after[i] == art_cell(area, px, row, n - 1));
            }
        }
    }
}

proof fn lemma_art_block(area: Rect, clip: Rect, px: Seq<u32>, n: nat)
    ensures
        forall|i: int|
            0 <= i < art_block(area, clip, px, n).len() ==> clip.contains(
                (#[trigger] art_block(area, clip, px, n)[i]).at,
            ),
    decreases n,
{
    if n > 0 {
        lemma_art_block(area, clip, px, (n - 1) as nat);
        lemma_art_row(
            art_block(area, clip, px, (n - 1) as nat),
            area,
            clip,
            px,
            n - 1,
            area.width as nat,
        );
    }
}

/// A picture is painted nowhere but inside its clip, so a block that scrolls
/// past an edge slides under it.
pub proof fn a_picture_stays_in_its_clip(area: Rect, clip: Rect, px: Seq<u32>, standin: bool)
    ensures
        forall|i: int|
            0 <= i < art_painted(area, clip, px, standin).len() ==> clip.contains(
                (#[trigger] art_painted(area, clip, px, standin)[i]).at,
            ),
{
    lemma_art_block(area, clip, px, area.height as nat);
}

proof fn lemma_pixel(w: int, h: int, row: int, col: int)
    requires
        0 <= col < w,
        0 <= row < h,
    ensures
        0 <= 2 * row * w + col < 2 * w * h,
        0 <= (2 * row + 1) * w + col < 2 * w * h,
        (2 * row + 1) * w == 2 * row * w + w,
{
    assert((2 * row + 1) * w == 2 * row * w + w) by (nonlinear_arith);
    assert((2 * row + 2) * w == 2 * row * w + 2 * w) by (nonlinear_arith);
    assert((2 * row + 2) * w <= 2 * w * h) by (nonlinear_arith)
        requires
            row < h,
            w > 0,
    ;
    assert(0 <= 2 * row * w) by (nonlinear_arith)
        requires
            row >= 0,
            w > 0,
    ;
}

/// The cells of a picture `area.width` by twice `area.height` pixels, row after
/// row, as they are painted inside `clip`.
pub fn art_cells(area: Rect, clip: Rect, px: &Vec<u32>, standin: bool) -> (out: Vec<ArtCell>)
    requires
        area.width > 0,
        area.height > 0,
        px@.len() == 2 * area.width * area.height,
    ensures
        out@ == art_painted(area, clip, px@, standin),
{
    let mut out: Vec<ArtCell> = Vec::new();
    let w: usize = area.width as usize;
    let len: usize = px.len();
    let mut row: u16 = 0;
    let mut base: usize = 0;
    assert(out@ =~= Seq::<ArtCell>::empty());
    assert(2 * 0 * w == 0) by (nonlinear_arith);
    while row < area.height
        invariant
            row <= area.height,
            w == area.width,
            w > 0,
            px@.len() == 2 * area.width * area.height,
            len == px@.len(),
            base == 2 * row * w,
            out@ == art_block(area, clip, px@, row as nat),
        decreases area.height - row,
    {
        let ghost start = out@;
        let mut col: u16 = 0;
        while col < area.width
            invariant
                col <= area.width,
                row < area.height,
                w == area.width,
                px@.len() == 2 * area.width * area.height,
                len == px@.len(),
                base == 2 * row * w,
                out@ == art_row(start, area, clip, px@, row as int, col as nat),
            decreases area.width - col,
        {
            proof {
                lemma_pixel(w as int, area.height as int, row as int, col as int);
                assert(2 * w * area.height == 2 * area.width * area.height);
            }
            let at = Position { x: area.x.saturating_add(col), y: area.y.saturating_add(row) };
            if clip.contains(at) {
                out.push(
                    ArtCell {
                        at,
                        note: false,
                        fg: px[base + col as usize],
                        bg: px[base + w + col as usize],
                    },
                );
            }
            col = col + 1;
        }
        proof {
            lemma_pixel(w as int, area.height as int, row as int, 0);
            assert(2 * (row + 1) * w == 2 * row * w + 2 * w) by (nonlinear_arith);
            assert(2 * (row + 1) * w <= 2 * w * area.height) by (nonlinear_arith)
                requires
                    row < area.height,
            ;
            assert(2 * w * area.height == 2 * area.width * area.height);
        }
        base = base + w + w;
        row = row + 1;
    }
    if standin {
        let cx: u16 = area.width / 2;
        let cy: u16 = area.height / 2;
        let at = Position { x: area.x.saturating_add(cx), y: area.y.saturating_add(cy) };
        if clip.contains(at) {
            proof {
                lemma_pixel(w as int, area.height as int, cy as int, cx as int);
                assert(2 * w * area.height == 2 * area.width * area.height);
                assert((2 * cy + 1) * w <= 2 * w * area.height);
            }
            let line: usize = 2 * cy as usize + 1;
            assert(line * w == (2 * cy + 1) * w);
            let bg: u32 = px[line * w + cx as usize];
            out.push(ArtCell { at, note: true, fg: theme::BRIGHT, bg });
        }
    }
    out
}

/// How many swatches a stand-in is picked from.
pub const PLACEHOLDERS: u64 = 6;

/// The swatches a stand-in is picked from: the two ends of a diagonal.
#[verifier::allow_in_spec]
pub fn placeholder_pair(i: u64) -> (u32, u32)
    returns
        (if i == 0 {
            (0x1E2A38u32, 0x334652u32)
        } else if i == 1 {
            (0x2B1F35u32, 0x463352u32)
        } else if i == 2 {
            (0x1C302Au32, 0x2F4C40u32)
        } else if i == 3 {
            (0x35261Cu32, 0x523E2Cu32)
        } else if i == 4 {
            (0x22253Au32, 0x393D59u32)
        } else {
            (0x331E26u32, 0x4F333Du32)
        }),
{
    if i == 0 {
        (0x1E2A38, 0x334652)
    } else if i == 1 {
        (0x2B1F35, 0x463352)
    } else if i == 2 {
        (0x1C302A, 0x2F4C40)
    } else if i == 3 {
        (0x35261C, 0x523E2C)
    } else if i == 4 {
        (0x22253A, 0x393D59)
    } else {
        (0x331E26, 0x4F333D)
    }
}

/// The FNV-1a hash of the first `n` bytes.
pub open spec fn fnv(bytes: Seq<u8>, n: nat) -> u64
    decreases n,
{
    if n == 0 {
        0xcbf2_9ce4_8422_2325
    } else {
        (fnv(bytes, (n - 1) as nat) ^ (bytes[n - 1] as u64)).wrapping_mul(0x0000_0100_0000_01b3)
    }
}

/// The swatch of a seed.
pub open spec fn swatch(seed: Seq<u8>) -> (u32, u32) {
    placeholder_pair((fnv(seed, seed.len()) % PLACEHOLDERS) as u64)
}

/// The swatch that stands in for the picture of `seed`: the same one for the
/// same seed, in every run.
pub fn placeholder(seed: &str) -> (r: (u32, u32))
    ensures
        r == swatch(seed.spec_bytes()),
{
    let bytes = seed.as_bytes();
    let mut hash: u64 = 0xcbf2_9ce4_8422_2325;
    let mut i: usize = 0;
    while i < bytes.len()
        invariant
            i <= bytes@.len(),
            hash == fnv(bytes@, i as nat),
        decreases bytes@.len() - i,
    {
        hash = (hash ^ (bytes[i] as u64)).wrapping_mul(0x0000_0100_0000_01b3);
        i = i + 1;
    }
    placeholder_pair(hash % PLACEHOLDERS)
}

/// What the pill says of a deck that is playing, or of one that is not: what a
/// click does, or the state it is in. Padded so that it does not move when it
/// turns.
#[verifier::allow_in_spec]
pub fn pill_face(playing: bool, wear: Wear) -> (&'static str, &'static str)
    returns
        (match (wear, playing) {
            (Wear::Acts, true) => ("■", " pause"),
            (Wear::Acts, false) => ("▶", " play "),
            (Wear::Reports, true) => (" ●", " playing"),
            (Wear::Reports, false) => (" ■", " paused "),
        }),
{
    match (wear, playing) {
        (Wear::Acts, true) => ("■", " pause"),
        (Wear::Acts, false) => ("▶", " play "),
        (Wear::Reports, true) => (" ●", " playing"),
        (Wear::Reports, false) => (" ■", " paused "),
    }
}

/// The play-state pill, in the accent while the deck runs and held back when it
/// does not. There is none while the sound has been asked for and not heard.
pub open spec fn state_runs(play: PlayState, wear: Wear, accent: u32) -> Option<Seq<Run>> {
    match play {
        PlayState::Playing => Some(
            Seq::empty().push(run(pill_face(true, wear).0@, theme::accent(accent))).push(
                run(pill_face(true, wear).1@, theme::accent(accent)),
            ),
        ),
        PlayState::Paused => Some(
            Seq::empty().push(run(pill_face(false, wear).0@, theme::stopped_style(accent))).push(
                run(pill_face(false, wear).1@, theme::stopped_style(accent)),
            ),
        ),
        PlayState::Loading => None,
    }
}

/// The play-state pill.
pub fn state_spans(play: PlayState, wear: Wear, accent: u32) -> (r: Option<Line>)
    ensures
        r is Some <==> play != PlayState::Loading,
        r matches Some(line) ==> state_runs(play, wear, accent) == Some(line@),
{
    let mut line = Line::empty();
    match play {
        PlayState::Playing => {
            let (glyph, word) = pill_face(true, wear);
            line.print(glyph, theme::accent(accent));
            line.print(word, theme::accent(accent));
        },
        PlayState::Paused => {
            let (glyph, word) = pill_face(false, wear);
            let style = theme::stopped_dim(accent);
            line.print(glyph, style);
            line.print(word, style);
        },
        PlayState::Loading => return None,
    }
    Some(line)
}

/// The pill is as wide in either of its states, mark and word.
pub proof fn the_pill_does_not_move(wear: Wear)
    ensures
        cells(pill_face(true, wear).0@) == cells(pill_face(false, wear).0@),
        cells(pill_face(true, wear).1@) == cells(pill_face(false, wear).1@),
        text_cells(pill_face(true, wear).0@) == text_cells(pill_face(false, wear).0@),
        text_cells(pill_face(true, wear).1@) == text_cells(pill_face(false, wear).1@),
{
    a_face_is_narrow(true, wear);
    a_face_is_narrow(false, wear);
}

proof fn a_face_is_narrow(playing: bool, wear: Wear)
    ensures
        ({
            let (mark, word) = pill_face(playing, wear);
            let (mark_w, word_w): (nat, nat) = match wear {
                Wear::Acts => (1, 6),
                Wear::Reports => (2, 8),
            };
            &&& cells(mark@) == mark_w == text_cells(mark@)
            &&& cells(word@) == word_w == text_cells(word@)
        }),
{
    reveal_strlit("■");
    reveal_strlit("▶");
    reveal_strlit(" ●");
    reveal_strlit(" ■");
    reveal_strlit(" pause");
    reveal_strlit(" play ");
    reveal_strlit(" playing");
    reveal_strlit(" paused ");
    a_narrow_text_takes_its_length(pill_face(playing, wear).0@);
    a_narrow_text_takes_its_length(pill_face(playing, wear).1@);
}

/// Width of the volume slider's track, in cells.
pub const VOL_TRACK_W: u16 = 16;

/// The volume readout: " 50%", the number flush right in three cells.
pub open spec fn percent_text(percent: u8) -> Seq<char> {
    " "@ + padded_left(decimal(percent as nat), 3) + "%"@
}

fn percent_label(percent: u8) -> (r: String)
    ensures
        r@ == percent_text(percent),
{
    let n = dec(percent as u64);
    let n = pad_left(n.as_str(), 3);
    let head = joined(" ", n.as_str());
    joined(head.as_str(), "%")
}

/// The cells of the volume control.
pub open spec fn volume_w(percent: u8) -> u16 {
    low16(text_cells("vol "@) as int).saturating_add(VOL_TRACK_W).saturating_add(
        low16(text_cells(percent_text(percent)) as int),
    )
}

/// Whether the pointer is on the volume control of `row`.
pub open spec fn volume_hover(row: Rect, percent: u8, mouse: Option<Position>) -> bool {
    mouse matches Some(m) && m.y == row.y && volume_w(percent) <= row.width && m.x >= row.right()
        - volume_w(percent)
}

/// The volume control: label, track, readout.
pub open spec fn volume_runs(row: Rect, percent: u8, pen: Pen) -> Seq<Run> {
    Seq::empty().push(run("vol "@, theme::dim())) + slider_runs(
        knob_at(percent, VOL_TRACK_W),
        VOL_TRACK_W,
        volume_hover(row, percent, pen.mouse),
        pen.accent,
    ).push(run(percent_text(percent), theme::dim()))
}

/// The one group of the volume row.
pub open spec fn volume_group(row: Rect, percent: u8, pen: Pen) -> Seq<Seq<Run>> {
    seq![volume_runs(row, percent, pen)]
}

/// Where the whole volume control is.
pub open spec fn volume_rect(row: Rect, percent: u8, pen: Pen) -> Rect {
    right_rects(row, pen.mouse, volume_group(row, percent, pen))[0]
}

/// Where the track of the volume control answers: the label and the readout do
/// not map to a level.
pub open spec fn volume_track(row: Rect, percent: u8, pen: Pen) -> Rect {
    let seg = volume_rect(row, percent, pen);
    if seg.is_empty() {
        Rect::zero()
    } else {
        (Rect {
            x: seg.x.saturating_add(low16(text_cells("vol "@) as int)),
            y: seg.y,
            width: VOL_TRACK_W,
            height: seg.height,
        }).intersection(row)
    }
}

/// The canvas with the volume control on it.
pub open spec fn volume_drawn(c: Canvas, row: Rect, percent: u8, pen: Pen) -> Canvas {
    put_hit(
        right_drawn(c, row, pen.mouse, volume_group(row, percent, pen)),
        volume_track(row, percent, pen),
        Target::Volume,
    )
}

/// The volume slider, flush with `row`'s right edge. Its track alone answers;
/// the whole control's rect is returned.
pub fn draw_volume(scene: &mut Scene, row: Rect, percent: u8, pen: Pen) -> (r: Rect)
    ensures
        final(scene)@ == volume_drawn(old(scene)@, row, percent, pen),
        r == volume_rect(row, percent, pen),
{
    let pct = percent_label(percent);
    let label_w: u16 = low_half(text_width("vol "));
    let pct_w: u16 = low_half(text_width(pct.as_str()));
    let seg_w: u16 = label_w.saturating_add(VOL_TRACK_W).saturating_add(pct_w);
    let hover: bool = match pen.mouse {
        Some(m) => m.y == row.y && seg_w <= row.width && m.x >= row.right() - seg_w,
        None => false,
    };
    let mut parts = Line::empty();
    parts.print("vol ", theme::dim());
    let mut rest = slider(knob_at(percent, VOL_TRACK_W), VOL_TRACK_W, hover, pen.accent);
    rest.put(pct, theme::dim());
    parts.extend(rest);
    let mut groups: Vec<Line> = Vec::new();
    groups.push(parts);
    assert(groups_of(groups@) =~= volume_group(row, percent, pen));
    let rects = right_row(scene, row, pen.mouse, groups);
    let seg = rects[0];
    let track = if seg.is_empty() {
        Rect::zero()
    } else {
        (Rect {
            x: seg.x.saturating_add(label_w),
            y: seg.y,
            width: VOL_TRACK_W,
            height: seg.height,
        }).intersection(row)
    };
    scene.hit(track, Target::Volume);
    seg
}

pub proof fn lemma_prints_both(a: Seq<Run>, b: Seq<Run>)
    ensures
        printed(a + b) == printed(a) + printed(b),
    decreases b.len(),
{
    if b.len() == 0 {
        assert(a + b =~= a);
        assert(printed(a) + printed(b) =~= printed(a));
    } else {
        assert((a + b).drop_last() =~= a + b.drop_last());
        lemma_prints_both(a, b.drop_last());
        assert(printed(a + b) =~= printed(a) + printed(b));
    }
}

proof fn lemma_restyled_prints(line: Seq<Run>)
    ensures
        printed(hovered_line(line)) == printed(line),
        printed(selected_line(line)) == printed(line),
    decreases line.len(),
{
    if line.len() > 0 {
        lemma_restyled_prints(line.drop_last());
        assert(hovered_line(line).drop_last() =~= hovered_line(line.drop_last()));
        assert(selected_line(line).drop_last() =~= selected_line(line.drop_last()));
    }
}

/// Lighting a control or selecting a row prints nothing else, and a control is
/// printed behind what was before it.
pub proof fn light_changes_no_text(
    line: Seq<Run>,
    x: u16,
    area: Rect,
    mouse: Option<Position>,
    parts: Seq<Run>,
    text: Seq<char>,
    style: Style,
    clickable: bool,
)
    ensures
        printed(hovered_line(parts)) == printed(parts),
        printed(selected_line(parts)) == printed(parts),
        printed(with_segment(line, x, area, mouse, parts)) == printed(line) + printed(parts),
        printed(with_link(line, x, area, mouse, text, style, clickable)) == printed(line) + text,
        with_segment(line, x, area, None, parts) == line + parts,
        with_link(line, x, area, None, text, style, clickable) == line.push(run(text, style)),
{
    lemma_restyled_prints(parts);
    lemma_prints_both(line, parts);
    lemma_prints_both(line, hovered_line(parts));
    let l = with_link(line, x, area, mouse, text, style, clickable);
    assert(l.drop_last() =~= line);
}

/// A control under the pointer is lit, and none is that is not; one that is not
/// there to be pressed never is.
pub proof fn a_control_lights_under_the_pointer(
    line: Seq<Run>,
    x: u16,
    area: Rect,
    at: Position,
    text: Seq<char>,
    style: Style,
    clickable: bool,
)
    ensures
        ({
            let l = with_link(line, x, area, Some(at), text, style, clickable);
            &&& link_rect(x, area, text, clickable).contains(at) ==> l.last().style.bg == Some(
                theme::DIM,
            )
            &&& !link_rect(x, area, text, clickable).contains(at) ==> l.last().style == style
        }),
{
}

/// The groups of a right-hand row printed in order, a space between two of them.
pub open spec fn spaced_out(groups: Seq<Seq<Run>>, n: nat) -> Seq<char>
    decreases n,
{
    if n == 0 {
        Seq::empty()
    } else {
        spaced_out(groups, (n - 1) as nat) + printed(groups[n - 1]) + (if n < groups.len() {
            seq![' ']
        } else {
            Seq::empty()
        })
    }
}

proof fn lemma_laid_prints(
    groups: Seq<Seq<Run>>,
    n: nat,
    start: u16,
    row: Rect,
    mouse: Option<Position>,
)
    requires
        n <= groups.len(),
    ensures
        printed(laid(groups, n, start, row, mouse).line) == spaced_out(groups, n),
        laid(groups, n, start, row, mouse).rects.len() == n,
    decreases n,
{
    reveal_strlit(" ");
    assert(" "@ =~= seq![' ']);
    if n > 0 {
        lemma_laid_prints(groups, (n - 1) as nat, start, row, mouse);
        let b = laid(groups, (n - 1) as nat, start, row, mouse);
        let g = groups[n - 1];
        light_changes_no_text(b.line, b.x, row, mouse, g, Seq::empty(), Style::plain(), false);
        let line = with_segment(b.line, b.x, row, mouse, g);
        if n < groups.len() {
            let l = line.push(run(" "@, Style::plain()));
            assert(l.drop_last() =~= line);
        } else {
            assert(printed(line) + Seq::<char>::empty() =~= printed(line));
        }
    }
}

/// A right-hand row that has the room prints its groups in order, a space
/// between two of them; one that has not prints nothing and answers nowhere.
pub proof fn a_right_row_prints_its_groups(
    c: Canvas,
    row: Rect,
    mouse: Option<Position>,
    groups: Seq<Seq<Run>>,
)
    ensures
        right_rects(row, mouse, groups).len() == groups.len(),
        groups_w(groups) <= row.width ==> {
            let d = right_drawn(c, row, mouse, groups);
            &&& d.len() == c.len() + 1
            &&& d.drop_last() == c
            &&& d.last() matches OpView::Text { area, place, line } && area.y == row.y && area.width
                == groups_w(groups) && area.right() == row.right() && place == Place::Left
                && printed(line) == spaced_out(groups, groups.len())
        },
        groups_w(groups) > row.width ==> {
            &&& right_drawn(c, row, mouse, groups) == c
            &&& forall|i: int|
                0 <= i < groups.len() ==> (#[trigger] right_rects(row, mouse, groups)[i]).is_empty()
        },
{
    let start = (row.right() - groups_w(groups)) as u16;
    lemma_laid_prints(groups, groups.len(), start, row, mouse);
    let d = right_drawn(c, row, mouse, groups);
    if groups_w(groups) <= row.width {
        assert(d.drop_last() =~= c);
    }
}

/// The volume reads as the number it is, and its knob stands as far along its
/// track as the number says.
#[verifier::rlimit(60)]
pub proof fn the_volume_reads_as_it_is(row: Rect, percent: u8, pen: Pen)
    ensures
        ({
            let t = percent_text(percent);
            let n = t.len() - 1;
            &&& t.len() == 5
            &&& t[0] == ' '
            &&& t[4] == '%'
            &&& exists|k: int|
                {
                    &&& 1 <= k <= 3
                    &&& #[trigger] digits_alone(t.subrange(k, 4))
                    &&& number_in(t.subrange(k, 4)) == percent
                    &&& forall|i: int| 0 <= i < k ==> t[i] == ' '
                }
        }),
        ({
            let at = knob_at(percent, VOL_TRACK_W) as nat;
            printed(volume_runs(row, percent, pen)) == "vol "@ + copies('━', at) + seq!['●'] + copies(
                '─',
                (15 - at) as nat,
            ) + percent_text(percent)
        }),
{
    reveal_strlit(" ");
    reveal_strlit("%");
    reveal_strlit("●");
    reveal_strlit("vol ");
    let d = decimal(percent as nat);
    a_number_reads_back(percent as nat);
    reveal_with_fuel(decimal, 4);
    assert(1 <= d.len() <= 3);
    let t = percent_text(percent);
    let k = 4 - d.len();
    assert(t.subrange(k, 4) =~= d);
    assert(digits_alone(t.subrange(k, 4)));
    the_knob_stays_on_its_slider(percent, percent, VOL_TRACK_W);
    let at = knob_at(percent, VOL_TRACK_W);
    let hover = volume_hover(row, percent, pen.mouse);
    let s = slider_runs(at, VOL_TRACK_W, hover, pen.accent);
    let r = volume_runs(row, percent, pen);
    assert("●"@ =~= seq!['●']);
    assert(r.len() == 5);
    lemma_prints_first(r, 5);
    lemma_prints_first(r, 4);
    lemma_prints_first(r, 3);
    lemma_prints_first(r, 2);
    lemma_prints_first(r, 1);
    assert(printed(r.take(0)) =~= Seq::<char>::empty());
    assert(r.take(5) =~= r);
    assert(printed(r) =~= "vol "@ + copies('━', at as nat) + seq!['●'] + copies(
        '─',
        (15 - at) as nat,
    ) + percent_text(percent));
}

pub proof fn lemma_prints_first(r: Seq<Run>, n: int)
    requires
        0 < n <= r.len(),
    ensures
        printed(r.take(n)) == printed(r.take(n - 1)) + r[n - 1].text,
{
    assert(r.take(n).drop_last() =~= r.take(n - 1));
}

/// The knob stands as near as a cell can to its share of the track.
pub proof fn the_knob_stands_at_its_share(percent: u8, width: u16)
    requires
        width > 0,
        percent <= 100,
    ensures
        ({
            let at = 100 * knob_at(percent, width);
            let share = percent * (width - 1);
            at - share <= 50 && share - at < 50 + 1
        }),
{
    assert(percent * (width - 1) <= 100 * 0xFFFF) by (nonlinear_arith)
        requires
            percent <= 100,
            0 < width <= 0xFFFF,
    ;
}

/// A track that is filled to a cell is drawn filled so far and no further.
pub proof fn a_track_is_filled_so_far(filled: u16, half: bool, width: u16, accent: u32)
    requires
        filled + (if half {
            1int
        } else {
            0
        }) <= width,
    ensures
        ({
            let t = printed(meter_runs(filled, half, width, accent));
            &&& t.len() == width
            &&& forall|i: int| 0 <= i < filled ==> #[trigger] t[i] == '━'
            &&& half ==> t[filled as int] == '╸'
            &&& forall|i: int|
                filled + (if half {
                    1int
                } else {
                    0
                }) <= i < width ==> #[trigger] t[i] == '─'
        }),
{
    reveal_strlit("╸");
    reveal_strlit("");
    let r = meter_runs(filled, half, width, accent);
    lemma_prints_first(r, 3);
    lemma_prints_first(r, 2);
    lemma_prints_first(r, 1);
    assert(printed(r.take(0)) =~= Seq::<char>::empty());
    assert(r.take(3) =~= r);
}

/// The pill says what a click does or what the deck is doing, and is not there
/// while the sound has been asked for and not heard.
pub proof fn the_pill_says_what_it_does(play: PlayState, wear: Wear, accent: u32)
    ensures
        state_runs(play, wear, accent) is None <==> play == PlayState::Loading,
        state_runs(play, wear, accent) matches Some(r) ==> printed(r) == (match (wear, play) {
            (Wear::Acts, PlayState::Playing) => "■ pause"@,
            (Wear::Acts, _) => "▶ play "@,
            (Wear::Reports, PlayState::Playing) => " ● playing"@,
            (Wear::Reports, _) => " ■ paused "@,
        }),
        state_runs(PlayState::Playing, wear, accent) matches Some(r) ==> r[0].style
            == theme::accent(accent),
{
    reveal_strlit("■");
    reveal_strlit("▶");
    reveal_strlit(" ●");
    reveal_strlit(" ■");
    reveal_strlit(" pause");
    reveal_strlit(" play ");
    reveal_strlit(" playing");
    reveal_strlit(" paused ");
    reveal_strlit("■ pause");
    reveal_strlit("▶ play ");
    reveal_strlit(" ● playing");
    reveal_strlit(" ■ paused ");
    if let Some(r) = state_runs(play, wear, accent) {
        lemma_prints_first(r, 2);
        lemma_prints_first(r, 1);
        assert(printed(r.take(0)) =~= Seq::<char>::empty());
        assert(r.take(2) =~= r);
        let t = match (wear, play) {
            (Wear::Acts, PlayState::Playing) => "■ pause"@,
            (Wear::Acts, _) => "▶ play "@,
            (Wear::Reports, PlayState::Playing) => " ● playing"@,
            (Wear::Reports, _) => " ■ paused "@,
        };
        assert(printed(r) =~= t);
    }
}

/// The mark is a note and the name.
pub proof fn the_mark_says_its_name(accent: u32)
    ensures
        printed(brand_runs(accent)) == "♫ spot"@,
{
    reveal_strlit("♫ ");
    reveal_strlit("spot");
    reveal_strlit("♫ spot");
    let r = brand_runs(accent);
    lemma_prints_first(r, 2);
    lemma_prints_first(r, 1);
    assert(printed(r.take(0)) =~= Seq::<char>::empty());
    assert(r.take(2) =~= r);
    assert(printed(r) =~= "♫ spot"@);
}

/// A name answers to the credit it is of, on the kind of row it is on.
pub proof fn a_name_answers_to_its_credit(
    c: Canvas,
    cell: Rect,
    runs: Seq<CreditRun>,
    n: nat,
    names: Names,
    i: int,
)
    requires
        n <= runs.len(),
    ensures
        ({
            let d = linked(c, cell, runs, n, names);
            &&& d.len() >= c.len()
            &&& d.take(c.len() as int) == c
            &&& c.len() <= i < d.len() ==> exists|k: int|
                {
                    &&& 0 <= k < n
                    &&& (#[trigger] runs[k]).credit.id is Some
                    &&& d[i] == OpView::Hit {
                        area: credit_rect(cell, &runs[k]),
                        target: match names {
                            Names::Now => Target::NowArtist(runs[k].credit),
                            Names::Header => Target::HeaderArtist(runs[k].credit),
                            Names::Track => Target::TrackArtist(runs[k].credit),
                            Names::Album => Target::AlbumArtist(runs[k].credit),
                        },
                    }
                }
        }),
    decreases n,
{
    let d = linked(c, cell, runs, n, names);
    if n == 0 {
        assert(c.take(c.len() as int) =~= c);
    } else {
        a_name_answers_to_its_credit(c, cell, runs, (n - 1) as nat, names, i);
        let b = linked(c, cell, runs, (n - 1) as nat, names);
        assert(d.take(c.len() as int) =~= b.take(c.len() as int));
    }
}

/// The cells of a name are those its letters are printed in: each run begins
/// where the names before it, with their commas, end.
#[verifier::rlimit(60)]
pub proof fn a_name_lies_on_its_letters(credits: Seq<Credit>, inked: usize)
    requires
        credits.len() > 0,
        cells(credit_names(credits)) <= inked <= 0xFFFF,
        forall|i: int| 0 <= i < credits.len() ==> cells((#[trigger] credits[i]).name@) > 0,
    ensures
        ({
            let runs = credit_runs(credits, 0, 0, inked);
            &&& runs.len() == credits.len()
            &&& forall|i: int|
                0 <= i < credits.len() ==> {
                    &&& (#[trigger] runs[i]).credit == credits[i]
                    &&& runs[i].width == cells(credits[i].name@)
                    &&& runs[i].dx + runs[i].width == cells(credit_names(credits.take(i + 1)))
                }
        }),
{
    lemma_runs_from(credits, 0, 0, inked);
    let runs = credit_runs(credits, 0, 0, inked);
    assert forall|i: int| 0 <= i < credits.len() implies {
        &&& (#[trigger] runs[i]).credit == credits[i]
        &&& runs[i].width == cells(credits[i].name@)
        &&& runs[i].dx + runs[i].width == cells(credit_names(credits.take(i + 1)))
    } by {
        assert(runs[i] == runs[i - 0]);
    }
}

proof fn lemma_names_cells(credits: Seq<Credit>, i: int)
    requires
        0 <= i < credits.len(),
    ensures
        i == 0 ==> cells(credit_names(credits.take(1))) == cells(credits[0].name@),
        i > 0 ==> cells(credit_names(credits.take(i + 1))) == cells(credit_names(credits.take(i)))
            + 2 + cells(credits[i].name@),
        cells(credit_names(credits.take(i + 1))) <= cells(credit_names(credits)),
        width_of(CREDIT_SEP@) == 2,
    decreases credits.len() - i,
{
    reveal_strlit(", ");
    a_narrow_text_takes_its_length(CREDIT_SEP@);
    let t = credits.take(i + 1);
    if i > 0 {
        assert(t.drop_last() =~= credits.take(i));
        lemma_cells_concat(credit_names(credits.take(i)) + CREDIT_SEP@, credits[i].name@);
        lemma_cells_concat(credit_names(credits.take(i)), CREDIT_SEP@);
    }
    if i + 1 < credits.len() {
        lemma_names_cells(credits, i + 1);
    } else {
        assert(t =~= credits);
    }
}

proof fn lemma_runs_from(credits: Seq<Credit>, i: int, dx: usize, inked: usize)
    requires
        0 <= i <= credits.len(),
        cells(credit_names(credits)) <= inked <= 0xFFFF,
        i == 0 ==> dx == 0,
        i > 0 ==> dx == cells(credit_names(credits.take(i))),
        forall|k: int| 0 <= k < credits.len() ==> cells((#[trigger] credits[k]).name@) > 0,
    ensures
        ({
            let runs = credit_runs(credits, i, dx, inked);
            &&& runs.len() == credits.len() - i
            &&& forall|k: int|
                i <= k < credits.len() ==> {
                    &&& (#[trigger] runs[k - i]).credit == credits[k]
                    &&& runs[k - i].width == cells(credits[k].name@)
                    &&& runs[k - i].dx + runs[k - i].width == cells(
                        credit_names(credits.take(k + 1)),
                    )
                }
        }),
    decreases credits.len() - i,
{
    if i < credits.len() {
        lemma_names_cells(credits, i);
        let at = if i > 0 {
            dx.saturating_add(width_of(CREDIT_SEP@))
        } else {
            dx
        };
        let name_w = width_of(credits[i].name@);
        lemma_runs_from(credits, i + 1, at.saturating_add(name_w), inked);
        let rest = credit_runs(credits, i + 1, at.saturating_add(name_w), inked);
        let runs = credit_runs(credits, i, dx, inked);
        assert(runs.len() == rest.len() + 1);
        assert forall|k: int| i <= k < credits.len() implies {
            &&& (#[trigger] runs[k - i]).credit == credits[k]
            &&& runs[k - i].width == cells(credits[k].name@)
            &&& runs[k - i].dx + runs[k - i].width == cells(credit_names(credits.take(k + 1)))
        } by {
            if k > i {
                assert(runs[k - i] == rest[k - (i + 1)]);
            }
        }
    }
}

pub proof fn lemma_prints_alone(line: Seq<Run>)
    requires
        line.len() == 1,
    ensures
        printed(line) == line[0].text,
{
    assert(line.drop_last() =~= Seq::<Run>::empty());
    assert(printed(line.drop_last()) =~= Seq::<char>::empty());
    assert(printed(line) =~= line[0].text);
}

pub proof fn lemma_same_texts_print(a: Seq<Run>, b: Seq<Run>)
    requires
        a.len() == b.len(),
        forall|i: int| 0 <= i < a.len() ==> (#[trigger] a[i]).text == b[i].text,
    ensures
        printed(a) == printed(b),
    decreases a.len(),
{
    if a.len() > 0 {
        assert(a.last().text == b.last().text);
        lemma_same_texts_print(a.drop_last(), b.drop_last());
    }
}

/// A list that holds more than it shows has a scrollbar, which knows how long it
/// is and where it stands.
pub proof fn a_scrollbar_tells_where_the_list_stands(
    c: Canvas,
    bar: Rect,
    len: usize,
    offset: usize,
)
    ensures
        bar.height > 0 && len > bar.height ==> barred(c, bar, len, offset) == c.push(
            OpView::Scrollbar { bar, len, offset },
        ),
        bar.height == 0 || len <= bar.height ==> barred(c, bar, len, offset) == c,
{
}

/// The name under the pointer is one that is there to be opened, and whose cells
/// hold the pointer; there is none only where no such name is.
pub proof fn the_name_under_the_pointer(
    cell: Rect,
    runs: Seq<CreditRun>,
    at: Position,
    from: int,
)
    requires
        0 <= from <= runs.len() <= usize::MAX,
    ensures
        run_under(cell, runs, at, from) matches Some(i) ==> {
            &&& from <= i < runs.len()
            &&& runs[i as int].credit.id is Some
            &&& credit_rect(cell, &runs[i as int]).contains(at)
        },
        run_under(cell, runs, at, from) is None ==> forall|i: int|
            from <= i < runs.len() && (#[trigger] runs[i]).credit.id is Some ==> !credit_rect(
                cell,
                &runs[i],
            ).contains(at),
        credit_under(cell, runs, None) is None,
    decreases runs.len() - from,
{
    if from < runs.len() && !(runs[from].credit.id is Some && credit_rect(
        cell,
        &runs[from],
    ).contains(at)) {
        the_name_under_the_pointer(cell, runs, at, from + 1);
    }
}

/// The cells of a control are those it is printed in: it starts where the row
/// has come to and is as wide as what it says.
pub proof fn a_control_answers_where_it_is_printed(
    x: u16,
    area: Rect,
    parts: Seq<Run>,
    text: Seq<char>,
)
    requires
        area.x <= x,
        area.x + area.width <= u16::MAX,
        area.height > 0,
        area.y < u16::MAX,
    ensures
        x + line_cells(parts) <= area.x + area.width ==> segment_rect(x, area, parts) == (Rect {
            x,
            y: area.y,
            width: line_cells(parts) as u16,
            height: 1,
        }),
        x + text_cells(text) <= area.x + area.width ==> link_rect(x, area, text, true) == (Rect {
            x,
            y: area.y,
            width: text_cells(text) as u16,
            height: 1,
        }),
{
}

/// The slider answers along its track, four cells in from the word before it.
#[verifier::rlimit(60)]
pub proof fn the_slider_answers_along_its_track(row: Rect, percent: u8, pen: Pen)
    requires
        row.width >= 30,
        row.x + row.width <= u16::MAX,
        row.height > 0,
        row.y < u16::MAX,
    ensures
        ({
            let seg = volume_rect(row, percent, pen);
            let t = volume_track(row, percent, pen);
            &&& seg.width == 25
            &&& seg.right() == row.right()
            &&& t.x == seg.x + 4
            &&& t.width == 16
            &&& t.y == row.y
        }),
{
    reveal_strlit("vol ");
    reveal_strlit(" ");
    reveal_strlit("%");
    reveal_strlit("●");
    a_narrow_text_takes_its_length("vol "@);
    the_volume_reads_as_it_is(row, percent, pen);
    the_knob_stays_on_its_slider(percent, percent, VOL_TRACK_W);
    let r = volume_runs(row, percent, pen);
    let at = knob_at(percent, VOL_TRACK_W);
    a_narrow_text_takes_its_length(copies('━', at as nat));
    a_narrow_text_takes_its_length("●"@);
    a_narrow_text_takes_its_length(copies('─', (15 - at) as nat));
    a_number_reads_back(percent as nat);
    reveal_with_fuel(decimal, 4);
    a_narrow_text_takes_its_length(percent_text(percent));
    assert(r.len() == 5);
    assert(line_cells(r.take(0)) == 0);
    lemma_cells_first(r, 1);
    lemma_cells_first(r, 2);
    lemma_cells_first(r, 3);
    lemma_cells_first(r, 4);
    lemma_cells_first(r, 5);
    assert(r.take(5) =~= r);
    assert(line_cells(r) == 25);
    let groups = volume_group(row, percent, pen);
    assert(groups_cells(groups, 0) == 0);
    assert(groups_cells(groups, 1) == 25);
    a_right_row_is_flush(row, pen.mouse, groups);
}

proof fn lemma_cells_first(r: Seq<Run>, n: int)
    requires
        0 < n <= r.len(),
    ensures
        line_cells(r.take(n)) == line_cells(r.take(n - 1)) + text_cells(r[n - 1].text),
{
    assert(r.take(n).drop_last() =~= r.take(n - 1));
}

/// A stand-in is picked by every letter of its seed, in order.
pub proof fn a_stand_in_is_picked_by_its_seed(bytes: Seq<u8>, b: u8)
    ensures
        fnv(Seq::empty(), 0) == 14695981039346656037u64,
        fnv(bytes.push(b), bytes.len() + 1) == (fnv(bytes, bytes.len()) ^ (b as u64)).wrapping_mul(
            1099511628211u64,
        ),
{
    lemma_fnv_alike(bytes, bytes.push(b), bytes.len());
}

proof fn lemma_fnv_alike(a: Seq<u8>, b: Seq<u8>, n: nat)
    requires
        n <= a.len(),
        n <= b.len(),
        forall|i: int| 0 <= i < n ==> #[trigger] a[i] == b[i],
    ensures
        fnv(a, n) == fnv(b, n),
    decreases n,
{
    if n > 0 {
        lemma_fnv_alike(a, b, (n - 1) as nat);
    }
}

/// A cell of a picture shows two of its points, the upper over the lower.
pub proof fn a_cell_shows_two_points(area: Rect, px: Seq<u32>, row: int, col: int)
    requires
        0 <= row < area.height,
        0 <= col < area.width,
        area.x + area.width <= u16::MAX,
        area.y + area.height <= u16::MAX,
    ensures
        ({
            let cell = art_cell(area, px, row, col);
            let w = area.width as int;
            &&& cell.at.x == area.x + col && cell.at.y == area.y + row
            &&& cell.fg == px[(2 * row) * w + col]
            &&& cell.bg == px[(2 * row + 1) * w + col]
            &&& !cell.note
        }),
{
}

/// What styles mean: a selected row is bright and bold, and a control under the
/// pointer stands on a ground of its own, with its ink kept unless it would be
/// lost on it.
pub proof fn light_is_seen(style: Style)
    ensures
        selection_style(style).bold && selection_style(style).fg == Some(theme::BRIGHT),
        hover_style(style).bg == Some(theme::DIM),
        hover_style(style).fg != Some(theme::DIM),
        style.fg != Some(theme::DIM) ==> hover_style(style).fg == style.fg,
        hover_style(style).bold == style.bold && hover_style(style).italic == style.italic,
{
}

} // verus!
