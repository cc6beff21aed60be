//! The add-to-playlist box: a search field over the playlists you can write to.

use vstd::prelude::*;
use vstd::string::*;

use crate::geometry::{max_usize, min_usize, over, Rect};
use crate::scene::{lines_of, put_hit, put_text, run, Canvas, Line, Op, OpView, Run, Scene, Target};
use crate::state::{Holds, Pen, PickerRow, PlaylistPicker};
use crate::table::{
    apply_selection, barred, centered, centered_rect, draw_scrollbar, lemma_prints_alone,
    lemma_prints_first, lemma_same_texts_print, printed, segment, segment_rect, selected_line,
    spinner, with_segment,
};
use crate::text::{
    a_narrow_text_takes_its_length, cells, fit, fitted, joined, text_cells, trim_end, trimmed,
};
use crate::theme;
use crate::theme::Style;

verus! {

pub const BOX_W: u16 = 44;

pub const QUERY_PROMPT: &'static str = "search playlists";

pub const NEW_PILL: &'static str = "+ new playlist";

/// Whether a row of the picker from `i` on, and before `end`, is still out.
pub open spec fn out_from(rows: Seq<PickerRow>, i: int, end: int) -> bool {
    exists|k: int| i <= k < end && 0 <= k < rows.len() && (#[trigger] rows[k]).has is None
}

/// Whether a row on screen has a mark that nothing has answered yet.
pub open spec fn awaits(p: PlaylistPicker) -> bool {
    out_from(p.rows@, p.offset as int, p.offset + p.most)
}

/// Whether a row on screen has a mark that nothing has answered yet.
pub fn unanswered(p: &PlaylistPicker) -> (r: bool)
    ensures
        r == awaits(*p),
{
    let mut i: usize = p.offset;
    let end: usize = p.offset.saturating_add(p.most as usize);
    while i < p.rows.len() && i < end
        invariant
            p.offset <= i,
            end == p.offset.saturating_add(p.most as usize),
            forall|k: int|
                p.offset <= k < i && k < p.rows@.len() ==> (#[trigger] p.rows@[k]).has is Some,
        decreases end - i,
    {
        if p.rows[i].has.is_none() {
            assert(p.rows@[i as int].has is None);
            return true;
        }
        i = i + 1;
    }
    false
}

/// What the box says under its rows: a refusal, else that it is waiting.
pub open spec fn picker_status(p: PlaylistPicker, pen: Pen) -> Option<Seq<Run>> {
    match p.error {
        Some(e) => Some(Seq::empty().push(run(" "@ + e@, theme::warn()))),
        None => if awaits(p) {
            Some(
                Seq::empty().push(
                    run(
                        " "@ + spinner(pen.elapsed_ms)@ + " checking…"@,
                        theme::dim().italic(),
                    ),
                ),
            )
        } else {
            None
        },
    }
}

fn status_line(p: &PlaylistPicker, pen: Pen) -> (r: Option<Line>)
    ensures
        r is Some == picker_status(*p, pen) is Some,
        r matches Some(line) ==> picker_status(*p, pen) == Some(line@),
{
    match &p.error {
        Some(e) => {
            let text = joined(" ", e.as_str());
            Some(Line::of(text, theme::warn()))
        },
        None => if unanswered(p) {
            let head = joined(" ", spinner(pen.elapsed_ms));
            let text = joined(head.as_str(), " checking…");
            Some(Line::of(text, theme::dim().italic()))
        } else {
            None
        },
    }
}

/// What a row shows: a change in flight before anything that is known.
#[verifier::allow_in_spec]
pub fn row_holds(pending: bool, has: Option<bool>) -> Holds
    returns
        (if pending {
            Holds::Working
        } else {
            match has {
                Some(true) => Holds::Yes,
                Some(false) => Holds::No,
                None => Holds::Unknown,
            }
        }),
{
    if pending {
        Holds::Working
    } else {
        match has {
            Some(true) => Holds::Yes,
            Some(false) => Holds::No,
            None => Holds::Unknown,
        }
    }
}

/// The mark at the head of a row, and its style.
pub open spec fn holds_mark(holds: Holds, accent: u32) -> (Seq<char>, Style) {
    match holds {
        Holds::Yes => ("✓"@, theme::accent(accent)),
        Holds::No => (" "@, theme::dim()),
        Holds::Unknown => ("·"@, theme::dim()),
        Holds::Working => ("…"@, theme::dim()),
    }
}

fn row_mark(holds: Holds, accent: u32) -> (r: (&'static str, Style))
    ensures
        (r.0@, r.1) == holds_mark(holds, accent),
{
    match holds {
        Holds::Yes => ("✓", theme::accent(accent)),
        Holds::No => (" ", theme::dim()),
        Holds::Unknown => ("·", theme::dim()),
        Holds::Working => ("…", theme::dim()),
    }
}

/// The mark is one cell in every state, so the names beside it line up and
/// nothing moves when a row turns.
pub proof fn every_mark_is_one_cell(holds: Holds, accent: u32)
    ensures
        cells(holds_mark(holds, accent).0) == 1,
        text_cells(holds_mark(holds, accent).0) == 1,
{
    reveal_strlit("✓");
    reveal_strlit(" ");
    reveal_strlit("·");
    reveal_strlit("…");
    a_narrow_text_takes_its_length(holds_mark(holds, accent).0);
}

/// One row of the box.
pub open spec fn picker_line(row: PickerRow, name_w: usize, selected: bool, accent: u32) -> Seq<
    Run,
> {
    let (mark, style) = holds_mark(row_holds(row.pending, row.has), accent);
    let line = Seq::<Run>::empty().push(run(" "@ + mark + " "@, style)).push(
        run(fitted(row.name@, name_w as nat), theme::text()),
    );
    if selected {
        selected_line(line)
    } else {
        line
    }
}

fn picker_row(row: &PickerRow, name_w: usize, selected: bool, accent: u32) -> (line: Line)
    ensures
        line@ == picker_line(*row, name_w, selected, accent),
{
    let (mark, style) = row_mark(row_holds(row.pending, row.has), accent);
    let head = joined(" ", mark);
    let mut line = Line::empty();
    line.put(joined(head.as_str(), " "), style);
    line.put(fit(row.name.as_str(), name_w), theme::text());
    if selected {
        apply_selection(&mut line);
    }
    line
}

/// How many rows of the box are on screen.
pub open spec fn picker_shown(p: PlaylistPicker, list: Rect) -> nat {
    let left = if p.rows@.len() > p.offset {
        (p.rows@.len() - p.offset) as nat
    } else {
        0
    };
    if left < list.height {
        left
    } else {
        list.height as nat
    }
}

/// The rows of the box that are on screen.
pub open spec fn picker_lines(p: PlaylistPicker, list: Rect, accent: u32) -> Seq<Seq<Run>> {
    Seq::new(
        picker_shown(p, list),
        |k: int|
            picker_line(
                p.rows@[p.offset + k],
                list.width.saturating_sub(3) as usize,
                p.offset + k == p.selected,
                accent,
            ),
    )
}

/// What an empty box says: that there is nothing, or nothing like that.
#[verifier::allow_in_spec]
pub fn nothing_said(blank: bool) -> &'static str
    returns
        (if blank {
            "no playlists of your own to add to"
        } else {
            "no match"
        }),
{
    if blank {
        "no playlists of your own to add to"
    } else {
        "no match"
    }
}

/// A row's text, one cell off the frame.
pub open spec fn indented_text(text: Seq<char>, list: Rect) -> Seq<char> {
    " "@ + fitted(text, list.width.saturating_sub(1) as nat)
}

fn indented(text: &str, list: Rect) -> (r: String)
    ensures
        r@ == indented_text(text@, list),
{
    let cell = fit(text, list.width.saturating_sub(1) as usize);
    joined(" ", cell.as_str())
}

/// The canvas with the rows of the box on it.
pub open spec fn picker_rows_drawn(c: Canvas, list: Rect, p: PlaylistPicker, pen: Pen) -> Canvas {
    if list.height == 0 || list.width == 0 {
        c
    } else if p.rows@.len() == 0 {
        put_text(
            c,
            list.tall(1),
            Seq::empty().push(
                run(
                    indented_text(nothing_said(trimmed(p.query@).len() == 0)@, list),
                    theme::dim(),
                ),
            ),
        )
    } else {
        let c = put_hit(
            c.push(OpView::Lines { area: list, lines: picker_lines(p, list, pen.accent) }),
            list,
            Target::PickerList,
        );
        barred(
            c,
            Rect { x: list.right(), y: list.y, width: 1, height: list.height },
            p.rows@.len() as usize,
            p.offset,
        )
    }
}

fn draw_rows(scene: &mut Scene, list: Rect, p: &PlaylistPicker, pen: Pen)
    ensures
        final(scene)@ == picker_rows_drawn(old(scene)@, list, *p, pen),
{
    if list.height == 0 || list.width == 0 {
        return;
    }
    let len: usize = p.rows.len();
    if len == 0 {
        let ink = trim_end(p.query.as_str());
        let said = nothing_said(ink.as_str().unicode_len() == 0);
        scene.text(list.tall(1), Line::of(indented(said, list), theme::dim()));
        return;
    }
    let name_w: usize = list.width.saturating_sub(3) as usize;
    let left: usize = len.saturating_sub(p.offset);
    let shown: usize = min_usize(left, list.height as usize);
    let ghost want = picker_lines(*p, list, pen.accent);
    let mut lines: Vec<Line> = Vec::new();
    let mut k: usize = 0;
    while k < shown
        invariant
            k <= shown,
            shown <= len - p.offset || shown == 0,
            len == p.rows@.len(),
            name_w == list.width.saturating_sub(3),
            shown == want.len(),
            want == picker_lines(*p, list, pen.accent),
            lines@.len() == k,
            forall|j: int| 0 <= j < k ==> (#[trigger] lines@[j])@ == want[j],
        decreases shown - k,
    {
        let row: usize = p.offset + k;
        lines.push(picker_row(&p.rows[row], name_w, row == p.selected, pen.accent));
        k = k + 1;
    }
    assert(lines_of(lines@) =~= want);
    scene.put(Op::Lines { area: list, lines });
    scene.hit(list, Target::PickerList);
    draw_scrollbar(
        scene,
        Rect { x: list.right(), y: list.y, width: 1, height: list.height },
        len,
        p.offset,
    );
}

/// The canvas with the query field on it.
pub open spec fn query_drawn(c: Canvas, field: Rect, query: Seq<char>, pen: Pen) -> Canvas {
    let ground = theme::field(over(pen.mouse, field));
    let (text, style) = if query.len() == 0 {
        (QUERY_PROMPT@, theme::dim())
    } else {
        (query + "▏"@, theme::warn())
    };
    put_text(
        c.push(OpView::Fill { area: field, style: ground }).push(
            OpView::Fill { area: field, style: ground },
        ),
        field,
        Seq::empty().push(run(" /  "@, theme::warn())).push(run(text, style)),
    )
}

fn draw_field(scene: &mut Scene, field: Rect, query: &String, pen: Pen)
    ensures
        final(scene)@ == query_drawn(old(scene)@, field, query@, pen),
{
    let ground = theme::field(over(pen.mouse, field));
    scene.put(Op::Fill { area: field, style: ground });
    let mut line = Line::empty();
    line.print(" /  ", theme::warn());
    if query.as_str().unicode_len() == 0 {
        line.print(QUERY_PROMPT, theme::dim());
    } else {
        line.put(joined(query.as_str(), "▏"), theme::warn());
    }
    scene.put(Op::Fill { area: field, style: ground });
    scene.text(field, line);
}

/// The canvas with the control that makes a new playlist on it.
pub open spec fn new_drawn(c: Canvas, controls: Rect, pen: Pen) -> Canvas {
    let parts = Seq::<Run>::empty().push(run(NEW_PILL@, theme::accent(pen.accent)));
    let x = controls.x.saturating_add(1);
    let line = with_segment(
        Seq::<Run>::empty().push(run(" "@, Style::plain())),
        x,
        controls,
        pen.mouse,
        parts,
    ).push(run("   ctrl+n"@, theme::dim()));
    put_text(put_hit(c, segment_rect(x, controls, parts), Target::PickerNew), controls, line)
}

fn draw_controls(scene: &mut Scene, controls: Rect, pen: Pen)
    ensures
        final(scene)@ == new_drawn(old(scene)@, controls, pen),
{
    let mut line = Line::empty();
    line.print(" ", Style::plain());
    let mut x: u16 = controls.x.saturating_add(1);
    let part = Line::of(NEW_PILL.to_owned(), theme::accent(pen.accent));
    let rect = segment(&mut line, &mut x, controls, pen.mouse, part);
    scene.hit(rect, Target::PickerNew);
    line.print("   ctrl+n", theme::dim());
    scene.text(controls, line);
}

/// The canvas with a titled frame over what was there.
pub open spec fn framed(c: Canvas, area: Rect, title: Seq<char>, accent: u32) -> Canvas {
    c.push(OpView::Clear { area }).push(
        OpView::Frame { area, title, style: theme::accent(accent) },
    )
}

/// A titled frame over what was there.
pub fn draw_frame(scene: &mut Scene, area: Rect, title: String, accent: u32)
    ensures
        final(scene)@ == framed(old(scene)@, area, title@, accent),
{
    scene.put(Op::Clear { area });
    scene.put(Op::Frame { area, title, style: theme::accent(accent) });
}

/// The inside of a frame.
#[verifier::allow_in_spec]
pub fn inside(area: Rect) -> Rect
    returns
        (Rect {
            x: area.x.saturating_add(1),
            y: area.y.saturating_add(1),
            width: area.width.saturating_sub(2),
            height: area.height.saturating_sub(2),
        }),
{
    Rect {
        x: area.x.saturating_add(1),
        y: area.y.saturating_add(1),
        width: area.width.saturating_sub(2),
        height: area.height.saturating_sub(2),
    }
}

/// The rows the box is tall: those it has to show, its field, its controls, its
/// status where it has one, and its frame.
pub open spec fn picker_h(p: PlaylistPicker, status: bool) -> u16 {
    let rows = min_usize(max_usize(p.rows@.len() as usize, 1), p.most as usize) as u16;
    rows.saturating_add(
        if status {
            5
        } else {
            4
        },
    )
}

/// Where the box is.
pub open spec fn picker_area(screen: Rect, p: PlaylistPicker, pen: Pen) -> Rect {
    centered_rect(screen, BOX_W, picker_h(p, picker_status(p, pen) is Some))
}

/// The canvas with the inside of the box on it.
pub open spec fn picker_body_drawn(c: Canvas, inner: Rect, p: PlaylistPicker, pen: Pen) -> Canvas {
    let status = picker_status(p, pen);
    let field = inner.tall(1);
    let c = put_hit(query_drawn(c, field, p.query@, pen), field, Target::PickerField);
    let extra = if status is Some {
        3u16
    } else {
        2u16
    };
    let list = inner.band(1, inner.height.saturating_sub(extra));
    let c = picker_rows_drawn(c, list, p, pen);
    let controls = Rect {
        x: inner.x,
        y: list.y.saturating_add(list.height),
        width: inner.width,
        height: 1,
    };
    let c = new_drawn(c, controls, pen);
    match status {
        Some(line) => put_text(c, controls.band(1, 1), line),
        None => c,
    }
}

/// The canvas with the box on it.
pub open spec fn picker_drawn(c: Canvas, screen: Rect, p: PlaylistPicker, pen: Pen) -> Canvas {
    let area = picker_area(screen, p, pen);
    let c = framed(c, area, " Add to playlist "@, pen.accent);
    if area.width < 3 || area.height < 3 {
        c
    } else {
        picker_body_drawn(c, inside(area), p, pen)
    }
}

/// The add-to-playlist box, in the middle of the screen.
pub fn draw(scene: &mut Scene, screen: Rect, p: &PlaylistPicker, pen: Pen)
    ensures
        final(scene)@ == picker_drawn(old(scene)@, screen, *p, pen),
{
    let status = status_line(p, pen);
    let rows: u16 = min_usize(max_usize(p.rows.len(), 1), p.most as usize) as u16;
    let height: u16 = rows.saturating_add(if status.is_some() { 5 } else { 4 });
    let area = centered(screen, BOX_W, height);
    draw_frame(scene, area, " Add to playlist ".to_owned(), pen.accent);
    if area.width < 3 || area.height < 3 {
        return;
    }
    let inner = inside(area);
    let field = inner.tall(1);
    draw_field(scene, field, &p.query, pen);
    scene.hit(field, Target::PickerField);
    let extra: u16 = if status.is_some() { 3 } else { 2 };
    let list = inner.band(1, inner.height.saturating_sub(extra));
    draw_rows(scene, list, p, pen);
    let controls = Rect {
        x: inner.x,
        y: list.y.saturating_add(list.height),
        width: inner.width,
        height: 1,
    };
    draw_controls(scene, controls, pen);
    match status {
        Some(line) => scene.text(controls.band(1, 1), line),
        None => {},
    }
}

/// A row of the box prints its mark and the name of its playlist, cut to the
/// room beside the mark.
pub proof fn a_row_prints_its_mark_and_name(
    row: PickerRow,
    name_w: usize,
    selected: bool,
    accent: u32,
)
    ensures
        ({
            let mark = if row.pending {
                '…'
            } else {
                match row.has {
                    Some(true) => '✓',
                    Some(false) => ' ',
                    None => '·',
                }
            };
            let line = picker_line(row, name_w, selected, accent);
            &&& printed(line) == seq![' ', mark, ' '] + fitted(row.name@, name_w as nat)
            &&& selected ==> line[1].style.bold && line[1].style.fg == Some(theme::BRIGHT)
            &&& !selected ==> line[1].style == theme::text()
        }),
{
    reveal_strlit(" ");
    reveal_strlit("✓");
    reveal_strlit("·");
    reveal_strlit("…");
    let (mark, style) = holds_mark(row_holds(row.pending, row.has), accent);
    let base = Seq::<Run>::empty().push(run(" "@ + mark + " "@, style)).push(
        run(fitted(row.name@, name_w as nat), theme::text()),
    );
    lemma_same_texts_print(base, picker_line(row, name_w, selected, accent));
    lemma_prints_first(base, 2);
    lemma_prints_first(base, 1);
    assert(printed(base.take(0)) =~= Seq::<char>::empty());
    assert(base.take(2) =~= base);
    let m = if row.pending {
        '…'
    } else {
        match row.has {
            Some(true) => '✓',
            Some(false) => ' ',
            None => '·',
        }
    };
    assert(base[0].text =~= seq![' ', m, ' ']);
    assert(printed(base) =~= seq![' ', m, ' '] + fitted(row.name@, name_w as nat));
}

/// The box shows its rows in order from the one it is scrolled to, as many as
/// there are and it has room for, with the selected one lit.
pub proof fn the_box_lists_its_rows_in_order(p: PlaylistPicker, list: Rect, accent: u32, k: int)
    requires
        0 <= k < picker_lines(p, list, accent).len(),
    ensures
        p.offset + k < p.rows@.len(),
        picker_lines(p, list, accent).len() <= list.height,
        picker_lines(p, list, accent).len() == list.height || p.offset + picker_lines(
            p,
            list,
            accent,
        ).len() == p.rows@.len(),
        picker_lines(p, list, accent)[k] == picker_line(
            p.rows@[p.offset + k],
            list.width.saturating_sub(3) as usize,
            p.selected == p.offset + k,
            accent,
        ),
{
}

/// The box says what was refused before that it is still asking, and says
/// neither where there is neither.
pub proof fn the_box_says_what_it_waits_for(p: PlaylistPicker, pen: Pen)
    ensures
        ({
            let waits = exists|k: int|
                p.offset <= k < p.offset + p.most && 0 <= k < p.rows@.len() && (#[trigger] p.rows@[k]).has
                    is None;
            &&& p.error matches Some(e) ==> (picker_status(p, pen) matches Some(line) && printed(line)
                == seq![' '] + e@)
            &&& p.error is None && waits ==> (picker_status(p, pen) matches Some(line) && printed(line)
                == seq![' '] + spinner(pen.elapsed_ms)@ + " checking…"@)
            &&& p.error is None && !waits ==> picker_status(p, pen) is None
        }),
{
    reveal_strlit(" ");
    assert(" "@ =~= seq![' ']);
    if let Some(line) = picker_status(p, pen) {
        lemma_prints_alone(line);
    }
}

/// The field shows the query with the caret behind it, or what it is for.
pub proof fn the_field_shows_the_query(c: Canvas, field: Rect, query: Seq<char>, pen: Pen)
    ensures
        query_drawn(c, field, query, pen).last() matches OpView::Text { area, place, line } && area
            == field && printed(line) == " /  "@ + (if query.len() == 0 {
            "search playlists"@
        } else {
            query + "▏"@
        }),
        nothing_said(true)@ == "no playlists of your own to add to"@,
        nothing_said(false)@ == "no match"@,
{
    let (text, style) = if query.len() == 0 {
        (QUERY_PROMPT@, theme::dim())
    } else {
        (query + "▏"@, theme::warn())
    };
    let line = Seq::<Run>::empty().push(run(" /  "@, theme::warn())).push(run(text, style));
    lemma_prints_first(line, 2);
    lemma_prints_first(line, 1);
    assert(printed(line.take(0)) =~= Seq::<char>::empty());
    assert(line.take(2) =~= line);
    assert(printed(line) =~= " /  "@ + text);
}

/// The box is as tall as it has rows to show, one at least, up to as many as it
/// shows at once.
pub proof fn the_box_is_as_tall_as_its_rows(p: PlaylistPicker, status: bool)
    requires
        p.most >= 1,
        p.most <= 1_000,
        p.rows@.len() <= usize::MAX,
    ensures
        ({
            let rows = picker_h(p, status) - (if status {
                5int
            } else {
                4
            });
            &&& 1 <= rows <= p.most
            &&& 0 < p.rows@.len() <= p.most ==> rows == p.rows@.len()
            &&& p.rows@.len() > p.most ==> rows == p.most
        }),
{
}

/// The inside of a box is all of it but its frame.
pub proof fn the_inside_is_all_but_the_frame(area: Rect)
    requires
        area.width >= 2,
        area.height >= 2,
        area.x + area.width <= u16::MAX,
        area.y + area.height <= u16::MAX,
    ensures
        inside(area).x == area.x + 1 && inside(area).width + 2 == area.width,
        inside(area).y == area.y + 1 && inside(area).height + 2 == area.height,
{
}

} // verus!
