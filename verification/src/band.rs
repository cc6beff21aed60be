//! The band a page carries above its rows: what the page is, and what can be
//! done with the whole of it.

use vstd::prelude::*;
use vstd::string::*;

use crate::geometry::{max16, min16, over, Position, Rect};
use crate::rows::one;
use crate::scene::{
    line_w, put_hit, put_text, run, Canvas, Line, OpView, Picture, Run, Scene, Strip, Target,
};
use crate::state::{credit_names, same_text, AppState, Credit, ListHeader, Pen, Track, TrackList};
use crate::table::{
    a_name_answers_to_its_credit, art_w, credit_ink, credit_line, credit_links, credit_row,
    credit_row_prints_its_cell, credit_runs, credit_spans, credit_under, draw_art,
    hovered_credit, lemma_prints_alone, light_changes_no_text, linked, pictured, printed,
    segment, segment_rect, with_segment, Names,
};
use crate::text::{
    a_number_reads_back, chars_of, clipped, dec, decimal, digits_alone, fit, fitted, joined,
    low16, low_half, number_in, text_cells, text_of, text_width, trim_end, trimmed, width,
    width_of,
};
use crate::theme;
use crate::theme::Style;

verus! {

/// The play control of a page or of a card on one.
pub const PLAY_PILL: &'static str = "▶ play";

/// The shuffle control beside it.
pub const SHUFFLE_PILL: &'static str = "▶ shuffle";

/// The control of a playlist that is kept, and of one that is not.
pub const SAVED_PILL: &'static str = "★ saved";

pub const SAVE_PILL: &'static str = "☆ save";

/// The control of a playlist you own.
pub const EDIT_PILL: &'static str = "edit";

/// The control that copies the link to the page.
pub const SHARE_PILL: &'static str = "⧉ share";

/// Rows a sleeve spans in a band. It is twice as many cells wide.
pub const ART_H: u16 = 10;

/// Cells between a sleeve and the text beside it.
pub const ART_GAP: u16 = 3;

/// The narrowest text worth keeping a sleeve for.
pub const MIN_META_W: u16 = 40;

/// Rows a band takes beside a sleeve: the sleeve, then a blank.
pub const ART_BAND_H: u16 = 11;

/// Rows the same band takes without one.
pub const STACK_BAND_H: u16 = 6;

/// Rows the compact band takes.
pub const TEXT_BAND_H: u16 = 3;

/// Rows the table below must still get for a band to be worth its height.
pub const MIN_TABLE_H: u16 = 6;

/// The pane a band is left out of below.
pub const MIN_BAND_PANE: u16 = 8;

/// What a page offers beyond playing itself.
#[derive(Debug, Clone, Copy, PartialEq, Eq, Structural)]
pub struct HeaderControls {
    /// The save control, and whether it reads as saved already. Not there on a
    /// page that is not a playlist, on one still being asked about, and on one
    /// you own.
    pub save: Option<bool>,
    /// The edit control, which only a playlist you own takes.
    pub edit: bool,
    /// The share control, on a page with a link to give.
    pub share: bool,
}

/// What the open page offers.
pub open spec fn controls_of(st: AppState) -> HeaderControls {
    match st.open_playlist {
        None => HeaderControls { save: None, edit: false, share: st.page_link },
        Some(id) => if st.owns_playlist {
            HeaderControls { save: None, edit: true, share: st.page_link }
        } else {
            HeaderControls {
                save: st.saved_playlists.of(id@),
                edit: false,
                share: st.page_link,
            }
        },
    }
}

/// What the open page offers beyond playing itself.
pub fn header_controls(st: &AppState) -> (r: HeaderControls)
    ensures
        r == controls_of(*st),
{
    let share: bool = st.page_link;
    match &st.open_playlist {
        None => HeaderControls { save: None, edit: false, share },
        Some(id) => if st.owns_playlist {
            HeaderControls { save: None, edit: true, share }
        } else {
            HeaderControls { save: st.saved_playlists.get(id), edit: false, share }
        },
    }
}

/// A playlist you own is edited and never offered to be saved, whatever is on
/// record of it.
pub proof fn an_owned_playlist_is_edited(st: AppState)
    ensures
        controls_of(st).edit ==> controls_of(st).save is None,
        controls_of(st).edit <==> st.owns_playlist && st.open_playlist is Some,
        controls_of(st).share == st.page_link,
{
}

/// A row with a control after it.
pub open spec fn with_control(
    s: Strip,
    area: Rect,
    mouse: Option<Position>,
    text: Seq<char>,
    style: Style,
    target: Target,
) -> Strip {
    let parts = one(text, style);
    Strip {
        line: with_segment(s.line, s.x, area, mouse, parts),
        x: s.x.saturating_add(line_w(parts)),
        canvas: put_hit(s.canvas, segment_rect(s.x, area, parts), target),
    }
}

/// A row with a blank after it.
pub open spec fn with_blank(s: Strip) -> Strip {
    Strip {
        line: s.line.push(run(" "@, Style::plain())),
        x: s.x.saturating_add(1),
        canvas: s.canvas,
    }
}

fn control(
    scene: &mut Scene,
    line: &mut Line,
    x: &mut u16,
    area: Rect,
    mouse: Option<Position>,
    text: &str,
    style: Style,
    target: Target,
)
    ensures
        (Strip { line: final(line)@, x: *final(x), canvas: final(scene)@ }) == with_control(
            (Strip { line: old(line)@, x: *old(x), canvas: old(scene)@ }),
            area,
            mouse,
            text@,
            style,
            target,
        ),
{
    let part = Line::of(text.to_owned(), style);
    let rect = segment(line, x, area, mouse, part);
    scene.hit(rect, target);
}

fn blank_cell(line: &mut Line, x: &mut u16)
    ensures
        final(line)@ == old(line)@.push(run(" "@, Style::plain())),
        *final(x) == old(x).saturating_add(1),
{
    line.print(" ", Style::plain());
    *x = x.saturating_add(1);
}

/// A row with a dim pill after those already on it.
pub open spec fn with_pill(
    s: Strip,
    area: Rect,
    mouse: Option<Position>,
    label: Seq<char>,
    target: Target,
) -> Strip {
    with_control(with_blank(s), area, mouse, label, theme::dim(), target)
}

/// Append a dim pill after the ones already laid down.
fn pill_segment(
    scene: &mut Scene,
    line: &mut Line,
    x: &mut u16,
    area: Rect,
    mouse: Option<Position>,
    label: &str,
    target: Target,
)
    ensures
        (Strip { line: final(line)@, x: *final(x), canvas: final(scene)@ }) == with_pill(
            (Strip { line: old(line)@, x: *old(x), canvas: old(scene)@ }),
            area,
            mouse,
            label@,
            target,
        ),
{
    blank_cell(line, x);
    control(scene, line, x, area, mouse, label, theme::dim(), target);
}

/// A row with the save control after it: in the accent once the playlist is
/// kept.
pub open spec fn with_save(s: Strip, area: Rect, saved: bool, pen: Pen) -> Strip {
    if saved {
        with_control(
            with_blank(s),
            area,
            pen.mouse,
            SAVED_PILL@,
            theme::accent(pen.accent),
            Target::HeaderSave,
        )
    } else {
        with_control(
            with_blank(s),
            area,
            pen.mouse,
            SAVE_PILL@,
            theme::dim(),
            Target::HeaderSave,
        )
    }
}

fn save_segment(
    scene: &mut Scene,
    line: &mut Line,
    x: &mut u16,
    area: Rect,
    saved: bool,
    pen: Pen,
)
    ensures
        (Strip { line: final(line)@, x: *final(x), canvas: final(scene)@ }) == with_save(
            (Strip { line: old(line)@, x: *old(x), canvas: old(scene)@ }),
            area,
            saved,
            pen,
        ),
{
    blank_cell(line, x);
    let (label, style) = if saved {
        (SAVED_PILL, theme::accent(pen.accent))
    } else {
        (SAVE_PILL, theme::dim())
    };
    control(scene, line, x, area, pen.mouse, label, style, Target::HeaderSave);
}

/// The style of the shuffle control at `x`: dim, and under the pointer in the
/// accent.
pub open spec fn shuffle_style(x: u16, area: Rect, pen: Pen) -> Style {
    let cells = Rect { x, y: area.y, width: low16(width_of(SHUFFLE_PILL@) as int), height: 1 };
    if over(pen.mouse, cells) && cells.right() <= area.right() {
        theme::accent(pen.accent)
    } else {
        theme::dim()
    }
}

/// A row with the shuffle control after it.
pub open spec fn with_shuffle(s: Strip, area: Rect, pen: Pen) -> Strip {
    let t = with_blank(s);
    with_control(
        t,
        area,
        pen.mouse,
        SHUFFLE_PILL@,
        shuffle_style(t.x, area, pen),
        Target::HeaderShuffle,
    )
}

fn shuffle_segment(scene: &mut Scene, line: &mut Line, x: &mut u16, area: Rect, pen: Pen)
    ensures
        (Strip { line: final(line)@, x: *final(x), canvas: final(scene)@ }) == with_shuffle(
            (Strip { line: old(line)@, x: *old(x), canvas: old(scene)@ }),
            area,
            pen,
        ),
{
    blank_cell(line, x);
    let cells = Rect { x: *x, y: area.y, width: low_half(width(SHUFFLE_PILL)), height: 1 };
    let hovered: bool = over(pen.mouse, cells) && cells.right() <= area.right();
    let style = if hovered { theme::accent(pen.accent) } else { theme::dim() };
    control(scene, line, x, area, pen.mouse, SHUFFLE_PILL, style, Target::HeaderShuffle);
}

/// The row of controls of a page.
pub open spec fn controls_row(c: Canvas, area: Rect, controls: HeaderControls, pen: Pen) -> Strip {
    let s = with_control(
        Strip { line: Seq::empty(), x: area.x, canvas: c },
        area,
        pen.mouse,
        PLAY_PILL@,
        theme::accent(pen.accent),
        Target::HeaderPlay,
    );
    let s = with_shuffle(s, area, pen);
    let s = if controls.share {
        with_pill(s, area, pen.mouse, SHARE_PILL@, Target::HeaderShare)
    } else {
        s
    };
    let s = match controls.save {
        Some(saved) => with_save(s, area, saved, pen),
        None => s,
    };
    if controls.edit {
        with_pill(s, area, pen.mouse, EDIT_PILL@, Target::HeaderEdit)
    } else {
        s
    }
}

/// The canvas with the controls of a page on their row.
pub open spec fn pills_drawn(
    c: Canvas,
    area: Rect,
    controls: HeaderControls,
    pen: Pen,
) -> Canvas {
    let s = controls_row(c, area, controls, pen);
    put_text(s.canvas, area, s.line)
}

/// Draw the controls of a page: play, shuffle, and whatever else it offers.
pub fn draw_controls(scene: &mut Scene, area: Rect, controls: HeaderControls, pen: Pen)
    ensures
        final(scene)@ == pills_drawn(old(scene)@, area, controls, pen),
{
    let mut line = Line::empty();
    let mut x: u16 = area.x;
    control(
        scene,
        &mut line,
        &mut x,
        area,
        pen.mouse,
        PLAY_PILL,
        theme::accent(pen.accent),
        Target::HeaderPlay,
    );
    shuffle_segment(scene, &mut line, &mut x, area, pen);
    if controls.share {
        pill_segment(scene, &mut line, &mut x, area, pen.mouse, SHARE_PILL, Target::HeaderShare);
    }
    match controls.save {
        Some(saved) => save_segment(scene, &mut line, &mut x, area, saved, pen),
        None => {},
    }
    if controls.edit {
        pill_segment(scene, &mut line, &mut x, area, pen.mouse, EDIT_PILL, Target::HeaderEdit);
    }
    scene.text(area, line);
}

/// Whether a track page's band has room for a sleeve.
#[verifier::allow_in_spec]
pub fn holds_art(inner: Rect) -> bool
    returns
        inner.height >= 16 && inner.width >= 63,
{
    inner.height >= ART_H + MIN_TABLE_H && inner.width >= art_w(ART_H) + ART_GAP + MIN_META_W
}

/// Where a band's picture goes.
#[verifier::allow_in_spec]
pub fn art_area(inner: Rect) -> Rect
    returns
        inner.wide(20).tall(10),
{
    inner.wide(art_w(ART_H)).tall(ART_H)
}

/// Where a band's text goes: beside the picture, where there is one.
#[verifier::allow_in_spec]
pub fn text_area(inner: Rect, art: bool) -> Rect
    returns
        (if art {
            inner.strip(23, inner.width.saturating_sub(23))
        } else {
            inner
        }),
{
    if art {
        let over: u16 = art_w(ART_H) + ART_GAP;
        inner.strip(over, inner.width.saturating_sub(over))
    } else {
        inner
    }
}

/// A length of hours and minutes.
pub open spec fn total_text(ms: u64) -> Seq<char> {
    let mins = (ms / 60_000) as nat;
    if mins >= 60 {
        decimal(mins / 60) + " hr "@ + decimal(mins % 60) + " min"@
    } else {
        decimal(mins) + " min"@
    }
}

/// "2 hr 15 min", or "45 min" below an hour.
pub fn format_total_duration(ms: u64) -> (r: String)
    ensures
        r@ == total_text(ms),
{
    let mins: u64 = ms / 60_000;
    let rest = dec(mins % 60);
    if mins >= 60 {
        let hours = dec(mins / 60);
        let head = joined(hours.as_str(), " hr ");
        let both = joined(head.as_str(), rest.as_str());
        joined(both.as_str(), " min")
    } else {
        joined(rest.as_str(), " min")
    }
}

/// The playing time of the first `n` tracks, held to a machine word.
pub open spec fn total_ms(items: Seq<Track>, n: nat) -> u64
    decreases n,
{
    if n == 0 {
        0
    } else {
        total_ms(items, (n - 1) as nat).saturating_add(items[n - 1].duration_ms)
    }
}

fn sum_ms(items: &Vec<Track>) -> (ms: u64)
    ensures
        ms == total_ms(items@, items@.len()),
{
    let mut ms: u64 = 0;
    let mut i: usize = 0;
    while i < items.len()
        invariant
            i <= items@.len(),
            ms == total_ms(items@, i as nat),
        decreases items@.len() - i,
    {
        ms = ms.saturating_add(items[i].duration_ms);
        i = i + 1;
    }
    ms
}

/// What a track page says of how much it holds: so far, while it is coming in.
pub open spec fn totals_text(list: TrackList, loading: bool) -> Seq<char> {
    let count = decimal(list.rows.items@.len());
    let dur = total_text(total_ms(list.rows.items@, list.rows.items@.len()));
    if loading {
        match list.total {
            Some(total) => count + " of "@ + decimal(total as nat) + " tracks · "@ + dur,
            None => count + " tracks · "@ + dur + "+"@,
        }
    } else {
        count + " tracks · "@ + dur
    }
}

fn totals(list: &TrackList, loading: bool) -> (r: String)
    ensures
        r@ == totals_text(*list, loading),
{
    let count = dec(list.rows.items.len() as u64);
    let dur = format_total_duration(sum_ms(&list.rows.items));
    if loading {
        if let Some(total) = list.total {
            let n = dec(total as u64);
            let head = joined(count.as_str(), " of ");
            let head = joined(head.as_str(), n.as_str());
            let head = joined(head.as_str(), " tracks · ");
            return joined(head.as_str(), dur.as_str());
        }
    }
    let head = joined(count.as_str(), " tracks · ");
    let all = joined(head.as_str(), dur.as_str());
    if loading {
        joined(all.as_str(), "+")
    } else {
        all
    }
}

/// Whether a page wears the stacked band: always beside a sleeve, and without
/// one wherever the pane can seat it and a table under it.
#[verifier::allow_in_spec]
pub fn stacks(inner: Rect, art: bool, blurb: bool) -> bool
    returns
        art || inner.height >= (if blurb {
            13u16
        } else {
            12u16
        }),
{
    art || inner.height >= STACK_BAND_H + MIN_TABLE_H + (if blurb {
        1
    } else {
        0
    })
}

/// What is left of a subtitle behind the names it starts with.
pub open spec fn after_names(subtitle: Seq<char>, names: Seq<char>) -> Seq<char> {
    if names.is_prefix_of(subtitle) {
        subtitle.skip(names.len() as int)
    } else {
        Seq::empty()
    }
}

fn rest_after(subtitle: &str, names: &str) -> (r: String)
    ensures
        r@ == after_names(subtitle@, names@),
{
    let s = chars_of(subtitle);
    let n = chars_of(names);
    let mut i: usize = 0;
    while i < n.len()
        invariant
            i <= n@.len(),
            i <= s@.len(),
            s@ == subtitle@,
            n@ == names@,
            forall|j: int| 0 <= j < i ==> s@[j] == n@[j],
        decreases n@.len() - i,
    {
        if i >= s.len() || s[i] != n[i] {
            return String::new();
        }
        i = i + 1;
    }
    assert(names@ =~= subtitle@.take(names@.len() as int));
    let r = text_of(&s, i, s.len());
    assert(r@ =~= subtitle@.skip(names@.len() as int));
    r
}

/// The names a subtitle starts with, as they are printed on `row`.
pub open spec fn subtitle_names(credits: Seq<Credit>, row: Rect) -> Seq<char> {
    trimmed(fitted(credit_names(credits), row.width as nat))
}

/// Where those names are.
pub open spec fn names_area(credits: Seq<Credit>, row: Rect) -> Rect {
    row.wide(low16(width_of(subtitle_names(credits, row)) as int)).tall(1).intersection(row)
}

/// The subtitle row of a band: the credited artists, then whatever else the
/// subtitle says of the record. A page with nobody credited prints it whole.
pub open spec fn subtitle_runs(
    header: ListHeader,
    row: Rect,
    style: Style,
    mouse: Option<Position>,
) -> Seq<Run> {
    let subtitle = trimmed(fitted(header.subtitle@, row.width as nat));
    if header.credits@.len() == 0 {
        one(subtitle, style)
    } else {
        let names = subtitle_names(header.credits@, row);
        let runs = credit_runs(
            header.credits@,
            0,
            0,
            credit_ink(header.credits@, row.width as usize),
        );
        let line = credit_row(
            names,
            runs,
            style,
            credit_under(names_area(header.credits@, row), runs, mouse),
        );
        let rest = after_names(subtitle, names);
        if rest.len() > 0 {
            line.push(run(rest, theme::dim()))
        } else {
            line
        }
    }
}

/// The canvas with the names of a subtitle recorded as links.
pub open spec fn subtitle_linked(c: Canvas, header: ListHeader, row: Rect) -> Canvas {
    if header.credits@.len() == 0 {
        c
    } else {
        let runs = credit_runs(
            header.credits@,
            0,
            0,
            credit_ink(header.credits@, row.width as usize),
        );
        linked(c, names_area(header.credits@, row), runs, runs.len(), Names::Header)
    }
}

/// The subtitle of a band, its credited artists recorded as links.
pub fn subtitle_spans(
    scene: &mut Scene,
    header: &ListHeader,
    row: Rect,
    style: Style,
    mouse: Option<Position>,
) -> (line: Line)
    ensures
        line@ == subtitle_runs(*header, row, style, mouse),
        final(scene)@ == subtitle_linked(old(scene)@, *header, row),
{
    let subtitle = clipped(header.subtitle.as_str(), row.width as usize);
    if header.credits.len() == 0 {
        return Line::of(subtitle, style);
    }
    let (cell, runs) = credit_line(&header.credits, row.width as usize);
    let cell = trim_end(cell.as_str());
    let names = row.wide(low_half(width(cell.as_str()))).tall(1).intersection(row);
    let hovered = hovered_credit(names, &runs, mouse);
    let mut line = credit_spans(cell.as_str(), &runs, style, hovered);
    credit_links(names, &runs, Names::Header, scene);
    let rest = rest_after(subtitle.as_str(), cell.as_str());
    if rest.as_str().unicode_len() > 0 {
        line.put(rest, theme::dim());
    }
    line
}

/// The name row of a band, and whatever shares it.
pub open spec fn name_runs(name: Seq<char>, also: Option<Seq<char>>) -> Seq<Run> {
    let line = one(name, theme::bright().bold());
    match also {
        Some(text) => line.push(run("  "@ + text, theme::text())),
        None => line,
    }
}

pub fn name_spans(name: &String, also: Option<&str>) -> (line: Line)
    ensures
        line@ == name_runs(
            name@,
            match also {
                Some(text) => Some(text@),
                None => None,
            },
        ),
{
    let mut line = Line::of(name.clone(), theme::bright().bold());
    if let Some(text) = also {
        line.put(joined("  ", text), theme::text());
    }
    line
}

/// The cells a note takes at the far end of a band's first row: none on a
/// stacked band, where it has a row of its own.
pub open spec fn note_w(note: Seq<char>, text: Rect, stacked: bool) -> u16 {
    if stacked {
        0
    } else {
        min16(low16(text_cells(note) as int), text.width)
    }
}

/// Where the name of a band goes, beside a note of `w` cells.
#[verifier::allow_in_spec]
pub fn name_area(text: Rect, w: u16) -> Rect
    returns
        text.tall(1).wide(text.width.saturating_sub(w.saturating_add(1))),
{
    text.tall(1).wide(text.width.saturating_sub(w.saturating_add(1)))
}

/// Where a note of `w` cells goes at the far end of a band's first row.
#[verifier::allow_in_spec]
pub fn note_area(text: Rect, w: u16) -> Rect
    returns
        (Rect { x: text.right().saturating_sub(w), y: text.y, width: w, height: 1 }),
{
    Rect { x: text.right().saturating_sub(w), y: text.y, width: w, height: 1 }
}

pub fn note_width(note: &String, text: Rect, stacked: bool) -> (w: u16)
    ensures
        w == note_w(note@, text, stacked),
{
    if stacked {
        0
    } else {
        min16(low_half(text_width(note.as_str())), text.width)
    }
}

/// The rows a band's metadata has taken, top row first.
pub open spec fn subtitle_row(header: ListHeader, stacked: bool) -> u16 {
    if stacked && header.subtitle@.len() > 0 {
        2
    } else {
        1
    }
}

pub open spec fn blurb_row(header: ListHeader, stacked: bool) -> u16 {
    if stacked && header.description@.len() > 0 {
        (subtitle_row(header, stacked) + 1) as u16
    } else {
        subtitle_row(header, stacked)
    }
}

/// The row a band's controls go on. Beside a sleeve they stay inside its rows.
pub open spec fn controls_at(header: ListHeader, stacked: bool) -> u16 {
    if stacked {
        min16((blurb_row(header, stacked) + 2) as u16, 9)
    } else {
        1
    }
}

/// The rows a band takes: never fewer than its sleeve.
pub open spec fn band_rows(header: ListHeader, art: bool, stacked: bool) -> u16 {
    max16((controls_at(header, stacked) + 2) as u16, if art {
        11
    } else {
        0
    })
}

/// Whether a track page has a sleeve and room for it.
pub open spec fn wears_sleeve(inner: Rect, header: ListHeader) -> bool {
    header.cover_url is Some && holds_art(inner)
}

/// Whether a track page wears the stacked band.
pub open spec fn stacked_in(inner: Rect, header: ListHeader) -> bool {
    stacks(inner, wears_sleeve(inner, header), header.description@.len() > 0)
}

/// What a band leaves for the table below it.
pub open spec fn below_band(inner: Rect, header: ListHeader) -> Rect {
    if inner.height < 8 {
        inner
    } else {
        let used = band_rows(header, wears_sleeve(inner, header), stacked_in(inner, header));
        inner.band(used, inner.height.saturating_sub(used))
    }
}

/// The sleeve of a page: its own once that has arrived, and a stand-in until
/// then. The sleeve of another page is never hung on this one.
pub open spec fn band_picture(header: ListHeader, cover: Option<String>) -> Picture {
    match (header.cover_url, cover) {
        (Some(want), Some(got)) if want@ == got@ => Picture::View,
        _ => Picture::Placeholder,
    }
}

/// The canvas with the lines of a band on it, above its controls.
pub open spec fn metadata_drawn(
    c: Canvas,
    text: Rect,
    list: TrackList,
    loading: bool,
    stacked: bool,
    mouse: Option<Position>,
) -> Canvas {
    let header = list.header;
    let note = totals_text(list, loading);
    let w = note_w(note, text, stacked);
    let also = if header.subtitle@.len() > 0 && !stacked {
        Some(header.subtitle@)
    } else {
        None
    };
    let c = put_text(c, name_area(text, w), name_runs(header.name@, also));
    let c = if stacked && header.subtitle@.len() > 0 {
        let row = text.band(1, 1);
        put_text(
            subtitle_linked(c, header, row),
            row,
            subtitle_runs(header, row, theme::text(), mouse),
        )
    } else {
        c
    };
    let c = if stacked && header.description@.len() > 0 {
        put_text(
            c,
            text.band(subtitle_row(header, stacked), 1),
            one(fitted(header.description@, text.width as nat), theme::dim()),
        )
    } else {
        c
    };
    put_text(
        c,
        if stacked {
            text.band(blurb_row(header, stacked), 1)
        } else {
            note_area(text, w)
        },
        one(note, theme::dim()),
    )
}

/// The canvas with the band of a track page on it.
pub open spec fn band_drawn(
    c: Canvas,
    inner: Rect,
    list: TrackList,
    cover: Option<String>,
    loading: bool,
    controls: HeaderControls,
    pen: Pen,
) -> Canvas {
    if inner.height < 8 {
        c
    } else {
        let art = wears_sleeve(inner, list.header);
        let stacked = stacked_in(inner, list.header);
        let text = text_area(inner, art);
        let c = if art {
            let area = art_area(inner);
            pictured(c, area, area, band_picture(list.header, cover), list.header.name@)
        } else {
            c
        };
        pills_drawn(
            metadata_drawn(c, text, list, loading, stacked, pen.mouse),
            text.band(controls_at(list.header, stacked), 1),
            controls,
            pen,
        )
    }
}

/// Draw the lines of a band above its controls, and say which row is next.
fn draw_metadata(
    scene: &mut Scene,
    text: Rect,
    list: &TrackList,
    loading: bool,
    stacked: bool,
    mouse: Option<Position>,
) -> (n: u16)
    ensures
        final(scene)@ == metadata_drawn(old(scene)@, text, *list, loading, stacked, mouse),
        n == (if stacked {
            blurb_row(list.header, stacked) + 1
        } else {
            1
        }),
{
    let header = &list.header;
    let note = totals(list, loading);
    let w: u16 = note_width(&note, text, stacked);
    let titled: bool = header.subtitle.as_str().unicode_len() > 0;
    let also = if titled && !stacked { Some(header.subtitle.as_str()) } else { None };
    scene.text(name_area(text, w), name_spans(&header.name, also));
    if !stacked {
        scene.text(note_area(text, w), Line::of(note, theme::dim()));
        return 1;
    }
    let mut n: u16 = 1;
    if titled {
        let row = text.band(1, 1);
        let line = subtitle_spans(scene, header, row, theme::text(), mouse);
        scene.text(row, line);
        n = 2;
    }
    if header.description.as_str().unicode_len() > 0 {
        let blurb = fit(header.description.as_str(), text.width as usize);
        scene.text(text.band(n, 1), Line::of(blurb, theme::dim()));
        n = n + 1;
    }
    scene.text(text.band(n, 1), Line::of(note, theme::dim()));
    n + 1
}

/// The band above a track table: the record's own sleeve when it has one, then
/// what the page is, and a control to play the whole of it. Returns the area
/// left for the table.
///
/// Left out on short panes, and the sleeve is shed before the text is.
pub fn header_band(
    scene: &mut Scene,
    inner: Rect,
    list: &TrackList,
    cover: &Option<String>,
    loading: bool,
    controls: HeaderControls,
    pen: Pen,
) -> (r: Rect)
    ensures
        final(scene)@ == band_drawn(old(scene)@, inner, *list, *cover, loading, controls, pen),
        r == below_band(inner, list.header),
{
    if inner.height < MIN_BAND_PANE {
        return inner;
    }
    let header = &list.header;
    let art: bool = header.cover_url.is_some() && holds_art(inner);
    if art {
        let decoded: bool = match (&header.cover_url, cover) {
            (Some(want), Some(got)) => same_text(want, got),
            _ => false,
        };
        let picture = if decoded { Picture::View } else { Picture::Placeholder };
        draw_art(scene, art_area(inner), picture, header.name.clone());
    }
    let text = text_area(inner, art);
    let stacked: bool = stacks(inner, art, header.description.as_str().unicode_len() > 0);
    let n: u16 = draw_metadata(scene, text, list, loading, stacked, pen.mouse);
    let at: u16 = if stacked { min16(n + 1, ART_H - 1) } else { n };
    draw_controls(scene, text.band(at, 1), controls, pen);
    let used: u16 = max16(at + 2, if art { ART_BAND_H } else { 0 });
    inner.band(used, inner.height.saturating_sub(used))
}

/// A band never takes the whole of the pane it is in: the table below it keeps
/// at least three rows, five under a sleeve, and six under a stacked band
/// without one.
pub proof fn a_band_leaves_room(inner: Rect, header: ListHeader)
    requires
        inner.height >= 8,
    ensures
        below_band(inner, header).height >= 3,
        stacked_in(inner, header) ==> below_band(inner, header).height >= 5,
        stacked_in(inner, header) && !wears_sleeve(inner, header) ==> below_band(
            inner,
            header,
        ).height >= 6,
        below_band(inner, header).height < inner.height,
        below_band(inner, header).width == inner.width,
{
}

/// A sleeve moves none of the lines beside it: of two pages that say the same,
/// one with a sleeve and one without, every line and the controls are on the
/// same rows, and the text starts at the same height.
pub proof fn a_sleeve_moves_no_line(inner: Rect, a: ListHeader, b: ListHeader)
    requires
        a == (ListHeader { cover_url: a.cover_url, ..b }),
        stacked_in(inner, a),
        stacked_in(inner, b),
    ensures
        subtitle_row(a, true) == subtitle_row(b, true),
        blurb_row(a, true) == blurb_row(b, true),
        controls_at(a, true) == controls_at(b, true),
        text_area(inner, wears_sleeve(inner, a)).y == text_area(inner, wears_sleeve(inner, b)).y,
{
}

/// A sleeve is hung on a page only where it is that page's own.
pub proof fn a_page_wears_its_own_sleeve(header: ListHeader, cover: Option<String>)
    ensures
        band_picture(header, cover) == Picture::View ==> header.cover_url is Some && cover is Some
            && header.cover_url->0@ == cover->0@,
{
}

/// A track page keeps its sleeve at sixteen rows and sixty-three cells, and
/// sheds it below either.
pub proof fn a_sleeve_is_shed_below_its_room(inner: Rect, header: ListHeader)
    requires
        header.cover_url is Some,
    ensures
        wears_sleeve(inner, header) <==> inner.height >= 16 && inner.width >= 63,
{
}

/// A band sheds its picture before its text is squeezed.
pub proof fn a_bands_text_outlives_its_picture(inner: Rect, art: bool)
    requires
        art ==> holds_art(inner),
    ensures
        art ==> text_area(inner, art).width >= MIN_META_W,
        !art ==> text_area(inner, art) == inner,
{
}

/// The whole length of the first `n` tracks, however long.
spec fn length_of(items: Seq<Track>, n: nat) -> int
    decreases n,
{
    if n == 0 {
        0
    } else {
        length_of(items, (n - 1) as nat) + items[n - 1].duration_ms
    }
}

proof fn lemma_total_is_length(items: Seq<Track>, n: nat)
    requires
        n <= items.len(),
    ensures
        0 <= length_of(items, n),
        length_of(items, n) <= u64::MAX ==> total_ms(items, n) == length_of(items, n),
        length_of(items, n) > u64::MAX ==> total_ms(items, n) == u64::MAX,
    decreases n,
{
    if n > 0 {
        lemma_total_is_length(items, (n - 1) as nat);
    }
}

proof fn lemma_length_of_alike(a: Seq<Track>, b: Seq<Track>, n: nat)
    requires
        n <= a.len(),
        n <= b.len(),
        forall|i: int| 0 <= i < n ==> (#[trigger] a[i]).duration_ms == b[i].duration_ms,
    ensures
        length_of(a, n) == length_of(b, n),
    decreases n,
{
    if n > 0 {
        lemma_length_of_alike(a, b, (n - 1) as nat);
        assert(a[n - 1].duration_ms == b[n - 1].duration_ms);
    }
}

proof fn lemma_length_of_one_changed(items: Seq<Track>, i: int, t: Track, n: nat)
    requires
        0 <= i < n <= items.len(),
    ensures
        length_of(items.update(i, t), n) == length_of(items, n) - items[i].duration_ms
            + t.duration_ms,
    decreases n,
{
    let other = items.update(i, t);
    if i == n - 1 {
        lemma_length_of_alike(items, other, (n - 1) as nat);
    } else {
        lemma_length_of_one_changed(items, i, t, (n - 1) as nat);
    }
}

/// The playing time of a list is that of its tracks together: none for an empty
/// list, and for a list with a track behind it that track's own more.
pub proof fn a_track_adds_its_own_length(items: Seq<Track>, t: Track)
    ensures
        total_ms(Seq::<Track>::empty(), 0) == 0,
        total_ms(items, items.len()) + t.duration_ms <= u64::MAX ==> total_ms(
            items.push(t),
            items.len() + 1,
        ) == total_ms(items, items.len()) + t.duration_ms,
        total_ms(items, items.len()) + t.duration_ms > u64::MAX ==> total_ms(
            items.push(t),
            items.len() + 1,
        ) == u64::MAX,
{
    let longer = items.push(t);
    lemma_total_is_length(items, items.len());
    lemma_total_is_length(longer, longer.len());
    lemma_length_of_alike(items, longer, items.len());
}

/// And it is the same in any order: two tracks that change places change
/// nothing of it.
pub proof fn the_order_changes_no_length(items: Seq<Track>, i: int, j: int)
    requires
        0 <= i < items.len(),
        0 <= j < items.len(),
    ensures
        total_ms(items.update(i, items[j]).update(j, items[i]), items.len()) == total_ms(
            items,
            items.len(),
        ),
{
    let n = items.len();
    let once = items.update(i, items[j]);
    let swapped = once.update(j, items[i]);
    lemma_length_of_one_changed(items, i, items[j], n);
    lemma_length_of_one_changed(once, j, items[i], n);
    lemma_total_is_length(items, n);
    lemma_total_is_length(swapped, n);
}

/// A longer track makes a longer list, by as much.
pub proof fn every_track_counts(items: Seq<Track>, i: int, t: Track)
    requires
        0 <= i < items.len(),
        total_ms(items, items.len()) < u64::MAX,
        total_ms(items.update(i, t), items.len()) < u64::MAX,
    ensures
        total_ms(items.update(i, t), items.len()) - total_ms(items, items.len()) == t.duration_ms
            - items[i].duration_ms,
{
    lemma_length_of_one_changed(items, i, t, items.len());
    lemma_total_is_length(items, items.len());
    lemma_total_is_length(items.update(i, t), items.len());
}

/// A playing time reads as its whole minutes: hours and the minutes past them
/// from an hour on, and minutes alone below.
pub proof fn a_total_reads_as_its_minutes(ms: u64)
    ensures
        ms < 3_600_000 ==> exists|mins: Seq<char>|
            {
                &&& #[trigger] digits_alone(mins)
                &&& number_in(mins) == ms / 60_000
                &&& total_text(ms) == mins + " min"@
            },
        ms >= 3_600_000 ==> exists|hours: Seq<char>, mins: Seq<char>|
            {
                &&& #[trigger] digits_alone(hours)
                &&& #[trigger] digits_alone(mins)
                &&& number_in(mins) < 60
                &&& 60 * number_in(hours) + number_in(mins) == ms / 60_000
                &&& total_text(ms) == hours + " hr "@ + mins + " min"@
            },
{
    let mins = (ms / 60_000) as nat;
    a_number_reads_back(mins);
    a_number_reads_back(mins / 60);
    a_number_reads_back(mins % 60);
    if ms < 3_600_000 {
        assert(digits_alone(decimal(mins)));
    } else {
        let (h, m) = (decimal(mins / 60), decimal(mins % 60));
        assert(digits_alone(h) && digits_alone(m));
        assert(total_text(ms) == h + " hr "@ + m + " min"@);
    }
}

/// The totals of a page say how many tracks it has and how long they are; while
/// more are on their way, how many there will be, or that there are more.
pub proof fn totals_count_the_tracks(list: TrackList, loading: bool)
    ensures
        ({
            let n = list.rows.items@.len();
            let time = total_text(total_ms(list.rows.items@, n));
            let t = totals_text(list, loading);
            &&& !loading ==> t == decimal(n) + " tracks · "@ + time
            &&& loading && list.total is None ==> t == decimal(n) + " tracks · "@ + time + "+"@
            &&& loading ==> (list.total matches Some(all) ==> t == decimal(n) + " of "@ + decimal(
                all as nat,
            ) + " tracks · "@ + time)
        }),
{
}

/// The controls of a page, in order: play, shuffle, and then those the page
/// offers; each answers to what it says.
#[verifier::rlimit(60)]
pub proof fn a_page_offers_its_controls(c: Canvas, area: Rect, controls: HeaderControls, pen: Pen)
    ensures
        ({
            let s = controls_row(c, area, controls, pen);
            let none = Seq::<char>::empty();
            let share = if controls.share {
                " ⧉ share"@
            } else {
                none
            };
            let save = match controls.save {
                Some(true) => " ★ saved"@,
                Some(false) => " ☆ save"@,
                None => none,
            };
            let edit = if controls.edit {
                " edit"@
            } else {
                none
            };
            &&& printed(s.line) == "▶ play ▶ shuffle"@ + share + save + edit
            &&& s.canvas[c.len() as int] matches OpView::Hit { area: a, target } && target
                == Target::HeaderPlay
            &&& s.canvas[(c.len() + 1) as int] matches OpView::Hit { area: a, target } && target
                == Target::HeaderShuffle
            &&& controls.edit ==> (s.canvas.last() matches OpView::Hit { area: a, target } && target
                == Target::HeaderEdit)
            &&& !controls.edit && controls.save is Some ==> (s.canvas.last() matches OpView::Hit {
                area: a,
                target,
            } && target == Target::HeaderSave)
            &&& controls.share ==> (s.canvas[(c.len() + 2) as int] matches OpView::Hit {
                area: a,
                target,
            } && target == Target::HeaderShare)
            &&& s.canvas.len() == c.len() + 2 + (if controls.share {
                1int
            } else {
                0
            }) + (if controls.save is Some {
                1int
            } else {
                0
            }) + (if controls.edit {
                1int
            } else {
                0
            })
        }),
{
    reveal_strlit(" ");
    reveal_strlit("▶ play");
    reveal_strlit("▶ shuffle");
    reveal_strlit("▶ play ▶ shuffle");
    reveal_strlit("⧉ share");
    reveal_strlit(" ⧉ share");
    reveal_strlit("★ saved");
    reveal_strlit(" ★ saved");
    reveal_strlit("☆ save");
    reveal_strlit(" ☆ save");
    reveal_strlit("edit");
    reveal_strlit(" edit");
    let none = Seq::<char>::empty();
    let s0 = Strip { line: Seq::empty(), x: area.x, canvas: c };
    let play = theme::accent(pen.accent);
    lemma_control_prints(s0, area, pen.mouse, PLAY_PILL@, play, Target::HeaderPlay);
    let s1 = with_control(s0, area, pen.mouse, PLAY_PILL@, play, Target::HeaderPlay);
    assert(printed(s0.line) =~= none);
    let t = with_blank(s1);
    lemma_blank_prints(s1);
    let style = shuffle_style(t.x, area, pen);
    lemma_control_prints(t, area, pen.mouse, SHUFFLE_PILL@, style, Target::HeaderShuffle);
    let s2 = with_shuffle(s1, area, pen);
    assert(printed(s2.line) =~= "▶ play ▶ shuffle"@);
    lemma_blank_prints(s2);
    lemma_control_prints(
        with_blank(s2),
        area,
        pen.mouse,
        SHARE_PILL@,
        theme::dim(),
        Target::HeaderShare,
    );
    let s3 = if controls.share {
        with_pill(s2, area, pen.mouse, SHARE_PILL@, Target::HeaderShare)
    } else {
        s2
    };
    let share = if controls.share {
        " ⧉ share"@
    } else {
        none
    };
    assert(printed(s3.line) =~= "▶ play ▶ shuffle"@ + share);
    lemma_blank_prints(s3);
    lemma_control_prints(with_blank(s3), area, pen.mouse, SAVED_PILL@, play, Target::HeaderSave);
    lemma_control_prints(
        with_blank(s3),
        area,
        pen.mouse,
        SAVE_PILL@,
        theme::dim(),
        Target::HeaderSave,
    );
    let s4 = match controls.save {
        Some(saved) => with_save(s3, area, saved, pen),
        None => s3,
    };
    let save = match controls.save {
        Some(true) => " ★ saved"@,
        Some(false) => " ☆ save"@,
        None => none,
    };
    assert(printed(s4.line) =~= "▶ play ▶ shuffle"@ + share + save);
    lemma_blank_prints(s4);
    lemma_control_prints(
        with_blank(s4),
        area,
        pen.mouse,
        EDIT_PILL@,
        theme::dim(),
        Target::HeaderEdit,
    );
    let s5 = controls_row(c, area, controls, pen);
    let edit = if controls.edit {
        " edit"@
    } else {
        none
    };
    assert(printed(s5.line) =~= "▶ play ▶ shuffle"@ + share + save + edit);
}

proof fn lemma_control_prints(
    s: Strip,
    area: Rect,
    mouse: Option<Position>,
    text: Seq<char>,
    style: Style,
    target: Target,
)
    ensures
        printed(with_control(s, area, mouse, text, style, target).line) == printed(s.line) + text,
        with_control(s, area, mouse, text, style, target).canvas.len() == s.canvas.len() + 1,
{
    let parts = one(text, style);
    lemma_prints_alone(parts);
    light_changes_no_text(s.line, s.x, area, mouse, parts, text, style, true);
}

proof fn lemma_blank_prints(s: Strip)
    ensures
        printed(with_blank(s).line) == printed(s.line) + seq![' '],
{
    reveal_strlit(" ");
    assert(" "@ =~= seq![' ']);
    assert(with_blank(s).line.drop_last() =~= s.line);
}

/// A playlist of someone else's offers to be saved, and says whether it is; one
/// of which nothing is known offers nothing of the kind.
pub proof fn a_playlist_says_whether_it_is_saved(st: AppState, id: String)
    requires
        st.open_playlist == Some(id),
        !st.owns_playlist,
    ensures
        controls_of(st).save == st.saved_playlists.of(id@),
        !controls_of(st).edit,
{
}

/// The line under a record's name is the whole of its subtitle, names first.
pub proof fn a_subtitle_is_printed_whole(
    header: ListHeader,
    row: Rect,
    style: Style,
    mouse: Option<Position>,
)
    ensures
        ({
            let subtitle = trimmed(fitted(header.subtitle@, row.width as nat));
            let names = trimmed(fitted(credit_names(header.credits@), row.width as nat));
            let text = printed(subtitle_runs(header, row, style, mouse));
            &&& header.credits@.len() == 0 ==> text == subtitle
            &&& header.credits@.len() > 0 && names.is_prefix_of(subtitle) ==> text == subtitle
            &&& header.credits@.len() > 0 && !names.is_prefix_of(subtitle) ==> text == names
        }),
{
    let subtitle = trimmed(fitted(header.subtitle@, row.width as nat));
    let names = trimmed(fitted(credit_names(header.credits@), row.width as nat));
    if header.credits@.len() == 0 {
        lemma_prints_alone(one(subtitle, style));
    } else {
        let runs = credit_runs(
            header.credits@,
            0,
            0,
            credit_ink(header.credits@, row.width as usize),
        );
        let lit = credit_under(names_area(header.credits@, row), runs, mouse);
        let line = credit_row(names, runs, style, lit);
        credit_row_prints_its_cell(names, runs, style, lit);
        let rest = after_names(subtitle, names);
        let full = line.push(run(rest, theme::dim()));
        assert(full.drop_last() =~= line);
        if names.is_prefix_of(subtitle) {
            assert(names + rest =~= subtitle);
        }
    }
}

/// A page's name is the first thing its band says, and its totals the last; its
/// blurb, where it has one and the room, is said between them.
#[verifier::rlimit(60)]
pub proof fn a_band_says_the_page(
    c: Canvas,
    text: Rect,
    list: TrackList,
    loading: bool,
    stacked: bool,
    mouse: Option<Position>,
)
    ensures
        ({
            let d = metadata_drawn(c, text, list, loading, stacked, mouse);
            let h = list.header;
            &&& d.len() > c.len() + 1
            &&& d[c.len() as int] matches OpView::Text { area, place, line } && area.y == text.y
                && printed(line) == h.name@ + (if h.subtitle@.len() > 0 && !stacked {
                "  "@ + h.subtitle@
            } else {
                Seq::<char>::empty()
            })
            &&& d.last() matches OpView::Text { area, place, line } && printed(line) == totals_text(
                list,
                loading,
            )
            &&& stacked && h.description@.len() > 0 ==> (d[d.len() - 2] matches OpView::Text {
                area,
                place,
                line,
            } && printed(line) == fitted(h.description@, text.width as nat))
        }),
{
    let d = metadata_drawn(c, text, list, loading, stacked, mouse);
    let h = list.header;
    let also = if h.subtitle@.len() > 0 && !stacked {
        Some(h.subtitle@)
    } else {
        None
    };
    lemma_name_prints(h.name@, also);
    lemma_prints_alone(one(totals_text(list, loading), theme::dim()));
    lemma_prints_alone(one(fitted(h.description@, text.width as nat), theme::dim()));
    let c1 = put_text(
        c,
        name_area(text, note_w(totals_text(list, loading), text, stacked)),
        name_runs(h.name@, also),
    );
    if stacked && h.subtitle@.len() > 0 && h.credits@.len() > 0 {
        let row = text.band(1, 1);
        let runs = credit_runs(h.credits@, 0, 0, credit_ink(h.credits@, row.width as usize));
        a_name_answers_to_its_credit(
            c1,
            names_area(h.credits@, row),
            runs,
            runs.len(),
            Names::Header,
            0,
        );
        let l = subtitle_linked(c1, h, row);
        assert(l[c.len() as int] == l.take(c1.len() as int)[c.len() as int]);
    }
}

pub proof fn lemma_name_prints(name: Seq<char>, also: Option<Seq<char>>)
    ensures
        printed(name_runs(name, also)) == name + (match also {
            Some(text) => "  "@ + text,
            None => Seq::<char>::empty(),
        }),
{
    let line = one(name, theme::bright().bold());
    lemma_prints_alone(line);
    match also {
        Some(text) => {
            let full = line.push(run("  "@ + text, theme::text()));
            assert(full.drop_last() =~= line);
        },
        None => {
            assert(name + Seq::<char>::empty() =~= name);
        },
    }
}

/// No two lines of a band are on one row: the name is over the subtitle, that
/// over the blurb, that over the totals, and the controls are under all of them.
pub proof fn the_lines_of_a_band_are_apart(header: ListHeader)
    ensures
        header.subtitle@.len() > 0 ==> subtitle_row(header, true) == 2,
        header.subtitle@.len() == 0 ==> subtitle_row(header, true) == 1,
        header.description@.len() > 0 ==> blurb_row(header, true) == subtitle_row(header, true) + 1,
        header.description@.len() == 0 ==> blurb_row(header, true) == subtitle_row(header, true),
        controls_at(header, true) > blurb_row(header, true) + 1,
        controls_at(header, false) == 1,
{
}

/// The name and the note of a compact band share a row without touching: the
/// note at its right, and a cell clear between the two.
pub proof fn a_name_and_its_note_are_apart(text: Rect, w: u16)
    requires
        w < text.width,
        text.x + text.width <= u16::MAX,
    ensures
        name_area(text, w).x == text.x && name_area(text, w).y == text.y,
        name_area(text, w).x + name_area(text, w).width + 1 == note_area(text, w).x,
        note_area(text, w).x + note_area(text, w).width == text.x + text.width,
        note_area(text, w).y == text.y && note_area(text, w).height == 1,
{
}

/// A page's table is under its band, down to the foot of the pane.
pub proof fn a_table_is_under_its_band(inner: Rect, header: ListHeader)
    requires
        inner.y + inner.height <= u16::MAX,
    ensures
        below_band(inner, header).y + below_band(inner, header).height == inner.y + inner.height,
        inner.height >= 8 ==> below_band(inner, header).y - inner.y > controls_at(
            header,
            stacked_in(inner, header),
        ),
        wears_sleeve(inner, header) ==> below_band(inner, header).y - inner.y == 11,
{
}

} // verus!
