//! The full-screen player: the deck with a cover and a spectrum wedged in, and
//! the queue listed underneath.

use vstd::prelude::*;
use vstd::string::*;

use crate::columns::{queue_digits, scroll_col, COL_GAP, COL_GAP_W, DUR_W, PREFIX_W};
use crate::deck::{
    announced_like, context_drawn, context_row, idle_text, like_of, mast_drawn, masthead,
    no_playback_hint, progress, progress_drawn, radio_mast_drawn, radio_masthead,
    radio_station_row, radio_status, radio_status_drawn, radio_transport, radio_transport_drawn,
    sleeve, sleeve_rect, sleeved, station_row_drawn, transport, transport_drawn, Forward,
    MASTHEAD_H,
};
use crate::geometry::{max16, max_usize, min16, Rect};
use crate::play_state;
use crate::play_state::{or_paused, play_state};
use crate::scene::{
    put_hit, put_text, row_of, rows_of, run, Canvas, Line, ListId, Op, OpView, Picture, Place,
    Row, RowView, Run, Scene, Target,
};
use crate::state::{
    a_reading_is_the_time, clamp_offset, duration_text, format_duration, playing_row, reads_as,
    AppState, Crumb, PageHeader, PageNote, Pen, Playback, Queue, RadioPlayback, SortedList,
    Track, Wear,
};
use crate::table::{
    apply_selection, art_w, barred, brand, brand_rect, branded, draw_scrollbar, hover_row,
    lemma_prints_first, lemma_same_texts_print, printed, selected_line, BRAND_W,
};
use crate::tables::{is_kept, kept_station};
use crate::text::{copies, dec, decimal, fit, fitted, pad_left, padded_left, repeated, spaces};
use crate::theme;
use crate::theme::Style;
use crate::top_row;
use crate::top_row::top_drawn;
use crate::trail::{
    draw_trail, fit_trail, fitted_path, path_drawn, path_w, trail_drawn, trail_width,
};

verus! {

/// Fewest and most bands the visualizer has.
pub const MIN_BANDS: u16 = 4;

pub const MAX_BANDS: u16 = 80;

/// Cells one band occupies: a one-cell bar and the blank column after it.
pub const BAND_STRIDE: u16 = 2;

/// Widest the player lays itself out, in cells.
pub const MAX_PLAYER_W: u16 = 100;

/// Rows of the masthead and the blank under it.
pub const HEADER_H: u16 = 3;

/// Rows of the progress band of a stacked layout.
pub const PROGRESS_H: u16 = 3;

/// Rows of the transport and the blank under it.
pub const TRANSPORT_H: u16 = 2;

/// Rows of the queue's heading and the blank under it.
pub const LIST_HEAD_H: u16 = 2;

/// Rows the visualizer gets when the pane can afford them.
pub const VIZ_H: u16 = 9;

/// Blank rows the stacked progress band puts above its bar.
pub const PROGRESS_PAD: u16 = 2;

/// Rows the mark takes at the top of the view.
pub const BRAND_H: u16 = 2;

/// Cells between the mark and the path pinned opposite it.
pub const BRAND_TRAIL_GAP: u16 = 6;

/// Cover-art heights, in rows.
pub const ART_TALL_H: u16 = 12;

pub const ART_SHORT_H: u16 = 8;

/// Cells between the cover and the field beside it.
pub const COVER_GAP: u16 = 3;

/// Narrowest field worth splitting off next to the cover.
pub const MIN_FIELD_W: u16 = 32;

/// Rows of the progress band under a cover.
pub const ART_PROGRESS_H: u16 = 2;

/// Everything but the visualizer needs this much to show at all.
pub const FIXED_H: u16 = 10;

/// Rows kept for the queue before the visualizer is allowed to grow.
pub const MIN_QUEUE: u16 = 3;

/// Rows the queue must still get for a cover to be worth drawing.
pub const MIN_ART_QUEUE: u16 = 5;

/// Columns the queue keeps clear on its right: a blank one, then the scrollbar.
pub const QUEUE_GUTTER: u16 = 2;

/// Vertical budget for one pane. With a cover the visualizer rides beside it,
/// so `viz` is the stacked layout's field and is zero whenever there is one.
#[derive(Debug, Clone, Copy, PartialEq, Eq, Structural)]
pub struct Rows {
    pub header: u16,
    pub art: u16,
    pub viz: u16,
    pub progress: u16,
    pub transport: u16,
    pub list_head: u16,
    pub queue: u16,
}

/// Whether a pane seats a cover of `art` rows.
#[verifier::allow_in_spec]
pub fn seats_art(width: u16, height: u16, art: u16) -> bool
    returns
        width >= art_w(art) + COVER_GAP + MIN_FIELD_W && height >= HEADER_H + art + ART_PROGRESS_H
            + TRANSPORT_H + LIST_HEAD_H + MIN_ART_QUEUE,
{
    width as u32 >= art_w(art) as u32 + COVER_GAP as u32 + MIN_FIELD_W as u32 && height as u32
        >= HEADER_H as u32 + art as u32 + ART_PROGRESS_H as u32 + TRANSPORT_H as u32
        + LIST_HEAD_H as u32 + MIN_ART_QUEUE as u32
}

/// The rows of a layout with a cover.
pub open spec fn art_rows_of(height: u16, art: u16) -> Rows {
    Rows {
        header: HEADER_H,
        art,
        viz: 0,
        progress: ART_PROGRESS_H,
        transport: TRANSPORT_H,
        list_head: LIST_HEAD_H,
        queue: (height - (HEADER_H + art + ART_PROGRESS_H + TRANSPORT_H + LIST_HEAD_H)) as u16,
    }
}

/// How a pane spends its rows. The cover goes first as it gets shorter, then
/// the visualizer, the queue's heading, the transport, the progress bar, and
/// the title last.
pub open spec fn budget(width: u16, height: u16) -> Rows {
    let none = Rows {
        header: 0,
        art: 0,
        viz: 0,
        progress: 0,
        transport: 0,
        list_head: 0,
        queue: 0,
    };
    if seats_art(width, height, ART_TALL_H) {
        art_rows_of(height, ART_TALL_H)
    } else if seats_art(width, height, ART_SHORT_H) {
        art_rows_of(height, ART_SHORT_H)
    } else if height >= FIXED_H + MIN_QUEUE {
        let viz = min16((height - FIXED_H - MIN_QUEUE) as u16, VIZ_H);
        Rows {
            header: HEADER_H,
            viz,
            progress: PROGRESS_H,
            transport: TRANSPORT_H,
            list_head: LIST_HEAD_H,
            queue: (height - FIXED_H - viz) as u16,
            ..none
        }
    } else if height >= HEADER_H + PROGRESS_H + TRANSPORT_H {
        Rows {
            header: HEADER_H,
            progress: PROGRESS_H,
            transport: TRANSPORT_H,
            queue: (height - (HEADER_H + PROGRESS_H + TRANSPORT_H)) as u16,
            ..none
        }
    } else if height >= HEADER_H + PROGRESS_H {
        Rows {
            header: HEADER_H,
            progress: PROGRESS_H,
            queue: (height - HEADER_H - PROGRESS_H) as u16,
            ..none
        }
    } else if height >= HEADER_H {
        Rows { header: HEADER_H, queue: (height - HEADER_H) as u16, ..none }
    } else {
        Rows { header: height, ..none }
    }
}

impl Rows {
    /// The rows the bands take between them.
    pub open spec fn total(self) -> int {
        self.header + self.art + self.viz + self.progress + self.transport + self.list_head
            + self.queue
    }

    pub fn new(width: u16, height: u16) -> (r: Rows)
        ensures
            r == budget(width, height),
    {
        let mut r = Rows {
            header: 0,
            art: 0,
            viz: 0,
            progress: 0,
            transport: 0,
            list_head: 0,
            queue: 0,
        };
        let art: u16 = if seats_art(width, height, ART_TALL_H) {
            ART_TALL_H
        } else if seats_art(width, height, ART_SHORT_H) {
            ART_SHORT_H
        } else {
            0
        };
        if art > 0 {
            r.header = HEADER_H;
            r.art = art;
            r.progress = ART_PROGRESS_H;
            r.transport = TRANSPORT_H;
            r.list_head = LIST_HEAD_H;
            r.queue = height - (HEADER_H + art + ART_PROGRESS_H + TRANSPORT_H + LIST_HEAD_H);
        } else if height >= FIXED_H + MIN_QUEUE {
            let viz: u16 = min16(height - FIXED_H - MIN_QUEUE, VIZ_H);
            r.header = HEADER_H;
            r.viz = viz;
            r.progress = PROGRESS_H;
            r.transport = TRANSPORT_H;
            r.list_head = LIST_HEAD_H;
            r.queue = height - FIXED_H - viz;
        } else if height >= HEADER_H + PROGRESS_H + TRANSPORT_H {
            r.header = HEADER_H;
            r.progress = PROGRESS_H;
            r.transport = TRANSPORT_H;
            r.queue = height - (HEADER_H + PROGRESS_H + TRANSPORT_H);
        } else if height >= HEADER_H + PROGRESS_H {
            r.header = HEADER_H;
            r.progress = PROGRESS_H;
            r.queue = height - HEADER_H - PROGRESS_H;
        } else if height >= HEADER_H {
            r.header = HEADER_H;
            r.queue = height - HEADER_H;
        } else {
            r.header = height;
        }
        r
    }
}

/// The bands of a pane add up to its height, whatever its size; a cover leaves
/// the queue usable and takes the place of the stacked field; and the title is
/// shown as long as there is a row for it.
pub proof fn the_budget_adds_up(width: u16, height: u16)
    ensures
        budget(width, height).total() == height,
        budget(width, height).art > 0 ==> budget(width, height).queue >= MIN_ART_QUEUE
            && budget(width, height).viz == 0,
        budget(width, height).viz > 0 ==> budget(width, height).queue >= MIN_QUEUE,
        height > 0 ==> budget(width, height).header > 0,
{
}

/// A band goes only once every band that is shed before it has gone: the cover,
/// the stacked field, the queue's heading, the transport, then the progress
/// bar.
pub proof fn bands_are_shed_in_order(width: u16, height: u16)
    ensures
        ({
            let r = budget(width, height);
            &&& r.list_head == 0 ==> r.art == 0 && r.viz == 0
            &&& r.transport == 0 ==> r.list_head == 0
            &&& r.progress == 0 ==> r.transport == 0
        }),
{
}

/// How many bands a rect of `width` cells holds.
#[verifier::allow_in_spec]
pub fn band_count(width: u16) -> u16
    returns
        ({
            let n = (width / 2 + width % 2) as u16;
            if n < MIN_BANDS {
                MIN_BANDS
            } else if n > MAX_BANDS {
                MAX_BANDS
            } else {
                n
            }
        }),
{
    let n: u16 = width / 2 + width % 2;
    if n < MIN_BANDS {
        MIN_BANDS
    } else if n > MAX_BANDS {
        MAX_BANDS
    } else {
        n
    }
}

/// Band count and the width the field occupies, for a rect `width` cells wide.
///
/// The field fills a rect up to its cap and stops widening past it. Below its
/// least bands it asks for more cells than the rect has, and is not drawn.
pub fn band_layout(width: u16) -> (r: (usize, u16))
    ensures
        r.0 == band_count(width),
        r.1 == band_count(width) * BAND_STRIDE - 1,
{
    let n: u16 = band_count(width);
    (n as usize, n * BAND_STRIDE - 1)
}

/// A field never spills past a rect that holds the fewest bands, and up to the
/// most it leaves at most one cell of it over.
pub proof fn a_field_fills_its_rect(width: u16)
    ensures
        width >= 7 ==> band_count(width) * BAND_STRIDE - 1 <= width,
        7 <= width <= 160 ==> band_count(width) * BAND_STRIDE >= width,
        MIN_BANDS <= band_count(width) <= MAX_BANDS,
{
}

/// Column widths for the queue table; an artist width of 0 is hidden.
#[derive(Debug, Clone, Copy, PartialEq, Eq, Structural)]
pub struct QueueCols {
    pub num: usize,
    pub name: usize,
    pub artist: usize,
}

/// How a queue of `len` rows settles into `width` cells. Titles get the larger
/// share.
pub open spec fn queue_cols(width: usize, len: usize) -> QueueCols {
    let num = queue_digits(len);
    let fixed = num.saturating_add(13);
    let flex = width.saturating_sub(fixed);
    if width >= num.saturating_add(40) {
        let rest = flex.saturating_sub(COL_GAP_W);
        let name = (rest * 60 / 100) as usize;
        QueueCols { num, name, artist: (rest - name) as usize }
    } else {
        QueueCols { num, name: flex, artist: 0 }
    }
}

impl QueueCols {
    pub fn new(width: usize, len: usize) -> (r: QueueCols)
        ensures
            r == queue_cols(width, len),
    {
        let number = dec(len as u64);
        let num: usize = max_usize(number.as_str().unicode_len(), 2);
        let flex: usize = width.saturating_sub(num.saturating_add(13));
        if width >= num.saturating_add(40) {
            let rest: usize = flex.saturating_sub(COL_GAP_W);
            let name: usize = (rest as u128 * 60 / 100) as usize;
            QueueCols { num, name, artist: rest - name }
        } else {
            QueueCols { num, name: flex, artist: 0 }
        }
    }
}

/// A queue row, before it is marked as selected.
pub open spec fn queue_runs(t: Track, i: nat, cols: QueueCols, playing: bool, accent: u32) -> Seq<
    Run,
> {
    let bold = theme::accent(accent).bold();
    let line = Seq::<Run>::empty().push(
        if playing {
            run("▶ "@, bold)
        } else {
            run(copies(' ', PREFIX_W as nat), Style::plain())
        },
    ).push(
        run(
            padded_left(decimal(i + 1), cols.num as nat),
            if playing {
                bold
            } else {
                theme::dim()
            },
        ),
    ).push(run(COL_GAP@, Style::plain())).push(
        run(
            fitted(t.name@, cols.name as nat),
            if playing {
                bold
            } else {
                theme::text()
            },
        ),
    );
    let line = if cols.artist > 0 {
        line.push(run(COL_GAP@, Style::plain())).push(
            run(fitted(t.artists@, cols.artist as nat), theme::dim()),
        )
    } else {
        line
    };
    line.push(run(COL_GAP@, Style::plain())).push(
        run(padded_left(duration_text(t.duration_ms as nat), DUR_W as nat), theme::dim()),
    )
}

/// A queue row as it is drawn: numbered by its place on screen, the playing one
/// in the accent. A row both selected and playing keeps its mark and number in
/// the accent.
pub open spec fn queue_line(
    t: Track,
    i: nat,
    cols: QueueCols,
    playing: bool,
    selected: bool,
    accent: u32,
) -> Seq<Run> {
    let line = queue_runs(t, i, cols, playing, accent);
    if selected {
        let lit = selected_line(line);
        if playing {
            let bold = theme::accent(accent).bold();
            lit.update(0, run(lit[0].text, bold)).update(1, run(lit[1].text, bold))
        } else {
            lit
        }
    } else {
        line
    }
}

fn queue_row(
    t: &Track,
    i: usize,
    cols: QueueCols,
    playing: bool,
    selected: bool,
    accent: u32,
) -> (line: Line)
    requires
        i < usize::MAX,
    ensures
        line@ == queue_line(*t, i as nat, cols, playing, selected, accent),
{
    let bold = theme::accent(accent).bold();
    let mut line = Line::empty();
    if playing {
        line.print("▶ ", bold);
    } else {
        line.put(repeated(' ', PREFIX_W), Style::plain());
    }
    let number = dec(i as u64 + 1);
    line.put(
        pad_left(number.as_str(), cols.num),
        if playing { bold } else { theme::dim() },
    );
    line.print(COL_GAP, Style::plain());
    line.put(
        fit(t.name.as_str(), cols.name),
        if playing { bold } else { theme::text() },
    );
    if cols.artist > 0 {
        line.print(COL_GAP, Style::plain());
        line.put(fit(t.artists.as_str(), cols.artist), theme::dim());
    }
    line.print(COL_GAP, Style::plain());
    let time = format_duration(t.duration_ms);
    line.put(pad_left(time.as_str(), DUR_W), theme::dim());
    if selected {
        apply_selection(&mut line);
        if playing {
            line.restyle(0, bold);
            line.restyle(1, bold);
        }
    }
    line
}

/// Every row of the queue.
pub open spec fn queue_rows(
    rows: SortedList<Track>,
    cols: QueueCols,
    playing: Option<usize>,
    index: usize,
    accent: u32,
) -> Seq<RowView> {
    Seq::new(
        rows.display@.len(),
        |i: int|
            row_of(
                queue_line(
                    rows.row(i),
                    i as nat,
                    cols,
                    playing == Some(i as usize),
                    i == index,
                    accent,
                ),
                false,
            ),
    )
}

/// The canvas with the queue on it, or what to do with none.
pub open spec fn queue_drawn(
    c: Canvas,
    area: Rect,
    playing_uri: Option<String>,
    queue: Option<Queue>,
    index: usize,
    offset: usize,
    pen: Pen,
) -> Canvas {
    if area.height == 0 {
        c
    } else {
        match queue {
            None => c.push(
                OpView::Text {
                    area: area.band((area.height / 2) as u16, 1),
                    place: Place::Center,
                    line: Seq::empty().push(
                        run("no queue — play a playlist or album to fill this"@, theme::dim()),
                    ),
                },
            ),
            Some(q) => {
                let rows_area = area.wide(area.width.saturating_sub(QUEUE_GUTTER));
                let len = q.rows.display@.len() as usize;
                let at = clamp_offset(offset, len, rows_area.height as usize);
                let cols = queue_cols(rows_area.width as usize, len);
                let playing = playing_row(q.rows, playing_uri);
                let c = put_hit(c, rows_area, Target::PlayerQueue).push(
                    OpView::List {
                        id: ListId::Queue,
                        area: rows_area,
                        offset: at,
                        rows: queue_rows(q.rows, cols, playing, index, pen.accent),
                    },
                );
                barred(c, scroll_col(rows_area), len, at)
            },
        }
    }
}

fn draw_queue(
    scene: &mut Scene,
    area: Rect,
    playing_uri: &Option<String>,
    queue: &Option<Queue>,
    index: usize,
    offset: usize,
    pen: Pen,
)
    requires
        *queue matches Some(q) ==> q.rows.wf(),
    ensures
        final(scene)@ == queue_drawn(
            old(scene)@,
            area,
            *playing_uri,
            *queue,
            index,
            offset,
            pen,
        ),
{
    if area.height == 0 {
        return;
    }
    let q = match queue {
        Some(q) => q,
        None => {
            scene.put(
                Op::Text {
                    area: area.band(area.height / 2, 1),
                    place: Place::Center,
                    line: Line::of(
                        "no queue — play a playlist or album to fill this".to_owned(),
                        theme::dim(),
                    ),
                },
            );
            return;
        },
    };
    let rows_area = area.wide(area.width.saturating_sub(QUEUE_GUTTER));
    scene.hit(rows_area, Target::PlayerQueue);
    let len: usize = q.rows.len();
    let at: usize = clamp_offset(offset, len, rows_area.height as usize);
    let playing = q.rows.position_of(playing_uri);
    let cols = QueueCols::new(rows_area.width as usize, len);
    let ghost want = queue_rows(q.rows, cols, playing, index, pen.accent);
    let mut rows: Vec<Row> = Vec::new();
    let mut i: usize = 0;
    while i < len
        invariant
            i <= len,
            len == q.rows.display@.len(),
            q.rows.wf(),
            rows@.len() == i,
            want == queue_rows(q.rows, cols, playing, index, pen.accent),
            forall|j: int| 0 <= j < i ==> (#[trigger] rows@[j])@ == want[j],
        decreases len - i,
    {
        let is_playing: bool = match playing {
            Some(p) => p == i,
            None => false,
        };
        let line = queue_row(q.rows.at(i), i, cols, is_playing, i == index, pen.accent);
        rows.push(hover_row(line, false));
        i = i + 1;
    }
    assert(rows_of(rows@) =~= want);
    scene.put(Op::List { id: ListId::Queue, area: rows_area, offset: at, rows });
    draw_scrollbar(scene, scroll_col(rows_area), len, at);
}

/// The column the player lays itself out in: inset by a cell on each side,
/// capped, and centred.
#[verifier::allow_in_spec]
pub fn player_column(area: Rect) -> Rect
    returns
        ({
            let room = area.width.saturating_sub(2);
            let w = min16(room, MAX_PLAYER_W);
            area.strip(1u16.saturating_add(((room - w) / 2) as u16), w)
        }),
{
    let room: u16 = area.width.saturating_sub(2);
    let w: u16 = min16(room, MAX_PLAYER_W);
    area.strip(1u16.saturating_add((room - w) / 2), w)
}

/// Where the path goes: what the mark and its gap leave of the row.
#[verifier::allow_in_spec]
pub fn mark_field(row: Rect) -> Rect
    returns
        row.strip(12, row.width.saturating_sub(12)),
{
    row.strip(BRAND_W + BRAND_TRAIL_GAP, row.width.saturating_sub(BRAND_W + BRAND_TRAIL_GAP))
}

/// The canvas with the mark's row on it: the mark, and the path of the page
/// underneath pinned opposite it, whole or not at all.
pub open spec fn mark_row_drawn(c: Canvas, row: Rect, trail: Seq<Crumb>, pen: Pen) -> Canvas {
    let c = put_hit(branded(c, row, pen), brand_rect(row, pen.accent), Target::Home);
    let field = mark_field(row);
    let (shown, ellipsis) = fitted_path(trail, false, field.width, pen.accent);
    let w = path_w(shown, false, ellipsis, pen.accent);
    if w <= field.width {
        let at = Rect {
            x: field.right().saturating_sub(w),
            y: field.y,
            width: w,
            height: field.height,
        };
        put_hit(
            trail_drawn(c, at, shown, false, ellipsis, true, pen),
            path_drawn(c, at, shown, false, ellipsis, true, pen).head,
            Target::ClosePlayer,
        )
    } else {
        c
    }
}

fn draw_mark_row(scene: &mut Scene, row: Rect, trail: &Vec<Crumb>, pen: Pen)
    ensures
        final(scene)@ == mark_row_drawn(old(scene)@, row, trail@, pen),
{
    let mark = brand(scene, row, pen);
    scene.hit(mark, Target::Home);
    let field = mark_field(row);
    let (shown, ellipsis) = fit_trail(trail, false, field.width, pen.accent);
    let w: u16 = trail_width(&shown, false, ellipsis, pen.accent);
    if w <= field.width {
        let at = Rect {
            x: field.right().saturating_sub(w),
            y: field.y,
            width: w,
            height: field.height,
        };
        let head = draw_trail(scene, at, &shown, false, ellipsis, true, pen);
        scene.hit(head, Target::ClosePlayer);
    }
}

/// Where the visualizer goes: beside the cover, or across the pane up to its
/// cap, centred.
pub open spec fn field_rect(inner: Rect, rows: Rows) -> Rect {
    if rows.art > 0 {
        let area = inner.band(rows.header, rows.art);
        let art = sleeve_rect(area);
        Rect {
            x: art.right().saturating_add(COVER_GAP),
            y: area.y,
            width: area.width.saturating_sub(art.width.saturating_add(COVER_GAP)),
            height: area.height,
        }
    } else {
        lone_field(inner, rows.header, rows.viz)
    }
}

/// Where the visualizer goes with nothing beside it.
pub open spec fn lone_field(inner: Rect, down: u16, height: u16) -> Rect {
    let used = (band_count(inner.width) * BAND_STRIDE - 1) as u16;
    if used <= inner.width {
        inner.band(down, height).strip(((inner.width - used) / 2) as u16, used)
    } else {
        Rect::zero()
    }
}

fn field_alone(inner: Rect, down: u16, height: u16) -> (r: Rect)
    ensures
        r == lone_field(inner, down, height),
{
    let (_n, used) = band_layout(inner.width);
    if used <= inner.width {
        inner.band(down, height).strip((inner.width - used) / 2, used)
    } else {
        Rect::zero()
    }
}

/// The canvas with the visualizer on it, where it has room.
pub open spec fn field_drawn(c: Canvas, field: Rect) -> Canvas {
    if field.height >= 2 && field.width >= 5 {
        let c = if band_count(field.width) * BAND_STRIDE - 1 <= field.width {
            c.push(OpView::Spectrum { area: field })
        } else {
            c
        };
        put_hit(c, field, Target::Visualizer)
    } else {
        c
    }
}

fn draw_field(scene: &mut Scene, field: Rect)
    ensures
        final(scene)@ == field_drawn(old(scene)@, field),
{
    if field.height >= 2 && field.width >= 5 {
        let (_n, used) = band_layout(field.width);
        if used <= field.width {
            scene.put(Op::Spectrum { area: field });
        }
        scene.hit(field, Target::Visualizer);
    }
}

/// Rows from the top of a pane to its progress band.
#[verifier::allow_in_spec]
pub fn above_progress(rows: Rows) -> u16
    returns
        rows.header.saturating_add(rows.art).saturating_add(rows.viz),
{
    rows.header.saturating_add(rows.art).saturating_add(rows.viz)
}

/// The canvas with a pane's masthead on it. Only its two written rows are where
/// the wheel turns the volume.
pub open spec fn header_band_drawn(
    c: Canvas,
    header: Rect,
    pb: Playback,
    st: AppState,
    pen: Pen,
) -> Canvas {
    if header.height > 0 {
        put_hit(
            mast_drawn(
                c,
                header,
                pb.track,
                false,
                pb.volume_percent,
                st.liked.of(pb.track.uri@),
                st.spotify_ready,
                pen,
            ),
            header.tall(min16(header.height, MASTHEAD_H)),
            Target::NowPlaying,
        )
    } else {
        c
    }
}

fn draw_header_band(scene: &mut Scene, header: Rect, pb: &Playback, st: &AppState, pen: Pen)
    ensures
        final(scene)@ == header_band_drawn(old(scene)@, header, *pb, *st, pen),
{
    if header.height > 0 {
        let like = st.liked.get(&pb.track.uri);
        masthead(scene, header, &pb.track, false, pb.volume_percent, like, st.spotify_ready, pen);
        scene.hit(header.tall(min16(header.height, MASTHEAD_H)), Target::NowPlaying);
    }
}

/// The canvas with a pane's cover on it, where it has one, and its visualizer.
pub open spec fn block_drawn(c: Canvas, inner: Rect, rows: Rows, pb: Playback) -> Canvas {
    let c = if rows.art > 0 {
        sleeved(c, inner.band(rows.header, rows.art), pb.track, Picture::Playing)
    } else {
        c
    };
    field_drawn(c, field_rect(inner, rows))
}

/// The cover with the visualizer beside it, or the visualizer alone. The two
/// share both a top and a bottom edge.
fn draw_block(scene: &mut Scene, inner: Rect, rows: Rows, pb: &Playback)
    ensures
        final(scene)@ == block_drawn(old(scene)@, inner, rows, *pb),
{
    let field = if rows.art > 0 {
        let area = inner.band(rows.header, rows.art);
        let art = sleeve(scene, area, &pb.track, Picture::Playing);
        Rect {
            x: art.right().saturating_add(COVER_GAP),
            y: area.y,
            width: area.width.saturating_sub(art.width.saturating_add(COVER_GAP)),
            height: area.height,
        }
    } else {
        field_alone(inner, rows.header, rows.viz)
    };
    draw_field(scene, field);
}

/// The canvas with a pane's progress, transport and heading on it.
pub open spec fn controls_drawn(
    c: Canvas,
    inner: Rect,
    rows: Rows,
    pb: Playback,
    st: AppState,
    pen: Pen,
) -> Canvas {
    let at = above_progress(rows);
    let c = if rows.progress > 0 {
        let pad = if rows.art > 0 {
            1u16
        } else {
            PROGRESS_PAD
        };
        progress_drawn(
            c,
            inner.band(at.saturating_add(pad), 1),
            pb.progress_ms,
            pb.track.duration_ms,
        )
    } else {
        c
    };
    let at = at.saturating_add(rows.progress);
    let c = if rows.transport > 0 {
        transport_drawn(c, inner.band(at, 1), play_state(st.deck), Forward::Next, st.wear, pen)
    } else {
        c
    };
    let at = at.saturating_add(rows.transport);
    if rows.list_head > 0 {
        context_drawn(c, inner.band(at, 1), pb.shuffle, st.queue, Some(st.list_folded), pen)
    } else {
        c
    }
}

fn draw_controls(
    scene: &mut Scene,
    inner: Rect,
    rows: Rows,
    pb: &Playback,
    st: &AppState,
    pen: Pen,
)
    ensures
        final(scene)@ == controls_drawn(old(scene)@, inner, rows, *pb, *st, pen),
{
    let at: u16 = above_progress(rows);
    if rows.progress > 0 {
        let pad: u16 = if rows.art > 0 { 1 } else { PROGRESS_PAD };
        progress(
            scene,
            inner.band(at.saturating_add(pad), 1),
            pb.progress_ms,
            pb.track.duration_ms,
        );
    }
    let at: u16 = at.saturating_add(rows.progress);
    if rows.transport > 0 {
        let play = or_paused(play_state::status(&st.deck));
        transport(scene, inner.band(at, 1), play, Forward::Next, st.wear, pen);
    }
    let at: u16 = at.saturating_add(rows.transport);
    if rows.list_head > 0 {
        let folded = Some(st.list_folded);
        context_row(scene, inner.band(at, 1), pb.shuffle, &st.queue, folded, pen);
    }
}

/// The canvas with everything but the queue and the mark of a pane on it.
pub open spec fn stack_drawn(
    c: Canvas,
    inner: Rect,
    rows: Rows,
    pb: Playback,
    st: AppState,
    pen: Pen,
) -> Canvas {
    let c = header_band_drawn(c, inner.band(0, rows.header), pb, st, pen);
    controls_drawn(block_drawn(c, inner, rows, pb), inner, rows, pb, st, pen)
}

fn draw_stack(scene: &mut Scene, inner: Rect, rows: Rows, pb: &Playback, st: &AppState, pen: Pen)
    ensures
        final(scene)@ == stack_drawn(old(scene)@, inner, rows, *pb, *st, pen),
{
    draw_header_band(scene, inner.band(0, rows.header), pb, st, pen);
    draw_block(scene, inner, rows, pb);
    draw_controls(scene, inner, rows, pb, st, pen);
}

/// The canvas with a station's block on it: the sleeve of the record it
/// announced with the visualizer beside it, or the visualizer alone.
pub open spec fn station_block_drawn(
    c: Canvas,
    inner: Rect,
    rows: Rows,
    radio: RadioPlayback,
) -> Canvas {
    match radio.matched {
        Some(t) if rows.art > 0 => field_drawn(
            sleeved(c, inner.band(rows.header, rows.art), t, Picture::Playing),
            field_rect(inner, rows),
        ),
        _ => field_drawn(c, lone_field(inner, rows.header, max16(rows.art, rows.viz))),
    }
}

fn draw_station_block(scene: &mut Scene, inner: Rect, rows: Rows, radio: &RadioPlayback)
    ensures
        final(scene)@ == station_block_drawn(old(scene)@, inner, rows, *radio),
{
    let field = match &radio.matched {
        Some(t) if rows.art > 0 => {
            let area = inner.band(rows.header, rows.art);
            let art = sleeve(scene, area, t, Picture::Playing);
            Rect {
                x: art.right().saturating_add(COVER_GAP),
                y: area.y,
                width: area.width.saturating_sub(art.width.saturating_add(COVER_GAP)),
                height: area.height,
            }
        },
        _ => field_alone(inner, rows.header, max16(rows.art, rows.viz)),
    };
    draw_field(scene, field);
}

/// The canvas with a station's progress, transport and own row on it.
pub open spec fn station_controls_drawn(
    c: Canvas,
    inner: Rect,
    rows: Rows,
    radio: RadioPlayback,
    st: AppState,
    pen: Pen,
) -> Canvas {
    let at = above_progress(rows);
    let c = if rows.progress > 0 {
        let pad = if rows.art > 0 {
            1u16
        } else {
            PROGRESS_PAD
        };
        radio_status_drawn(c, inner.band(at.saturating_add(pad), 1), radio, pen)
    } else {
        c
    };
    let at = at.saturating_add(rows.progress);
    let c = if rows.transport > 0 {
        radio_transport_drawn(c, inner.band(at, 1), play_state(st.deck), st.radio_steps, pen)
    } else {
        c
    };
    let at = at.saturating_add(rows.transport);
    if rows.list_head > 0 {
        let saved = kept_station(st.favorites@, radio.station.uuid@);
        station_row_drawn(c, inner.band(at, 1), radio, saved, Some(st.list_folded), pen)
    } else {
        c
    }
}

fn draw_station_controls(
    scene: &mut Scene,
    inner: Rect,
    rows: Rows,
    radio: &RadioPlayback,
    st: &AppState,
    pen: Pen,
)
    ensures
        final(scene)@ == station_controls_drawn(old(scene)@, inner, rows, *radio, *st, pen),
{
    let at: u16 = above_progress(rows);
    if rows.progress > 0 {
        let pad: u16 = if rows.art > 0 { 1 } else { PROGRESS_PAD };
        radio_status(scene, inner.band(at.saturating_add(pad), 1), radio, pen);
    }
    let at: u16 = at.saturating_add(rows.progress);
    if rows.transport > 0 {
        let play = or_paused(play_state::status(&st.deck));
        radio_transport(scene, inner.band(at, 1), play, st.radio_steps, pen);
    }
    let at: u16 = at.saturating_add(rows.transport);
    if rows.list_head > 0 {
        let saved: bool = is_kept(&st.favorites, &radio.station.uuid);
        radio_station_row(scene, inner.band(at, 1), radio, saved, Some(st.list_folded), pen);
    }
}

/// The canvas with a station's masthead on it.
pub open spec fn station_head_drawn(
    c: Canvas,
    header: Rect,
    radio: RadioPlayback,
    st: AppState,
    pen: Pen,
) -> Canvas {
    if header.height > 0 {
        put_hit(
            radio_mast_drawn(
                c,
                header,
                radio,
                announced_like(radio, st.liked),
                st.spotify_ready,
                pen,
            ),
            header.tall(min16(header.height, MASTHEAD_H)),
            Target::NowPlaying,
        )
    } else {
        c
    }
}

/// The canvas with a station in a pane: the rows a record has there, about the
/// station.
pub open spec fn station_stack_drawn(
    c: Canvas,
    inner: Rect,
    rows: Rows,
    radio: RadioPlayback,
    st: AppState,
    pen: Pen,
) -> Canvas {
    let c = station_head_drawn(c, inner.band(0, rows.header), radio, st, pen);
    let c = station_block_drawn(c, inner, rows, radio);
    station_controls_drawn(c, inner, rows, radio, st, pen)
}

fn draw_station_stack(
    scene: &mut Scene,
    inner: Rect,
    rows: Rows,
    radio: &RadioPlayback,
    st: &AppState,
    pen: Pen,
)
    ensures
        final(scene)@ == station_stack_drawn(old(scene)@, inner, rows, *radio, *st, pen),
{
    let header = inner.band(0, rows.header);
    if header.height > 0 {
        let like = like_of(radio, &st.liked);
        radio_masthead(scene, header, radio, like, st.spotify_ready, pen);
        scene.hit(header.tall(min16(header.height, MASTHEAD_H)), Target::NowPlaying);
    }
    draw_station_block(scene, inner, rows, radio);
    draw_station_controls(scene, inner, rows, radio, st, pen);
}

/// Where a pane's queue goes.
#[verifier::allow_in_spec]
pub fn queue_area(inner: Rect, rows: Rows) -> Rect
    returns
        inner.band(
            above_progress(rows).saturating_add(rows.progress).saturating_add(
                rows.transport,
            ).saturating_add(rows.list_head),
            rows.queue,
        ),
{
    inner.band(
        above_progress(rows).saturating_add(rows.progress).saturating_add(
            rows.transport,
        ).saturating_add(rows.list_head),
        rows.queue,
    )
}

/// Whether the mark is drawn: only where the masthead still fits under it.
#[verifier::allow_in_spec]
pub fn has_mark(inner: Rect) -> bool
    returns
        inner.height >= 4,
{
    inner.height >= BRAND_H + MASTHEAD_H
}

/// The canvas with the rows above the masthead on it: the header of the browse
/// page that waits underneath, or the mark with its path opposite.
pub open spec fn player_head_drawn(c: Canvas, whole: Rect, st: AppState, pen: Pen) -> Canvas {
    match st.wear {
        Wear::Acts => top_drawn(
            c,
            whole.tall(BRAND_H),
            st,
            PageNote { loading: false, count: None },
            pen,
        ),
        Wear::Reports => mark_row_drawn(c, whole.tall(1), st.trail@, pen),
    }
}

fn draw_player_head(scene: &mut Scene, whole: Rect, st: &AppState, pen: Pen)
    ensures
        final(scene)@ == player_head_drawn(old(scene)@, whole, *st, pen),
{
    match st.wear {
        Wear::Acts => {
            let page = PageHeader { loading: false, count: None };
            top_row::draw(scene, whole.tall(BRAND_H), st, &page, pen);
        },
        Wear::Reports => draw_mark_row(scene, whole.tall(1), &st.trail, pen),
    }
}

/// The canvas with the player on it. A station goes before a record, which is
/// kept under it only to come back.
pub open spec fn player_drawn(c: Canvas, area: Rect, st: AppState, pen: Pen) -> Canvas {
    let whole = player_column(area);
    if whole.height == 0 || area.width <= 2 {
        c
    } else {
        let (c, inner) = if has_mark(whole) {
            (
                player_head_drawn(c, whole, st, pen),
                whole.band(BRAND_H, (whole.height - BRAND_H) as u16),
            )
        } else {
            (c, whole)
        };
        let rows = budget(inner.width, inner.height);
        match (st.deck.radio, st.deck.playback) {
            (Some(radio), _) => station_stack_drawn(c, inner, rows, radio, st, pen),
            (None, None) => queue_drawn(
                put_text(
                    c,
                    inner.band(0, rows.header).tall(1),
                    Seq::empty().push(run(idle_text(st.spotify_ready), theme::dim())),
                ),
                queue_area(inner, rows),
                None,
                st.queue,
                0,
                st.queue_offset,
                pen,
            ),
            (None, Some(pb)) => {
                let c = stack_drawn(c, inner, rows, pb, st, pen);
                if st.list_folded {
                    c
                } else {
                    queue_drawn(
                        c,
                        queue_area(inner, rows),
                        Some(pb.track.uri),
                        st.queue,
                        st.queue_index,
                        st.queue_offset,
                        pen,
                    )
                }
            },
        }
    }
}

/// The player view, which fills the screen.
pub fn draw(scene: &mut Scene, area: Rect, st: &AppState, pen: Pen)
    requires
        st.queue matches Some(q) ==> q.rows.wf(),
    ensures
        final(scene)@ == player_drawn(old(scene)@, area, *st, pen),
{
    let whole = player_column(area);
    if whole.height == 0 || area.width <= 2 {
        return;
    }
    let mut inner = whole;
    if has_mark(whole) {
        draw_player_head(scene, whole, st, pen);
        inner = whole.band(BRAND_H, whole.height - BRAND_H);
    }
    let rows = Rows::new(inner.width, inner.height);
    match (&st.deck.radio, &st.deck.playback) {
        (Some(radio), _) => draw_station_stack(scene, inner, rows, radio, st, pen),
        (None, None) => {
            no_playback_hint(scene, inner.band(0, rows.header), st.spotify_ready);
            draw_queue(
                scene,
                queue_area(inner, rows),
                &None,
                &st.queue,
                0,
                st.queue_offset,
                pen,
            );
        },
        (None, Some(pb)) => {
            draw_stack(scene, inner, rows, pb, st, pen);
            if st.list_folded {
                return;
            }
            let uri = Some(pb.track.uri.clone());
            draw_queue(
                scene,
                queue_area(inner, rows),
                &uri,
                &st.queue,
                st.queue_index,
                st.queue_offset,
                pen,
            );
        },
    }
}

/// Folding the list away turns the mark on its heading and takes the list;
/// nothing above the heading moves.
pub proof fn folding_moves_nothing_above(
    c: Canvas,
    inner: Rect,
    rows: Rows,
    pb: Playback,
    st: AppState,
    folded: bool,
    pen: Pen,
)
    ensures
        ({
            let above = Rows { list_head: 0, ..rows };
            let other = AppState { list_folded: folded, ..st };
            stack_drawn(c, inner, above, pb, st, pen) == stack_drawn(
                c,
                inner,
                above,
                pb,
                other,
                pen,
            )
        }),
{
}

/// A queue row prints, in order, a mark where its track plays, its place in the
/// queue counted from one, the track's name, its artists where the row has a
/// column for them, and how long it is. What is selected prints the same.
#[verifier::rlimit(60)]
pub proof fn a_queue_row_prints_its_track(
    t: Track,
    i: nat,
    cols: QueueCols,
    playing: bool,
    selected: bool,
    accent: u32,
)
    ensures
        exists|time: Seq<char>|
            {
                let mark = if playing {
                    seq!['▶', ' ']
                } else {
                    spaces(2)
                };
                let names = if cols.artist > 0 {
                    spaces(3) + fitted(t.artists@, cols.artist as nat)
                } else {
                    Seq::empty()
                };
                &&& #[trigger] reads_as(time, (t.duration_ms / 1_000) as nat)
                &&& printed(queue_line(t, i, cols, playing, selected, accent)) == mark + padded_left(
                    decimal(i + 1),
                    cols.num as nat,
                ) + spaces(3) + fitted(t.name@, cols.name as nat) + names + spaces(3) + padded_left(
                    time,
                    5,
                )
            },
{
    let time = duration_text(t.duration_ms as nat);
    a_reading_is_the_time(t.duration_ms as nat);
    assert(reads_as(time, (t.duration_ms / 1_000) as nat));
    reveal_strlit("▶ ");
    reveal_strlit("   ");
    let r = queue_runs(t, i, cols, playing, accent);
    let line = queue_line(t, i, cols, playing, selected, accent);
    lemma_same_texts_print(r, line);
    assert(COL_GAP@ =~= spaces(3));
    assert(copies(' ', 2) =~= spaces(2));
    assert("▶ "@ =~= seq!['▶', ' ']);
    let mark = r[0].text;
    lemma_prints_first(r, r.len() as int);
    assert(printed(r.take(0)) =~= Seq::<char>::empty());
    assert(printed(r.take(1)) =~= mark) by {
        lemma_prints_first(r, 1);
    }
    lemma_prints_first(r, 2);
    lemma_prints_first(r, 3);
    lemma_prints_first(r, 4);
    lemma_prints_first(r, 5);
    lemma_prints_first(r, 6);
    assert(r.take(r.len() as int) =~= r);
    if cols.artist > 0 {
        lemma_prints_first(r, 7);
        lemma_prints_first(r, 8);
    }
    let names = if cols.artist > 0 {
        spaces(3) + fitted(t.artists@, cols.artist as nat)
    } else {
        Seq::empty()
    };
    let no = padded_left(decimal(i + 1), cols.num as nat);
    let name = fitted(t.name@, cols.name as nat);
    assert(printed(r) =~= mark + no + spaces(3) + name + names + spaces(3) + padded_left(time, 5));
}

/// Two tracks of one name, the same artists and one length print the same row,
/// whatever their albums are.
pub proof fn a_queue_row_is_not_about_the_album(
    a: Track,
    b: Track,
    i: nat,
    cols: QueueCols,
    playing: bool,
    selected: bool,
    accent: u32,
)
    requires
        a.name@ == b.name@,
        a.artists@ == b.artists@,
        a.duration_ms == b.duration_ms,
    ensures
        queue_line(a, i, cols, playing, selected, accent) == queue_line(
            b,
            i,
            cols,
            playing,
            selected,
            accent,
        ),
{
}

/// Row `i` of the queue is about its `i`th track, is marked where that is the
/// one that plays, and is lit where it is the one selected.
pub proof fn queue_rows_are_in_order(
    rows: SortedList<Track>,
    cols: QueueCols,
    playing: Option<usize>,
    index: usize,
    accent: u32,
    i: int,
)
    requires
        0 <= i < rows.display@.len(),
        rows.display@.len() <= usize::MAX,
    ensures
        ({
            let t = rows.items@[rows.display@[i] as int];
            let q = queue_rows(rows, cols, playing, index, accent);
            let plays = playing == Some(i as usize);
            &&& q.len() == rows.display@.len()
            &&& printed(q[i].line) == printed(queue_line(t, i as nat, cols, plays, false, accent))
            &&& i == index ==> forall|k: int|
                2 <= k < q[i].line.len() ==> (#[trigger] q[i].line[k]).style.bold
                    && q[i].line[k].style.fg == Some(theme::BRIGHT)
            &&& plays ==> q[i].line[0].style.fg == Some(accent) && q[i].line[1].style.fg == Some(
                accent,
            )
            &&& !plays && i != index ==> q[i].line[3].style == theme::text()
        }),
{
    let t = rows.row(i);
    let plays = playing == Some(i as usize);
    let a = queue_line(t, i as nat, cols, plays, false, accent);
    let b = queue_line(t, i as nat, cols, plays, i == index, accent);
    lemma_same_texts_print(b, a);
}

/// The columns of a queue row with room for them fill it, and the artists have a
/// column from forty cells past the numbers on.
pub proof fn queue_columns_fill_their_row(width: usize, len: usize)
    requires
        width <= 0xFFFF,
    ensures
        ({
            let c = queue_cols(width, len);
            &&& c.artist > 0 ==> 2 + c.num + 3 + c.name + 3 + c.artist + 3 + 5 == width
            &&& c.artist == 0 && width >= c.num + 13 ==> 2 + c.num + 3 + c.name + 3 + 5 == width
            &&& c.artist > 0 <==> width >= c.num + 40
            &&& c.artist > 0 ==> c.name >= c.artist
        }),
{
    reveal_with_fuel(decimal, 21);
    let c = queue_cols(width, len);
    if width >= c.num + 40 {
        let rest = width - c.num - 16;
        assert(rest * 60 / 100 <= rest);
    }
}

/// The player's column leaves a cell on either side, is at most a hundred cells
/// wide, and stands in the middle of what is left.
pub proof fn the_player_stands_in_the_middle(area: Rect)
    requires
        area.width >= 2,
        area.x + area.width <= u16::MAX,
    ensures
        ({
            let r = player_column(area);
            let (left, right) = (r.x - area.x, area.x + area.width - r.x - r.width);
            &&& r.width <= 100
            &&& area.width <= 102 ==> r.width == area.width - 2 && left == 1 && right == 1
            &&& area.width > 102 ==> r.width == 100
            &&& 1 <= left <= right <= left + 1
            &&& r.y == area.y && r.height == area.height
        }),
{
}

/// The bands of the player follow one another from the top and the queue is the
/// last of them, down to the foot of the pane.
pub proof fn bands_follow_one_another(inner: Rect)
    requires
        inner.y + inner.height <= u16::MAX,
    ensures
        ({
            let r = budget(inner.width, inner.height);
            let q = queue_area(inner, r);
            &&& above_progress(r) == r.header + r.art + r.viz
            &&& q.y == inner.y + r.header + r.art + r.viz + r.progress + r.transport + r.list_head
            &&& q.y + q.height == inner.y + inner.height
            &&& q.x == inner.x && q.width == inner.width
        }),
{
    the_budget_adds_up(inner.width, inner.height);
}

/// A cover has the visualizer beside it, on the same rows, three cells apart, and
/// that reaches the right of the pane.
pub proof fn the_field_is_beside_the_cover(inner: Rect, rows: Rows)
    requires
        0 < rows.art <= 12,
        inner.width >= 2 * rows.art + 3,
        inner.x + inner.width <= u16::MAX,
        inner.y + rows.header <= u16::MAX,
    ensures
        ({
            let f = field_rect(inner, rows);
            &&& f.x == inner.x + 2 * rows.art + 3
            &&& f.x + f.width == inner.x + inner.width
            &&& f.y == inner.y + rows.header
            &&& f.height == rows.art
        }),
{
}

} // verus!
