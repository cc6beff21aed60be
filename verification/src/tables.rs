//! The browse tables: a header, the rows under it, and what answers a click.

use vstd::prelude::*;
use vstd::string::*;

use crate::columns::{
    album_columns, albums, artist_columns, artists, below_header, facet_columns, facets,
    header_drawn, plan, playlist_columns, playlists, row_line, row_spans, scroll_col, shown,
    shown_width, station_columns, stations, track_columns, tracks, Cell, ColKey, Layout,
};
use crate::geometry::{min_usize, Position, Rect};
use crate::rows::{
    ink_w, printed_w, track_no, AlbumRow, ArtistRow, FacetRow, HoverCol, PlaylistRow,
    StationRow, TrackRow,
};
use crate::scene::{
    put_hit, row_of, rows_of, Canvas, Line, ListId, Op, OpView, Row, RowView, Run, Scene,
    Target,
};
use crate::state::{
    album_key, album_key_text, clamp_offset, is_text, playing_row, playlist_key,
    playlist_key_text, same_text, some_text, AlbumItem, ArtistItem, Credit, Kept, NowStatus,
    Pen, Playlist, RadioRow, Sort, SortedList, Station, StationNow, Track,
};
use crate::table::{
    barred, credit_ink, credit_line, credit_links, credit_rect, credit_runs, draw_scrollbar,
    hover_row, hovered_row, linked, row_under, run_under, CreditRun, Names, ACTIONS_W, ADD_W,
    LIKE_W, SHARE_W,
};
use crate::text::{
    fitted, lemma_blank_cells, lemma_fitted_cells, lemma_trimmed_cells, low16, low_half,
    trimmed,
};

verus! {

/// A column of a table that answers, down `n` rows from `top`.
pub open spec fn column_rect(
    cell: Option<Cell>,
    dx: usize,
    width: usize,
    body: Rect,
    top: u16,
    n: usize,
) -> Rect {
    match cell {
        Some(c) => (Rect {
            x: body.x.saturating_add(low16(c.x.saturating_add(dx) as int)),
            y: top,
            width: low16(width as int),
            height: low16(n as int),
        }).intersection(body),
        None => Rect::zero(),
    }
}

fn column(cell: Option<Cell>, dx: usize, width: usize, body: Rect, top: u16, n: usize) -> (r: Rect)
    ensures
        r == column_rect(cell, dx, width, body, top, n),
{
    match cell {
        Some(c) => (Rect {
            x: body.x.saturating_add(low_half(c.x.saturating_add(dx))),
            y: top,
            width: low_half(width),
            height: low_half(n),
        }).intersection(body),
        None => Rect::zero(),
    }
}

/// Cells that answer by the width printed on each of their rows: a click stops
/// with the name, not with the column it is padded out to.
#[derive(Debug, Clone, PartialEq, Eq)]
pub struct TextCol {
    pub rect: Rect,
    pub widths: Vec<u16>,
}

/// Whether a column of printed names has one under `at`.
pub open spec fn text_hit(rect: Rect, widths: Seq<u16>, at: Position) -> bool {
    rect.contains(at) && at.y - rect.y < widths.len() && at.x - rect.x < widths[at.y - rect.y]
}

impl TextCol {
    pub fn hit(&self, at: Position) -> (r: bool)
        ensures
            r == text_hit(self.rect, self.widths@, at),
    {
        if !self.rect.contains(at) {
            return false;
        }
        let row: usize = (at.y - self.rect.y) as usize;
        row < self.widths.len() && at.x - self.rect.x < self.widths[row]
    }
}

/// Where the credit cell of row `k` of a table is.
pub open spec fn artist_cell(cells: Seq<Cell>, body: Rect, top: u16, n: usize, k: int) -> Rect {
    let cell = shown(cells, ColKey::Artist);
    column_rect(cell, 0, shown_width(cells, ColKey::Artist), body, top, n).intersection(
        Rect {
            x: body.x,
            y: top.saturating_add(low16(k)),
            width: body.width,
            height: 1,
        },
    )
}

/// The runs of a credit line in a table's Artist column.
pub open spec fn artist_runs(cells: Seq<Cell>, credits: Seq<Credit>) -> Seq<CreditRun> {
    credit_runs(credits, 0, 0, credit_ink(credits, shown_width(cells, ColKey::Artist)))
}

/// Row `from + k` of a list of tracks.
pub open spec fn track_at(rows: SortedList<Track>, from: usize, k: int) -> Track {
    rows.row(from + k)
}

/// The canvas with the names credited on the first `k` of `n` rows recorded.
pub open spec fn tracks_linked(
    c: Canvas,
    cells: Seq<Cell>,
    body: Rect,
    top: u16,
    rows: SortedList<Track>,
    from: usize,
    n: usize,
    k: nat,
) -> Canvas
    decreases k,
{
    if k == 0 {
        c
    } else {
        let runs = artist_runs(cells, track_at(rows, from, k - 1).credits@);
        linked(
            tracks_linked(c, cells, body, top, rows, from, n, (k - 1) as nat),
            artist_cell(cells, body, top, n, k - 1),
            runs,
            runs.len(),
            Names::Track,
        )
    }
}

/// Whether a name credited on one of the first `k` rows is under `at`.
pub open spec fn track_name_under(
    cells: Seq<Cell>,
    body: Rect,
    top: u16,
    rows: SortedList<Track>,
    from: usize,
    n: usize,
    k: nat,
    at: Position,
) -> bool
    decreases k,
{
    if k == 0 {
        false
    } else {
        track_name_under(cells, body, top, rows, from, n, (k - 1) as nat, at) || run_under(
            artist_cell(cells, body, top, n, k - 1),
            artist_runs(cells, track_at(rows, from, k - 1).credits@),
            at,
            0,
        ) is Some
    }
}

/// The widths the albums of `n` rows print.
pub open spec fn album_widths(
    cells: Seq<Cell>,
    rows: SortedList<Track>,
    from: usize,
    n: usize,
) -> Seq<u16> {
    Seq::new(
        n as nat,
        |k: int| ink_w(track_at(rows, from, k).album@, shown_width(cells, ColKey::Album)),
    )
}

/// Where the controls and the albums of `n` rows answer.
pub struct TrackCols {
    pub like: Rect,
    pub share: Rect,
    pub add: Rect,
    pub album: Rect,
}

/// The columns of a track table that answer, down `n` rows from `top`. The
/// three controls sit flush against each other.
pub open spec fn track_cols(cells: Seq<Cell>, body: Rect, top: u16, n: usize) -> TrackCols {
    let actions = shown(cells, ColKey::Actions);
    TrackCols {
        like: column_rect(actions, 0, LIKE_W, body, top, n),
        share: column_rect(actions, 3, SHARE_W, body, top, n),
        add: column_rect(actions, 6, ADD_W, body, top, n),
        album: column_rect(
            shown(cells, ColKey::Album),
            0,
            shown_width(cells, ColKey::Album),
            body,
            top,
            n,
        ),
    }
}

/// The canvas with the columns of a track table that answer recorded.
pub open spec fn cells_recorded(
    c: Canvas,
    cells: Seq<Cell>,
    body: Rect,
    top: u16,
    rows: SortedList<Track>,
    from: usize,
    n: usize,
) -> Canvas {
    let cols = track_cols(cells, body, top, n);
    let c = put_hit(
        put_hit(put_hit(c, cols.like, Target::LikeColumn), cols.share, Target::ShareColumn),
        cols.add,
        Target::AddColumn,
    );
    tracks_linked(c, cells, body, top, rows, from, n, n as nat).push(
        OpView::AlbumColumn { area: cols.album, widths: album_widths(cells, rows, from, n) },
    )
}

/// The cell of a track table the pointer is in. `artist_x` is where the Artist
/// cell starts on screen.
pub open spec fn cell_under(
    cells: Seq<Cell>,
    body: Rect,
    top: u16,
    rows: SortedList<Track>,
    from: usize,
    n: usize,
    mouse: Option<Position>,
) -> Option<HoverCol> {
    let cols = track_cols(cells, body, top, n);
    match mouse {
        None => None,
        Some(m) => if cols.like.contains(m) {
            Some(HoverCol::Like)
        } else if cols.share.contains(m) {
            Some(HoverCol::Share)
        } else if cols.add.contains(m) {
            Some(HoverCol::Add)
        } else if text_hit(cols.album, album_widths(cells, rows, from, n), m) {
            Some(HoverCol::Album)
        } else {
            match shown(cells, ColKey::Artist) {
                Some(c) => if track_name_under(cells, body, top, rows, from, n, n as nat, m) {
                    Some(
                        HoverCol::Artist(
                            m.x.saturating_sub(body.x.saturating_add(low16(c.x as int))),
                        ),
                    )
                } else {
                    None
                },
                None => None,
            }
        },
    }
}

/// Record the columns of a track table that answer, clipped to the rows on
/// screen, and say which of them the pointer is in.
///
/// One definition for both places a track table is drawn, so the two cannot
/// come to disagree about where a control is.
#[verifier::rlimit(30)]
pub fn track_cells(
    scene: &mut Scene,
    layout: &Layout,
    body: Rect,
    top: u16,
    rows: &SortedList<Track>,
    from: usize,
    n: usize,
    mouse: Option<Position>,
) -> (hover: Option<HoverCol>)
    requires
        rows.wf(),
        from + n <= rows.display@.len(),
    ensures
        final(scene)@ == cells_recorded(old(scene)@, layout.cells@, body, top, *rows, from, n),
        hover == cell_under(layout.cells@, body, top, *rows, from, n, mouse),
{
    let actions = layout.cell(ColKey::Actions);
    let like = column(actions, 0, LIKE_W, body, top, n);
    let share = column(actions, 3, SHARE_W, body, top, n);
    let add = column(actions, 6, ADD_W, body, top, n);
    scene.hit(like, Target::LikeColumn);
    scene.hit(share, Target::ShareColumn);
    scene.hit(add, Target::AddColumn);
    let artist = layout.cell(ColKey::Artist);
    let artist_w: usize = layout.width_of(ColKey::Artist);
    let album = layout.cell(ColKey::Album);
    let album_w: usize = layout.width_of(ColKey::Album);
    let names = column(artist, 0, artist_w, body, top, n);
    let len: usize = rows.len();
    let ghost c = scene@;
    let mut widths: Vec<u16> = Vec::new();
    let mut named: bool = false;
    let mut k: usize = 0;
    while k < n
        invariant
            k <= n,
            len == rows.display@.len(),
            rows.wf(),
            from + n <= rows.display@.len(),
            artist_w == shown_width(layout.cells@, ColKey::Artist),
            album_w == shown_width(layout.cells@, ColKey::Album),
            names == column_rect(
                shown(layout.cells@, ColKey::Artist),
                0,
                artist_w,
                body,
                top,
                n,
            ),
            scene@ == tracks_linked(c, layout.cells@, body, top, *rows, from, n, k as nat),
            named == (mouse matches Some(m) && track_name_under(
                layout.cells@,
                body,
                top,
                *rows,
                from,
                n,
                k as nat,
                m,
            )),
            widths@.len() == k,
            forall|j: int|
                0 <= j < k ==> #[trigger] widths@[j] == ink_w(
                    track_at(*rows, from, j).album@,
                    album_w,
                ),
        decreases n - k,
    {
        let t = rows.at(from + k);
        let cell = names.intersection(
            Rect {
                x: body.x,
                y: top.saturating_add(low_half(k)),
                width: body.width,
                height: 1,
            },
        );
        let (_text, runs) = credit_line(&t.credits, artist_w);
        credit_links(cell, &runs, Names::Track, scene);
        if link_under(cell, &runs, mouse) {
            named = true;
        }
        widths.push(printed_w(t.album.as_str(), album_w));
        k = k + 1;
    }
    let rect = column(album, 0, album_w, body, top, n);
    assert(widths@ =~= album_widths(layout.cells@, *rows, from, n));
    let col = TextCol { rect, widths };
    let m = match mouse {
        Some(m) => m,
        None => {
            scene.put(Op::AlbumColumn { area: rect, widths: col.widths });
            return None;
        },
    };
    let on_album: bool = col.hit(m);
    scene.put(Op::AlbumColumn { area: rect, widths: col.widths });
    if like.contains(m) {
        Some(HoverCol::Like)
    } else if share.contains(m) {
        Some(HoverCol::Share)
    } else if add.contains(m) {
        Some(HoverCol::Add)
    } else if on_album {
        Some(HoverCol::Album)
    } else {
        match artist {
            Some(c) => if named {
                let x: u16 = body.x.saturating_add(low_half(c.x));
                Some(HoverCol::Artist(m.x.saturating_sub(x)))
            } else {
                None
            },
            None => None,
        }
    }
}

/// Whether a name that leads somewhere is under the pointer.
fn link_under(cell: Rect, runs: &Vec<CreditRun>, mouse: Option<Position>) -> (r: bool)
    ensures
        r == (mouse matches Some(m) && run_under(cell, runs@, m, 0) is Some),
{
    let at = match mouse {
        Some(at) => at,
        None => return false,
    };
    let mut i: usize = 0;
    while i < runs.len()
        invariant
            i <= runs@.len(),
            run_under(cell, runs@, at, 0) == run_under(cell, runs@, at, i as int),
            mouse == Some(at),
        decreases runs@.len() - i,
    {
        if runs[i].credit.id.is_some() && credit_rect(cell, &runs[i]).contains(at) {
            return true;
        }
        i = i + 1;
    }
    false
}

/// The row a pointer is on, counted from the first row on screen.
pub open spec fn row_at(mouse: Option<Position>, top: u16, offset: usize) -> int {
    match mouse {
        Some(m) => offset + (m.y - top),
        None => -1,
    }
}

/// What of row `i` the pointer is on.
pub open spec fn hover_of(hover: Option<HoverCol>, row: int, i: int) -> Option<HoverCol> {
    if row == i {
        hover
    } else {
        None
    }
}

/// The columns that answer stay inside their table.
pub proof fn columns_stay_in_their_table(
    cells: Seq<Cell>,
    body: Rect,
    top: u16,
    n: usize,
    at: Position,
)
    ensures
        track_cols(cells, body, top, n).like.contains(at) ==> body.contains(at),
        track_cols(cells, body, top, n).share.contains(at) ==> body.contains(at),
        track_cols(cells, body, top, n).add.contains(at) ==> body.contains(at),
        track_cols(cells, body, top, n).album.contains(at) ==> body.contains(at),
{
}

/// The three controls of a row meet: no cell between two of them belongs to
/// neither, and none to both.
pub proof fn the_controls_meet(cells: Seq<Cell>, body: Rect, top: u16, n: usize)
    requires
        body.x + body.width <= u16::MAX,
        shown(cells, ColKey::Actions) matches Some(c) && c.x + ACTIONS_W <= body.width,
    ensures
        track_cols(cells, body, top, n).like.right() == track_cols(cells, body, top, n).share.x,
        track_cols(cells, body, top, n).share.right() == track_cols(cells, body, top, n).add.x,
        track_cols(cells, body, top, n).like.width == 3,
        track_cols(cells, body, top, n).share.width == 3,
        track_cols(cells, body, top, n).add.width == 3,
{
}

/// Row `i` of a track table.
pub open spec fn track_line(
    rows: SortedList<Track>,
    cells: Seq<Cell>,
    i: int,
    album: bool,
    playing: Option<usize>,
    index: usize,
    liked: Kept,
    hover: Option<HoverCol>,
    accent: u32,
) -> Seq<Run> {
    let t = rows.row(i);
    row_line(
        TrackRow {
            track: &t,
            no: track_no(&t, rows.display@[i], album),
            playing: playing == Some(i as usize),
            selected: i == index,
            liked: liked.of(t.uri@),
            hover,
            accent,
        },
        cells,
    )
}

pub fn track_row(
    rows: &SortedList<Track>,
    layout: &Layout,
    i: usize,
    album: bool,
    playing: Option<usize>,
    index: usize,
    liked: &Kept,
    hover: Option<HoverCol>,
    accent: u32,
) -> (line: Line)
    requires
        rows.wf(),
        i < rows.display@.len(),
    ensures
        line@ == track_line(
            *rows,
            layout.cells@,
            i as int,
            album,
            playing,
            index,
            *liked,
            hover,
            accent,
        ),
{
    let t = rows.at(i);
    let is_playing: bool = match playing {
        Some(p) => p == i,
        None => false,
    };
    let row = TrackRow {
        track: t,
        no: track_no(t, rows.display[i], album),
        playing: is_playing,
        selected: i == index,
        liked: liked.get(&t.uri),
        hover,
        accent,
    };
    row_spans(layout, &row)
}

/// Rows with the one under the pointer washed.
pub open spec fn lit_rows(rows: Seq<RowView>, hover: Option<usize>) -> Seq<RowView> {
    Seq::new(rows.len(), |i: int| row_of(rows[i].line, hover == Some(i as usize)))
}

/// The canvas with a scrolled table's rows and bar on it.
pub open spec fn rows_listed(
    c: Canvas,
    area: Rect,
    offset: usize,
    rows: Seq<RowView>,
    mouse: Option<Position>,
) -> Canvas {
    let len = rows.len() as usize;
    barred(
        c.push(
            OpView::List {
                id: ListId::Main,
                area,
                offset,
                rows: lit_rows(rows, row_under(area, offset, len, mouse)),
            },
        ),
        scroll_col(area),
        len,
        offset,
    )
}

/// Draw a scrolled table's rows and its bar. The rows come unwashed.
pub fn list_rows(
    scene: &mut Scene,
    area: Rect,
    offset: usize,
    rows: Vec<Row>,
    mouse: Option<Position>,
)
    requires
        forall|i: int| 0 <= i < rows@.len() ==> !(#[trigger] rows@[i]).wash,
    ensures
        final(scene)@ == rows_listed(old(scene)@, area, offset, rows_of(rows@), mouse),
{
    let len: usize = rows.len();
    let ghost plain = rows_of(rows@);
    let hover = hovered_row(area, offset, len, mouse);
    let mut rows = rows;
    if let Some(h) = hover {
        let line = rows[h].line.copy();
        rows.set(h, hover_row(line, true));
    }
    assert(rows_of(rows@) =~= lit_rows(plain, hover));
    scene.put(Op::List { id: ListId::Main, area, offset, rows });
    draw_scrollbar(scene, scroll_col(area), len, offset);
}

/// How many rows of a list of `len` are on screen from `offset` on.
#[verifier::allow_in_spec]
pub fn rows_shown(len: usize, offset: usize, height: u16) -> usize
    returns
        min_usize(len.saturating_sub(offset), height as usize),
{
    min_usize(len.saturating_sub(offset), height as usize)
}

/// Where the rows of a table go: under its header, where it has rows.
#[verifier::allow_in_spec]
pub fn table_rows(inner: Rect, len: usize) -> Rect
    returns
        (if len == 0 {
            inner
        } else {
            below_header(inner)
        }),
{
    if len == 0 {
        inner
    } else {
        below_header(inner)
    }
}

/// The rows of a track table.
pub open spec fn track_rows(
    rows: SortedList<Track>,
    cells: Seq<Cell>,
    album: bool,
    playing: Option<usize>,
    index: usize,
    liked: Kept,
    hover: Option<HoverCol>,
    hover_row: int,
    accent: u32,
) -> Seq<RowView> {
    Seq::new(
        rows.display@.len(),
        |i: int|
            row_of(
                track_line(
                    rows,
                    cells,
                    i,
                    album,
                    playing,
                    index,
                    liked,
                    hover_of(hover, hover_row, i),
                    accent,
                ),
                false,
            ),
    )
}

/// The cells of a track table in a pane.
pub open spec fn track_table_cells(rows: SortedList<Track>, inner: Rect, album: bool) -> Seq<Cell> {
    plan(track_columns(album), inner.width as usize, rows.items@.len() as usize).cells()
}

/// The canvas with a track table on it.
pub open spec fn track_table_drawn(
    c: Canvas,
    inner: Rect,
    rows: SortedList<Track>,
    index: usize,
    offset: usize,
    uri: Option<String>,
    liked: Kept,
    album: bool,
    pen: Pen,
) -> Canvas {
    let len = rows.display@.len() as usize;
    let cells = track_table_cells(rows, inner, album);
    let c = if len == 0 {
        c
    } else {
        header_drawn(c, cells, inner, Some(rows.sort), pen.mouse)
    };
    let area = table_rows(inner, len);
    let at = clamp_offset(offset, len, area.height as usize);
    let n = rows_shown(len, at, area.height);
    let c = cells_recorded(
        put_hit(c, area, Target::MainList),
        cells,
        area,
        area.y,
        rows,
        at,
        n,
    );
    rows_listed(
        c,
        area,
        at,
        track_rows(
            rows,
            cells,
            album,
            playing_row(rows, uri),
            index,
            liked,
            cell_under(cells, area, area.y, rows, at, n, pen.mouse),
            row_at(pen.mouse, area.y, at),
            pen.accent,
        ),
        pen.mouse,
    )
}

/// The track table: a header row and scrollable rows inside `inner`.
pub fn render_track_table(
    scene: &mut Scene,
    inner: Rect,
    rows: &SortedList<Track>,
    index: usize,
    offset: usize,
    uri: &Option<String>,
    liked: &Kept,
    album: bool,
    pen: Pen,
)
    requires
        rows.wf(),
    ensures
        final(scene)@ == track_table_drawn(
            old(scene)@,
            inner,
            *rows,
            index,
            offset,
            *uri,
            *liked,
            album,
            pen,
        ),
{
    let len: usize = rows.len();
    let cols = tracks(album);
    let layout = Layout::resolve(&cols, inner.width as usize, rows.items.len());
    if len > 0 {
        let _r = layout.draw_header(scene, inner, Some(rows.sort), pen.mouse);
    }
    let area = table_rows(inner, len);
    scene.hit(area, Target::MainList);
    let at: usize = clamp_offset(offset, len, area.height as usize);
    let n: usize = rows_shown(len, at, area.height);
    let hover = track_cells(scene, &layout, area, area.y, rows, at, n, pen.mouse);
    let playing = rows.position_of(uri);
    let ghost hrow = row_at(pen.mouse, area.y, at);
    let ghost want = track_rows(
        *rows,
        layout.cells@,
        album,
        playing,
        index,
        *liked,
        hover,
        hrow,
        pen.accent,
    );
    let mut out: Vec<Row> = Vec::new();
    let mut i: usize = 0;
    while i < len
        invariant
            i <= len,
            len == rows.display@.len(),
            rows.wf(),
            hrow == row_at(pen.mouse, area.y, at),
            want == track_rows(
                *rows,
                layout.cells@,
                album,
                playing,
                index,
                *liked,
                hover,
                hrow,
                pen.accent,
            ),
            out@.len() == i,
            forall|j: int| 0 <= j < i ==> (#[trigger] out@[j])@ == want[j],
        decreases len - i,
    {
        let here = if on_row(pen.mouse, area.y, at, i) { hover } else { None };
        let line = track_row(rows, &layout, i, album, playing, index, liked, here, pen.accent);
        out.push(hover_row(line, false));
        i = i + 1;
    }
    assert(rows_of(out@) =~= want);
    list_rows(scene, area, at, out, pen.mouse);
}

/// Whether the pointer is level with row `i`.
pub fn on_row(mouse: Option<Position>, top: u16, offset: usize, i: usize) -> (r: bool)
    ensures
        r == (row_at(mouse, top, offset) == i),
{
    match mouse {
        Some(m) => offset as i128 + (m.y as i128 - top as i128) == i as i128,
        None => false,
    }
}

/// A list's rows, first to last, without those that show nothing there is.
pub open spec fn present<T>(list: &SortedList<T>, n: nat) -> Seq<&T>
    decreases n,
{
    if n == 0 {
        Seq::empty()
    } else {
        let before = present(list, (n - 1) as nat);
        if list.display@[n - 1] < list.items@.len() {
            before.push(&list.row(n - 1))
        } else {
            before
        }
    }
}

/// Every row of a list, as it is shown.
pub open spec fn all_rows<T>(list: &SortedList<T>) -> Seq<&T> {
    present(list, list.display@.len())
}

/// A list whose every row shows an item drops none of them.
pub proof fn a_whole_list_shows_every_row<T>(list: &SortedList<T>, n: nat)
    requires
        list.wf(),
        n <= list.display@.len(),
    ensures
        present(list, n).len() == n,
        forall|i: int| 0 <= i < n ==> *(#[trigger] present(list, n)[i]) == list.row(i),
    decreases n,
{
    if n > 0 {
        a_whole_list_shows_every_row(list, (n - 1) as nat);
    }
}

pub fn rows_present<T>(list: &SortedList<T>) -> (rows: Vec<&T>)
    ensures
        rows@ == all_rows(list),
{
    let mut rows: Vec<&T> = Vec::new();
    let mut i: usize = 0;
    while i < list.display.len()
        invariant
            i <= list.display@.len(),
            rows@ == present(list, i as nat),
        decreases list.display@.len() - i,
    {
        let at: usize = list.display[i];
        if at < list.items.len() {
            rows.push(&list.items[at]);
        }
        i = i + 1;
    }
    rows
}

/// The canvas with a plain table on it: the header, a blank, and the rows.
pub open spec fn table_drawn(
    c: Canvas,
    inner: Rect,
    cells: Seq<Cell>,
    sort: Sort,
    offset: usize,
    rows: Seq<RowView>,
    mouse: Option<Position>,
) -> Canvas {
    let area = below_header(inner);
    rows_listed(
        put_hit(header_drawn(c, cells, inner, Some(sort), mouse), area, Target::MainList),
        area,
        clamp_offset(offset, rows.len() as usize, area.height as usize),
        rows,
        mouse,
    )
}

/// Draw a plain table. The rows come unwashed.
pub fn draw_table(
    scene: &mut Scene,
    inner: Rect,
    layout: &Layout,
    sort: Sort,
    offset: usize,
    rows: Vec<Row>,
    mouse: Option<Position>,
)
    requires
        forall|i: int| 0 <= i < rows@.len() ==> !(#[trigger] rows@[i]).wash,
    ensures
        final(scene)@ == table_drawn(
            old(scene)@,
            inner,
            layout.cells@,
            sort,
            offset,
            rows_of(rows@),
            mouse,
        ),
{
    let area = layout.draw_header(scene, inner, Some(sort), mouse);
    scene.hit(area, Target::MainList);
    let at: usize = clamp_offset(offset, rows.len(), area.height as usize);
    list_rows(scene, area, at, rows, mouse);
}

/// The rows of a table of playlists.
pub open spec fn playlist_rows(
    rows: Seq<&Playlist>,
    cells: Seq<Cell>,
    me: Option<String>,
    context: Option<String>,
    index: usize,
    accent: u32,
) -> Seq<RowView> {
    Seq::new(
        rows.len(),
        |i: int|
            row_of(
                row_line(
                    PlaylistRow {
                        playlist: rows[i],
                        me: &me,
                        playing: is_text(context, playlist_key_text(rows[i].id@)),
                        selected: i == index,
                        accent,
                    },
                    cells,
                ),
                false,
            ),
    )
}

/// The canvas with a table of playlists on it.
pub open spec fn playlist_table_drawn(
    c: Canvas,
    inner: Rect,
    rows: Seq<&Playlist>,
    sort: Sort,
    me: Option<String>,
    context: Option<String>,
    index: usize,
    offset: usize,
    pen: Pen,
) -> Canvas {
    let cells = plan(playlist_columns(), inner.width as usize, 0).cells();
    table_drawn(
        c,
        inner,
        cells,
        sort,
        offset,
        playlist_rows(rows, cells, me, context, index, pen.accent),
        pen.mouse,
    )
}

/// The playlists, one row each. `me` blanks the owner of those you own.
pub fn render_playlist_table(
    scene: &mut Scene,
    inner: Rect,
    rows: &Vec<&Playlist>,
    sort: Sort,
    me: &Option<String>,
    context: &Option<String>,
    index: usize,
    offset: usize,
    pen: Pen,
)
    ensures
        final(scene)@ == playlist_table_drawn(
            old(scene)@,
            inner,
            rows@,
            sort,
            *me,
            *context,
            index,
            offset,
            pen,
        ),
{
    let cols = playlists();
    let layout = Layout::resolve(&cols, inner.width as usize, 0);
    let ghost want = playlist_rows(rows@, layout.cells@, *me, *context, index, pen.accent);
    let mut out: Vec<Row> = Vec::new();
    let mut i: usize = 0;
    while i < rows.len()
        invariant
            i <= rows@.len(),
            want == playlist_rows(rows@, layout.cells@, *me, *context, index, pen.accent),
            out@.len() == i,
            forall|j: int| 0 <= j < i ==> (#[trigger] out@[j])@ == want[j],
        decreases rows@.len() - i,
    {
        let p: &Playlist = rows[i];
        let key = playlist_key(&p.id);
        let row = PlaylistRow {
            playlist: p,
            me,
            playing: some_text(context, &key),
            selected: i == index,
            accent: pen.accent,
        };
        out.push(hover_row(row_spans(&layout, &row), false));
        i = i + 1;
    }
    assert(rows_of(out@) =~= want);
    draw_table(scene, inner, &layout, sort, offset, out, pen.mouse);
}

/// The rows of a table of artists.
pub open spec fn artist_rows(rows: Seq<&ArtistItem>, cells: Seq<Cell>, index: usize) -> Seq<
    RowView,
> {
    Seq::new(
        rows.len(),
        |i: int|
            row_of(row_line(ArtistRow { artist: rows[i], selected: i == index }, cells), false),
    )
}

/// The canvas with a table of artists on it.
pub open spec fn artist_table_drawn(
    c: Canvas,
    inner: Rect,
    rows: Seq<&ArtistItem>,
    sort: Sort,
    index: usize,
    offset: usize,
    pen: Pen,
) -> Canvas {
    let cells = plan(artist_columns(), inner.width as usize, 0).cells();
    table_drawn(c, inner, cells, sort, offset, artist_rows(rows, cells, index), pen.mouse)
}

/// A table of artists.
pub fn render_artist_table(
    scene: &mut Scene,
    inner: Rect,
    rows: &Vec<&ArtistItem>,
    sort: Sort,
    index: usize,
    offset: usize,
    pen: Pen,
)
    ensures
        final(scene)@ == artist_table_drawn(
            old(scene)@,
            inner,
            rows@,
            sort,
            index,
            offset,
            pen,
        ),
{
    let cols = artists();
    let layout = Layout::resolve(&cols, inner.width as usize, 0);
    let ghost want = artist_rows(rows@, layout.cells@, index);
    let mut out: Vec<Row> = Vec::new();
    let mut i: usize = 0;
    while i < rows.len()
        invariant
            i <= rows@.len(),
            want == artist_rows(rows@, layout.cells@, index),
            out@.len() == i,
            forall|j: int| 0 <= j < i ==> (#[trigger] out@[j])@ == want[j],
        decreases rows@.len() - i,
    {
        let row = ArtistRow { artist: rows[i], selected: i == index };
        out.push(hover_row(row_spans(&layout, &row), false));
        i = i + 1;
    }
    assert(rows_of(out@) =~= want);
    draw_table(scene, inner, &layout, sort, offset, out, pen.mouse);
}

/// The rows of a table of countries or genres.
pub open spec fn facet_rows(rows: Seq<&RadioRow>, cells: Seq<Cell>, index: usize) -> Seq<RowView> {
    Seq::new(
        rows.len(),
        |i: int| row_of(row_line(FacetRow { row: rows[i], selected: i == index }, cells), false),
    )
}

/// The canvas with a table of countries, or of genres, on it.
pub open spec fn facet_table_drawn(
    c: Canvas,
    inner: Rect,
    rows: Seq<&RadioRow>,
    genres: bool,
    sort: Sort,
    index: usize,
    offset: usize,
    pen: Pen,
) -> Canvas {
    let label = if genres {
        "Genre"
    } else {
        "Country"
    };
    let cells = plan(facet_columns(label, !genres), inner.width as usize, 0).cells();
    table_drawn(c, inner, cells, sort, offset, facet_rows(rows, cells, index), pen.mouse)
}

/// A table of countries, or of genres, headed by what its rows are.
pub fn render_facet_table(
    scene: &mut Scene,
    inner: Rect,
    rows: &Vec<&RadioRow>,
    genres: bool,
    sort: Sort,
    index: usize,
    offset: usize,
    pen: Pen,
)
    ensures
        final(scene)@ == facet_table_drawn(
            old(scene)@,
            inner,
            rows@,
            genres,
            sort,
            index,
            offset,
            pen,
        ),
{
    let cols = facets(if genres { "Genre" } else { "Country" }, !genres);
    let layout = Layout::resolve(&cols, inner.width as usize, 0);
    let ghost want = facet_rows(rows@, layout.cells@, index);
    let mut out: Vec<Row> = Vec::new();
    let mut i: usize = 0;
    while i < rows.len()
        invariant
            i <= rows@.len(),
            want == facet_rows(rows@, layout.cells@, index),
            out@.len() == i,
            forall|j: int| 0 <= j < i ==> (#[trigger] out@[j])@ == want[j],
        decreases rows@.len() - i,
    {
        let row = FacetRow { row: rows[i], selected: i == index };
        out.push(hover_row(row_spans(&layout, &row), false));
        i = i + 1;
    }
    assert(rows_of(out@) =~= want);
    draw_table(scene, inner, &layout, sort, offset, out, pen.mouse);
}

/// Whether a station is among those kept.
pub open spec fn kept_station(favorites: Seq<Station>, uuid: Seq<char>) -> bool {
    exists|i: int| 0 <= i < favorites.len() && (#[trigger] favorites[i]).uuid@ == uuid
}

pub fn is_kept(favorites: &Vec<Station>, uuid: &String) -> (r: bool)
    ensures
        r == kept_station(favorites@, uuid@),
{
    let mut i: usize = 0;
    while i < favorites.len()
        invariant
            i <= favorites@.len(),
            forall|j: int| 0 <= j < i ==> (#[trigger] favorites@[j]).uuid@ != uuid@,
        decreases favorites@.len() - i,
    {
        if same_text(&favorites[i].uuid, uuid) {
            return true;
        }
        i = i + 1;
    }
    false
}

/// What the page of kept stations knows of what each is announcing.
pub struct NowBoard<'a> {
    /// What was found by asking.
    pub probed: &'a Vec<StationNow>,
    /// The station on the deck and what it is announcing: it says so already,
    /// so its row reads that.
    pub live: Option<(String, Option<String>)>,
}

/// The first reading of a station from `i` on.
pub open spec fn probed_of(probed: Seq<StationNow>, uuid: Seq<char>, i: int) -> Option<NowStatus>
    decreases probed.len() - i,
{
    if i < 0 || i >= probed.len() {
        None
    } else if probed[i].uuid@ == uuid {
        Some(probed[i].status)
    } else {
        probed_of(probed, uuid, i + 1)
    }
}

impl<'a> NowBoard<'a> {
    /// What is known of what a station is announcing.
    pub open spec fn of(&self, uuid: Seq<char>) -> Option<NowStatus> {
        match self.live {
            Some((on, title)) if on@ == uuid => match title {
                Some(t) => Some(NowStatus::Title(t)),
                None => Some(NowStatus::Quiet),
            },
            _ => probed_of(self.probed@, uuid, 0),
        }
    }

    pub fn status(&self, station: &Station) -> (r: Option<NowStatus>)
        ensures
            r == self.of(station.uuid@),
    {
        match &self.live {
            Some((on, title)) => if same_text(on, &station.uuid) {
                return match title {
                    Some(t) => Some(NowStatus::Title(t.clone())),
                    None => Some(NowStatus::Quiet),
                };
            },
            None => {},
        }
        let mut i: usize = 0;
        while i < self.probed.len()
            invariant
                i <= self.probed@.len(),
                probed_of(self.probed@, station.uuid@, 0) == probed_of(
                    self.probed@,
                    station.uuid@,
                    i as int,
                ),
                self.of(station.uuid@) == probed_of(self.probed@, station.uuid@, 0),
            decreases self.probed@.len() - i,
        {
            if same_text(&self.probed[i].uuid, &station.uuid) {
                return Some(self.probed[i].status.copy());
            }
            i = i + 1;
        }
        None
    }
}

/// What the board knows, where a page has one.
pub open spec fn announced(now: Option<&NowBoard>, uuid: Seq<char>) -> Option<NowStatus> {
    match now {
        Some(board) => board.of(uuid),
        None => None,
    }
}

/// The rows of a table of stations.
pub open spec fn station_rows(
    rows: Seq<&Station>,
    cells: Seq<Cell>,
    favorites: Seq<Station>,
    url: Option<String>,
    now: Option<&NowBoard>,
    index: usize,
    accent: u32,
) -> Seq<RowView> {
    Seq::new(
        rows.len(),
        |i: int|
            row_of(
                row_line(
                    StationRow {
                        station: rows[i],
                        saved: kept_station(favorites, rows[i].uuid@),
                        playing: is_text(url, rows[i].url@),
                        selected: i == index,
                        now: announced(now, rows[i].uuid@),
                        accent,
                    },
                    cells,
                ),
                false,
            ),
    )
}

/// The canvas with a table of stations on it.
pub open spec fn station_table_drawn(
    c: Canvas,
    inner: Rect,
    rows: Seq<&Station>,
    favorites: Seq<Station>,
    url: Option<String>,
    now: Option<&NowBoard>,
    sort: Sort,
    index: usize,
    offset: usize,
    pen: Pen,
) -> Canvas {
    let cells = plan(station_columns(now is Some), inner.width as usize, 0).cells();
    table_drawn(
        c,
        inner,
        cells,
        sort,
        offset,
        station_rows(rows, cells, favorites, url, now, index, pen.accent),
        pen.mouse,
    )
}

/// A table of stations: the same columns and marks wherever they are listed.
/// `now` is there on the page that asked what its stations are playing, and only
/// that page has a column for the answer.
pub fn render_station_table(
    scene: &mut Scene,
    inner: Rect,
    rows: &Vec<&Station>,
    favorites: &Vec<Station>,
    url: &Option<String>,
    now: Option<&NowBoard>,
    sort: Sort,
    index: usize,
    offset: usize,
    pen: Pen,
)
    ensures
        final(scene)@ == station_table_drawn(
            old(scene)@,
            inner,
            rows@,
            favorites@,
            *url,
            now,
            sort,
            index,
            offset,
            pen,
        ),
{
    let cols = stations(now.is_some());
    let layout = Layout::resolve(&cols, inner.width as usize, 0);
    let ghost want = station_rows(
        rows@,
        layout.cells@,
        favorites@,
        *url,
        now,
        index,
        pen.accent,
    );
    let mut out: Vec<Row> = Vec::new();
    let mut i: usize = 0;
    while i < rows.len()
        invariant
            i <= rows@.len(),
            want == station_rows(
                rows@,
                layout.cells@,
                favorites@,
                *url,
                now,
                index,
                pen.accent,
            ),
            out@.len() == i,
            forall|j: int| 0 <= j < i ==> (#[trigger] out@[j])@ == want[j],
        decreases rows@.len() - i,
    {
        let s: &Station = rows[i];
        let status = match now {
            Some(board) => board.status(s),
            None => None,
        };
        let row = StationRow {
            station: s,
            saved: is_kept(favorites, &s.uuid),
            playing: some_text(url, &s.url),
            selected: i == index,
            now: status,
            accent: pen.accent,
        };
        out.push(hover_row(row_spans(&layout, &row), false));
        i = i + 1;
    }
    assert(rows_of(out@) =~= want);
    draw_table(scene, inner, &layout, sort, offset, out, pen.mouse);
}

/// How many album rows answer: the rows filled, which are those left below the
/// offset, and no more than the pane is tall.
#[verifier::allow_in_spec]
pub fn albums_shown(len: usize, offset: usize, height: u16) -> u16
    returns
        min_usize(len.saturating_sub(offset), height as usize) as u16,
{
    min_usize(len.saturating_sub(offset), height as usize) as u16
}

/// Where the credit cell of album row `k` is.
pub open spec fn album_credit_cell(cells: Seq<Cell>, area: Rect, k: int) -> Rect {
    (Rect {
        x: match shown(cells, ColKey::Artist) {
            Some(c) => area.x.saturating_add(low16(c.x as int)),
            None => area.x,
        },
        y: area.y.saturating_add(low16(k)),
        width: low16(shown_width(cells, ColKey::Artist) as int),
        height: 1,
    }).intersection(area)
}

/// The canvas with the names credited on the first `k` album rows recorded.
pub open spec fn albums_linked(
    c: Canvas,
    cells: Seq<Cell>,
    area: Rect,
    rows: SortedList<AlbumItem>,
    from: usize,
    k: nat,
) -> Canvas
    decreases k,
{
    if k == 0 {
        c
    } else {
        let runs = artist_runs(cells, rows.row(from + k - 1).credits@);
        linked(
            albums_linked(c, cells, area, rows, from, (k - 1) as nat),
            album_credit_cell(cells, area, k - 1),
            runs,
            runs.len(),
            Names::Album,
        )
    }
}

/// Whether a name credited on one of the first `k` album rows is under `at`.
pub open spec fn album_name_under(
    cells: Seq<Cell>,
    area: Rect,
    rows: SortedList<AlbumItem>,
    from: usize,
    k: nat,
    at: Position,
) -> bool
    decreases k,
{
    if k == 0 {
        false
    } else {
        album_name_under(cells, area, rows, from, (k - 1) as nat, at) || run_under(
            album_credit_cell(cells, area, k - 1),
            artist_runs(cells, rows.row(from + k - 1).credits@),
            at,
            0,
        ) is Some
    }
}

/// The widths `n` album names print.
pub open spec fn name_widths(
    cells: Seq<Cell>,
    rows: SortedList<AlbumItem>,
    from: usize,
    n: u16,
) -> Seq<u16> {
    Seq::new(
        n as nat,
        |k: int| ink_w(rows.row(from + k).name@, shown_width(cells, ColKey::Album)),
    )
}

/// Where the album names answer.
pub open spec fn names_rect(cells: Seq<Cell>, area: Rect, n: u16) -> Rect {
    column_rect(
        shown(cells, ColKey::Album),
        0,
        shown_width(cells, ColKey::Album),
        area,
        area.y,
        n as usize,
    )
}

/// The canvas with what answers in an album table recorded.
pub open spec fn album_cells_recorded(
    c: Canvas,
    cells: Seq<Cell>,
    area: Rect,
    rows: SortedList<AlbumItem>,
    from: usize,
    n: u16,
) -> Canvas {
    albums_linked(
        c.push(
            OpView::AlbumColumn {
                area: names_rect(cells, area, n),
                widths: name_widths(cells, rows, from, n),
            },
        ),
        cells,
        area,
        rows,
        from,
        n as nat,
    )
}

/// What of an album table the pointer is on: a name that opens the album, and
/// a credited name, by its column inside the cell.
pub open spec fn album_under(
    cells: Seq<Cell>,
    area: Rect,
    rows: SortedList<AlbumItem>,
    from: usize,
    n: u16,
    mouse: Option<Position>,
) -> (bool, Option<HoverCol>) {
    match mouse {
        None => (false, None),
        Some(m) => (
            text_hit(names_rect(cells, area, n), name_widths(cells, rows, from, n), m),
            match shown(cells, ColKey::Artist) {
                Some(c) => if album_name_under(cells, area, rows, from, n as nat, m) {
                    Some(
                        HoverCol::Artist(
                            m.x.saturating_sub(area.x.saturating_add(low16(c.x as int))),
                        ),
                    )
                } else {
                    None
                },
                None => None,
            },
        ),
    }
}

/// Record the links of an album table, clipped to the rows on screen, and say
/// which of them the pointer is on.
#[verifier::rlimit(30)]
fn album_cells(
    scene: &mut Scene,
    layout: &Layout,
    area: Rect,
    rows: &SortedList<AlbumItem>,
    from: usize,
    n: u16,
    mouse: Option<Position>,
) -> (r: (bool, Option<HoverCol>))
    requires
        rows.wf(),
        from + n <= rows.display@.len(),
    ensures
        final(scene)@ == album_cells_recorded(old(scene)@, layout.cells@, area, *rows, from, n),
        r == album_under(layout.cells@, area, *rows, from, n, mouse),
{
    let name_w: usize = layout.width_of(ColKey::Album);
    let rect = column(layout.cell(ColKey::Album), 0, name_w, area, area.y, n as usize);
    let widths = album_name_widths(rows, from, n, name_w);
    assert(widths@ =~= name_widths(layout.cells@, *rows, from, n));
    let col = TextCol { rect, widths };
    let on_name: bool = match mouse {
        Some(m) => col.hit(m),
        None => false,
    };
    scene.put(Op::AlbumColumn { area: rect, widths: col.widths });
    let artist = layout.cell(ColKey::Artist);
    let artist_w: usize = layout.width_of(ColKey::Artist);
    let artist_x: u16 = match artist {
        Some(c) => area.x.saturating_add(low_half(c.x)),
        None => area.x,
    };
    let len: usize = rows.len();
    let ghost c = scene@;
    let mut named: bool = false;
    let mut k: u16 = 0;
    while k < n
        invariant
            k <= n,
            len == rows.display@.len(),
            rows.wf(),
            from + n <= rows.display@.len(),
            artist_w == shown_width(layout.cells@, ColKey::Artist),
            artist_x == (match shown(layout.cells@, ColKey::Artist) {
                Some(c) => area.x.saturating_add(low16(c.x as int)),
                None => area.x,
            }),
            scene@ == albums_linked(c, layout.cells@, area, *rows, from, k as nat),
            named == (mouse matches Some(m) && album_name_under(
                layout.cells@,
                area,
                *rows,
                from,
                k as nat,
                m,
            )),
        decreases n - k,
    {
        let a = rows.at(from + k as usize);
        let cell = (Rect {
            x: artist_x,
            y: area.y.saturating_add(k),
            width: low_half(artist_w),
            height: 1,
        }).intersection(area);
        let (_text, runs) = credit_line(&a.credits, artist_w);
        credit_links(cell, &runs, Names::Album, scene);
        if link_under(cell, &runs, mouse) {
            named = true;
        }
        k = k + 1;
    }
    let on_credit = match (mouse, artist) {
        (Some(m), Some(_)) => if named {
            Some(HoverCol::Artist(m.x.saturating_sub(artist_x)))
        } else {
            None
        },
        _ => None,
    };
    (on_name, on_credit)
}

fn album_name_widths(rows: &SortedList<AlbumItem>, from: usize, n: u16, name_w: usize) -> (widths:
    Vec<u16>)
    requires
        rows.wf(),
        from + n <= rows.display@.len(),
    ensures
        widths@.len() == n,
        forall|k: int|
            0 <= k < n ==> #[trigger] widths@[k] == ink_w(rows.row(from + k).name@, name_w),
{
    let len: usize = rows.len();
    let mut widths: Vec<u16> = Vec::new();
    let mut k: u16 = 0;
    while k < n
        invariant
            k <= n,
            len == rows.display@.len(),
            rows.wf(),
            from + n <= len,
            widths@.len() == k,
            forall|j: int|
                0 <= j < k ==> #[trigger] widths@[j] == ink_w(rows.row(from + j).name@, name_w),
        decreases n - k,
    {
        let a = rows.at(from + k as usize);
        widths.push(printed_w(a.name.as_str(), name_w));
        k = k + 1;
    }
    widths
}

/// The rows of an album table.
pub open spec fn album_rows(
    rows: SortedList<AlbumItem>,
    cells: Seq<Cell>,
    context: Option<String>,
    index: usize,
    under: (bool, Option<HoverCol>),
    hover_row: int,
    accent: u32,
) -> Seq<RowView> {
    Seq::new(
        rows.display@.len(),
        |i: int|
            row_of(
                row_line(
                    AlbumRow {
                        album: &rows.row(i),
                        playing: is_text(context, album_key_text(rows.row(i).id@)),
                        selected: i == index,
                        hovered: under.0 && hover_row == i,
                        hover: hover_of(under.1, hover_row, i),
                        accent,
                    },
                    cells,
                ),
                false,
            ),
    )
}

/// The canvas with an album table on it.
pub open spec fn album_table_drawn(
    c: Canvas,
    inner: Rect,
    rows: SortedList<AlbumItem>,
    context: Option<String>,
    index: usize,
    offset: usize,
    pen: Pen,
) -> Canvas {
    let len = rows.display@.len() as usize;
    let cells = plan(album_columns(), inner.width as usize, 0).cells();
    let c = if len == 0 {
        c
    } else {
        header_drawn(c, cells, inner, Some(rows.sort), pen.mouse)
    };
    let area = table_rows(inner, len);
    let at = clamp_offset(offset, len, area.height as usize);
    let n = albums_shown(len, at, area.height);
    rows_listed(
        album_cells_recorded(put_hit(c, area, Target::MainList), cells, area, rows, at, n),
        area,
        at,
        album_rows(
            rows,
            cells,
            context,
            index,
            album_under(cells, area, rows, at, n, pen.mouse),
            row_at(pen.mouse, area.y, at),
            pen.accent,
        ),
        pen.mouse,
    )
}

/// The album table: a header row and scrollable rows inside `inner`.
pub fn render_album_table(
    scene: &mut Scene,
    inner: Rect,
    rows: &SortedList<AlbumItem>,
    context: &Option<String>,
    index: usize,
    offset: usize,
    pen: Pen,
)
    requires
        rows.wf(),
    ensures
        final(scene)@ == album_table_drawn(
            old(scene)@,
            inner,
            *rows,
            *context,
            index,
            offset,
            pen,
        ),
{
    let len: usize = rows.len();
    let cols = albums();
    let layout = Layout::resolve(&cols, inner.width as usize, 0);
    if len > 0 {
        let _r = layout.draw_header(scene, inner, Some(rows.sort), pen.mouse);
    }
    let area = table_rows(inner, len);
    scene.hit(area, Target::MainList);
    let at: usize = clamp_offset(offset, len, area.height as usize);
    let n: u16 = albums_shown(len, at, area.height);
    let under = album_cells(scene, &layout, area, rows, at, n, pen.mouse);
    let ghost hrow = row_at(pen.mouse, area.y, at);
    let ghost want = album_rows(*rows, layout.cells@, *context, index, under, hrow, pen.accent);
    let mut out: Vec<Row> = Vec::new();
    let mut i: usize = 0;
    while i < len
        invariant
            i <= len,
            len == rows.display@.len(),
            rows.wf(),
            hrow == row_at(pen.mouse, area.y, at),
            want == album_rows(
                *rows,
                layout.cells@,
                *context,
                index,
                under,
                hrow,
                pen.accent,
            ),
            out@.len() == i,
            forall|j: int| 0 <= j < i ==> (#[trigger] out@[j])@ == want[j],
        decreases len - i,
    {
        let a = rows.at(i);
        let here: bool = on_row(pen.mouse, area.y, at, i);
        let key = album_key(&a.id);
        let row = AlbumRow {
            album: a,
            playing: some_text(context, &key),
            selected: i == index,
            hovered: under.0 && here,
            hover: if here { under.1 } else { None },
            accent: pen.accent,
        };
        out.push(hover_row(row_spans(&layout, &row), false));
        i = i + 1;
    }
    assert(rows_of(out@) =~= want);
    list_rows(scene, area, at, out, pen.mouse);
}

/// Row `i` of a track table is about the track at its `i`th place: it is
/// numbered by the album or by the list, marked where it plays, lit where it is
/// selected, and starred by what is known of that track.
pub proof fn a_track_table_lists_its_tracks_in_order(
    rows: SortedList<Track>,
    cells: Seq<Cell>,
    album: bool,
    playing: Option<usize>,
    index: usize,
    liked: Kept,
    hover: Option<HoverCol>,
    hover_row: int,
    accent: u32,
    i: int,
)
    requires
        0 <= i < rows.display@.len(),
    ensures
        ({
            let t = rows.items@[rows.display@[i] as int];
            let listed = track_rows(
                rows,
                cells,
                album,
                playing,
                index,
                liked,
                hover,
                hover_row,
                accent,
            );
            let row = TrackRow {
                track: &t,
                no: if album {
                    t.track_number
                } else if rows.display@[i] < u32::MAX {
                    (rows.display@[i] + 1) as u32
                } else {
                    u32::MAX
                },
                playing: playing == Some(i as usize),
                selected: i == index,
                liked: liked.of(t.uri@),
                hover: if hover_row == i {
                    hover
                } else {
                    None
                },
                accent,
            };
            &&& listed.len() == rows.display@.len()
            &&& listed[i].line == row_line(row, cells)
        }),
{
}

/// Row `i` of a table of playlists is about its `i`th playlist, and is marked
/// where the queue came out of that playlist.
pub proof fn a_playlist_table_lists_its_playlists_in_order(
    rows: Seq<&Playlist>,
    cells: Seq<Cell>,
    me: Option<String>,
    context: Option<String>,
    index: usize,
    accent: u32,
    i: int,
)
    requires
        0 <= i < rows.len(),
    ensures
        ({
            let listed = playlist_rows(rows, cells, me, context, index, accent);
            let row = PlaylistRow {
                playlist: rows[i],
                me: &me,
                playing: context matches Some(k) && k@ == "playlist:"@ + rows[i].id@,
                selected: i == index,
                accent,
            };
            &&& listed.len() == rows.len()
            &&& listed[i].line == row_line(row, cells)
        }),
{
}

/// Row `i` of a table of albums is about its `i`th album, and is marked where
/// the queue came out of that album.
pub proof fn an_album_table_lists_its_albums_in_order(
    rows: SortedList<AlbumItem>,
    cells: Seq<Cell>,
    context: Option<String>,
    index: usize,
    under: (bool, Option<HoverCol>),
    hover_row: int,
    accent: u32,
    i: int,
)
    requires
        0 <= i < rows.display@.len(),
    ensures
        ({
            let a = rows.items@[rows.display@[i] as int];
            let listed = album_rows(rows, cells, context, index, under, hover_row, accent);
            let row = AlbumRow {
                album: &a,
                playing: context matches Some(k) && k@ == "album:"@ + a.id@,
                selected: i == index,
                hovered: under.0 && i == hover_row,
                hover: if hover_row == i {
                    under.1
                } else {
                    None
                },
                accent,
            };
            &&& listed.len() == rows.display@.len()
            &&& listed[i].line == row_line(row, cells)
        }),
{
}

/// Row `i` of a table of artists, and of countries or genres, is about its `i`th
/// item.
pub proof fn plain_tables_list_their_items_in_order(
    artists: Seq<&ArtistItem>,
    facets: Seq<&RadioRow>,
    cells: Seq<Cell>,
    index: usize,
    i: int,
)
    ensures
        artist_rows(artists, cells, index).len() == artists.len(),
        facet_rows(facets, cells, index).len() == facets.len(),
        0 <= i < artists.len() ==> artist_rows(artists, cells, index)[i].line == row_line(
            ArtistRow { artist: artists[i], selected: index == i },
            cells,
        ),
        0 <= i < facets.len() ==> facet_rows(facets, cells, index)[i].line == row_line(
            FacetRow { row: facets[i], selected: index == i },
            cells,
        ),
{
}

/// Row `i` of a table of stations is about its `i`th station: starred where it
/// is among the saved ones, and marked where it is the one that is on.
#[verifier::rlimit(60)]
pub proof fn a_station_table_lists_its_stations_in_order(
    rows: Seq<&Station>,
    cells: Seq<Cell>,
    favorites: Seq<Station>,
    url: Option<String>,
    now: Option<&NowBoard>,
    index: usize,
    accent: u32,
    i: int,
)
    requires
        0 <= i < rows.len(),
    ensures
        ({
            let listed = station_rows(rows, cells, favorites, url, now, index, accent);
            exists|row: StationRow|
                {
                    &&& #[trigger] row_line(row, cells) == listed[i].line
                    &&& row.station == rows[i]
                    &&& row.saved <==> exists|k: int|
                        0 <= k < favorites.len() && (#[trigger] favorites[k]).uuid@ == rows[i].uuid@
                    &&& row.playing <==> (url matches Some(u) && u@ == rows[i].url@)
                    &&& row.selected <==> i == index
                    &&& row.accent == accent
                    &&& now is None ==> row.now is None
                    &&& now matches Some(board) ==> row.now == board.of(rows[i].uuid@)
                }
        }),
        station_rows(rows, cells, favorites, url, now, index, accent).len() == rows.len(),
{
    let listed = station_rows(rows, cells, favorites, url, now, index, accent);
    let row = StationRow {
        station: rows[i],
        saved: kept_station(favorites, rows[i].uuid@),
        playing: is_text(url, rows[i].url@),
        selected: i == index,
        now: announced(now, rows[i].uuid@),
        accent,
    };
    assert(row_line(row, cells) == listed[i].line);
}

/// What a station plays is what its own stream says while it is the one that is
/// on, and otherwise what it said when it was asked.
pub proof fn the_stream_that_is_on_speaks_for_itself(board: NowBoard, uuid: Seq<char>)
    ensures
        board.live matches Some((on, title)) ==> (on@ == uuid ==> board.of(uuid) == (match title {
            Some(t) => Some(NowStatus::Title(t)),
            None => Some(NowStatus::Quiet),
        })),
        !(board.live matches Some((on, title)) && on@ == uuid) ==> {
            &&& board.of(uuid) is None ==> forall|i: int|
                0 <= i < board.probed@.len() ==> (#[trigger] board.probed@[i]).uuid@ != uuid
            &&& board.of(uuid) matches Some(s) ==> exists|i: int|
                {
                    &&& 0 <= i < board.probed@.len()
                    &&& (#[trigger] board.probed@[i]).uuid@ == uuid
                    &&& board.probed@[i].status == s
                }
        },
{
    lemma_probed(board.probed@, uuid, 0);
}

proof fn lemma_probed(probed: Seq<StationNow>, uuid: Seq<char>, n: int)
    requires
        0 <= n <= probed.len(),
    ensures
        probed_of(probed, uuid, n) is None ==> forall|i: int|
            n <= i < probed.len() ==> (#[trigger] probed[i]).uuid@ != uuid,
        probed_of(probed, uuid, n) matches Some(s) ==> exists|i: int|
            {
                &&& n <= i < probed.len()
                &&& (#[trigger] probed[i]).uuid@ == uuid
                &&& probed[i].status == s
            },
    decreases probed.len() - n,
{
    if n < probed.len() && probed[n].uuid@ != uuid {
        lemma_probed(probed, uuid, n + 1);
    }
}

/// A list is drawn from the row it is scrolled to, with the row under the
/// pointer lit and no other, and a scrollbar where it holds more than it shows.
pub proof fn a_list_is_drawn_as_it_is_scrolled(
    c: Canvas,
    area: Rect,
    offset: usize,
    rows: Seq<RowView>,
    mouse: Option<Position>,
)
    requires
        rows.len() <= usize::MAX,
    ensures
        ({
            let d = rows_listed(c, area, offset, rows, mouse);
            &&& d.len() > c.len()
            &&& d.take(c.len() as int) == c
            &&& d[c.len() as int] matches OpView::List { id, area: at, offset: from, rows: shown } && id
                == ListId::Main && at == area && from == offset && shown.len() == rows.len() && (
            forall|i: int|
                0 <= i < rows.len() ==> (#[trigger] shown[i]).line == rows[i].line && (shown[i].wash
                    <==> (mouse matches Some(m) && area.contains(m) && i == offset + (m.y
                    - area.y))))
            &&& d.len() > c.len() + 1 <==> area.height > 0 && rows.len() > area.height
        }),
{
    let d = rows_listed(c, area, offset, rows, mouse);
    assert(d.take(c.len() as int) =~= c);
}

/// As many rows answer as are on screen: those left below the row the list is
/// scrolled to, and no more than there is room for.
pub proof fn rows_on_screen_are_counted(len: usize, offset: usize, height: u16)
    ensures
        rows_shown(len, offset, height) <= height,
        offset <= len ==> rows_shown(len, offset, height) + offset <= len,
        offset <= len ==> rows_shown(len, offset, height) == height || rows_shown(
            len,
            offset,
            height,
        ) + offset == len,
        offset > len ==> rows_shown(len, offset, height) == 0,
        albums_shown(len, offset, height) == rows_shown(len, offset, height),
{
}

/// The columns a pointer can act on lie where they are printed: from the row the
/// table starts on, for as many rows as it shows.
#[verifier::rlimit(60)]
pub proof fn acting_columns_lie_where_they_are_printed(
    cells: Seq<Cell>,
    body: Rect,
    n: usize,
    c: Cell,
)
    requires
        shown(cells, ColKey::Actions) == Some(c),
        c.x + ACTIONS_W <= body.width,
        n <= body.height,
        body.x + body.width <= u16::MAX,
        body.y + body.height <= u16::MAX,
    ensures
        ({
            let cols = track_cols(cells, body, body.y, n);
            let at = |dx: int| (Rect {
                x: (body.x + c.x + dx) as u16,
                y: body.y,
                width: 3,
                height: n as u16,
            });
            &&& cols.like == at(0)
            &&& cols.share == at(3)
            &&& cols.add == at(6)
        }),
{
}

/// The pointer acts on what it is over: the star, the share and the add on their
/// own columns, and nothing where there is no pointer.
pub proof fn the_pointer_acts_on_what_it_is_over(
    cells: Seq<Cell>,
    body: Rect,
    top: u16,
    rows: SortedList<Track>,
    from: usize,
    n: usize,
    m: Position,
)
    ensures
        ({
            let cols = track_cols(cells, body, top, n);
            let under = cell_under(cells, body, top, rows, from, n, Some(m));
            &&& cols.like.contains(m) ==> under == Some(HoverCol::Like)
            &&& cols.share.contains(m) && !cols.like.contains(m) ==> under == Some(HoverCol::Share)
            &&& cols.add.contains(m) && !cols.like.contains(m) && !cols.share.contains(m) ==> under
                == Some(HoverCol::Add)
            &&& under == Some(HoverCol::Like) ==> cols.like.contains(m)
            &&& under == Some(HoverCol::Share) ==> cols.share.contains(m)
            &&& under == Some(HoverCol::Add) ==> cols.add.contains(m)
            &&& under == Some(HoverCol::Album) ==> cols.album.contains(m)
            &&& cell_under(cells, body, top, rows, from, n, None) is None
            &&& row_at(Some(m), top, from) == from + (m.y - top)
        }),
{
}

/// An album's name answers as far as it is printed, and no further.
pub proof fn an_album_answers_as_far_as_it_is_printed(
    cells: Seq<Cell>,
    rows: SortedList<Track>,
    from: usize,
    n: usize,
    k: int,
    rect: Rect,
    at: Position,
)
    requires
        0 <= k < n,
        shown_width(cells, ColKey::Album) <= 0xFFFF,
    ensures
        ({
            let t = rows.items@[rows.display@[from + k] as int];
            let w = shown_width(cells, ColKey::Album);
            &&& album_widths(cells, rows, from, n).len() == n
            &&& album_widths(cells, rows, from, n)[k] == cells_in(
                trimmed(fitted(t.album@, w as nat)),
            )
        }),
        text_hit(rect, album_widths(cells, rows, from, n), at) ==> rect.contains(at),
{
    let t = rows.row(from + k);
    let w = shown_width(cells, ColKey::Album) as nat;
    lemma_blank_cells();
    lemma_fitted_cells(t.album@, w);
    lemma_trimmed_cells(fitted(t.album@, w));
}

/// The cells a text takes.
pub open spec fn cells_in(s: Seq<char>) -> nat {
    crate::text::cells(s)
}

} // verus!
