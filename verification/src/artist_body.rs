//! The scrolling list of an artist's page, as it lands on screen.

use vstd::prelude::*;
use vstd::string::*;

use crate::artist_page::{
    album_lines, owners, owners_of, page_lines, picture_at, picture_of, plan_lines, track_lines,
    ArtistLine, CARD_ART_H, CARD_ART_W, CARD_GAP, CARD_PLAY_ROW, MIN_CARD_TEXT_W,
};
use crate::band::{PLAY_PILL, SHUFFLE_PILL};
use crate::columns::{
    blank, headed, plan, row_line, scroll_col, track_columns, tracks, Cell, Layout,
};
use crate::geometry::{max_usize, over, Position, Rect};
use crate::rows::{
    cell_runs, cell_spans, ink_w, one, printed_w, toned, track_no, HoverCol, TrackRow,
};
use crate::scene::{
    put_hit, row_of, rows_of, run, Canvas, Line, ListId, Op, OpView, Picture, Row, RowView, Run,
    Scene, Strip, Target,
};
use crate::state::{clamp_offset, playing_row, AlbumItem, ArtistView, Kept, Pen, SortedList, Track};
use crate::table::{
    apply_selection, barred, draw_art_clipped, draw_scrollbar, hover_row, hover_style,
    hovered_row, lemma_prints_alone, lemma_prints_both, lemma_prints_first,
    lemma_same_texts_print, pictured, printed, row_under,
};
use crate::tables::{
    cell_under, cells_recorded, hover_of, on_row, row_at, track_cells, track_line, track_row,
};
use crate::tabs::{tab_segments, tabbed, Tab};
use crate::text::{
    a_narrow_text_takes_its_length, a_number_reads_back, copies, dec, decimal, digits_alone,
    fit, fitted, joined, low16, low_half, number_in, repeated, spaces, width, width_of,
};
use crate::theme;
use crate::theme::Style;

verus! {

/// What an album says under its name: every part that is known.
pub open spec fn meta_text(a: AlbumItem) -> Seq<char> {
    let tracks = decimal(a.track_count as nat) + " "@ + (if a.track_count == 1 {
        "track"@
    } else {
        "tracks"@
    });
    if a.track_count == 0 {
        a.release_year@
    } else if a.release_year@.len() == 0 {
        tracks
    } else {
        a.release_year@ + " · "@ + tracks
    }
}

/// "2006 · 10 tracks".
pub fn album_meta(a: &AlbumItem) -> (r: String)
    ensures
        r@ == meta_text(*a),
{
    if a.track_count == 0 {
        return a.release_year.clone();
    }
    let n = dec(a.track_count as u64);
    let head = joined(n.as_str(), " ");
    let tracks = joined(head.as_str(), if a.track_count == 1 { "track" } else { "tracks" });
    if a.release_year.as_str().unicode_len() == 0 {
        return tracks;
    }
    let year = joined(a.release_year.as_str(), " · ");
    joined(year.as_str(), tracks.as_str())
}

/// The narrowest text that seats both of a card's controls.
pub open spec fn pills_min() -> usize {
    width_of(PLAY_PILL@).saturating_add(1).saturating_add(width_of(SHUFFLE_PILL@))
}

/// The narrowest text that seats both of a card's controls; below it a card
/// keeps the play control alone.
pub fn card_pills_min_w() -> (w: usize)
    ensures
        w == pills_min(),
{
    width(PLAY_PILL).saturating_add(1).saturating_add(width(SHUFFLE_PILL))
}

/// What of a card the pointer is on.
#[derive(Debug, Clone, Copy, PartialEq, Eq, Structural)]
pub struct CardLit {
    pub name: bool,
    pub play: bool,
    pub shuffle: bool,
}

/// The controls of a card. They keep their own colours when the card is
/// selected: they are targets of their own.
pub open spec fn card_controls(
    indent: usize,
    text_w: usize,
    lit: CardLit,
    accent: u32,
) -> Seq<Run> {
    let ink = theme::accent(accent);
    let line = Seq::<Run>::empty().push(blank(indent)).push(
        run(
            PLAY_PILL@,
            if lit.play {
                hover_style(ink)
            } else {
                ink
            },
        ),
    );
    if text_w >= pills_min() {
        line.push(run(" "@, Style::plain())).push(
            run(
                SHUFFLE_PILL@,
                if lit.shuffle {
                    hover_style(ink)
                } else {
                    theme::dim()
                },
            ),
        )
    } else {
        line
    }
}

/// One line of a card: the name, what is known of it, then its controls, each
/// indented past the sleeve. The name carries the selection on its own.
pub open spec fn card_runs(
    a: AlbumItem,
    row: u16,
    indent: usize,
    text_w: usize,
    selected: bool,
    lit: CardLit,
    accent: u32,
) -> Seq<Run> {
    let pad = Seq::<Run>::empty().push(blank(indent));
    if row == 0 {
        toned(pad + cell_runs(a.name@, text_w, theme::text(), lit.name), selected)
    } else if row == 1 {
        pad.push(run(fitted(meta_text(a), text_w as nat), theme::dim()))
    } else if row == 2 {
        card_controls(indent, text_w, lit, accent)
    } else {
        pad
    }
}

/// One line of a card.
pub fn card_line(
    a: &AlbumItem,
    row: u16,
    indent: usize,
    text_w: usize,
    selected: bool,
    lit: CardLit,
    accent: u32,
) -> (line: Line)
    ensures
        line@ == card_runs(*a, row, indent, text_w, selected, lit, accent),
{
    let mut line = Line::empty();
    line.put(repeated(' ', indent), Style::plain());
    if row == 0 {
        line.extend(cell_spans(a.name.as_str(), text_w, theme::text(), lit.name));
        if selected {
            apply_selection(&mut line);
        }
    } else if row == 1 {
        let meta = album_meta(a);
        line.put(fit(meta.as_str(), text_w), theme::dim());
    } else if row == CARD_PLAY_ROW {
        let ink = theme::accent(accent);
        line.print(PLAY_PILL, if lit.play { hover_style(ink) } else { ink });
        if text_w >= card_pills_min_w() {
            line.print(" ", Style::plain());
            line.print(SHUFFLE_PILL, if lit.shuffle { hover_style(ink) } else { theme::dim() });
        }
    }
    line
}

/// How the list lies on the screen: the pane, how many top tracks and cards
/// there are, whether there is a strip of groups, and the scroll offset.
#[derive(Debug, Clone, Copy, PartialEq, Eq, Structural)]
pub struct Sheet {
    pub body: Rect,
    pub split: usize,
    pub cards: usize,
    pub strip: bool,
    pub at: usize,
}

impl Sheet {
    /// Whether the cards keep their sleeves.
    #[verifier::allow_in_spec]
    pub fn art(self) -> bool
        returns
            self.body.width >= 34,
    {
        self.body.width >= CARD_ART_W + CARD_GAP + MIN_CARD_TEXT_W
    }

    /// Cells the text of a card is indented.
    #[verifier::allow_in_spec]
    pub fn indent(self) -> u16
        returns
            (if self.art() {
                10u16
            } else {
                0u16
            }),
    {
        if self.art() {
            CARD_ART_W + CARD_GAP
        } else {
            0
        }
    }

    /// Cells the text of a card has.
    #[verifier::allow_in_spec]
    pub fn text_w(self) -> usize
        returns
            (self.body.width as usize).saturating_sub(self.indent() as usize),
    {
        (self.body.width as usize).saturating_sub(self.indent() as usize)
    }

    /// The line the records start on.
    #[verifier::allow_in_spec]
    pub fn cards_at(self) -> usize
        returns
            (if self.split > 0 {
                self.split.saturating_add(5)
            } else {
                0
            }),
    {
        if self.split > 0 {
            self.split.saturating_add(5)
        } else {
            0
        }
    }

    /// The first line of card `album`.
    pub open spec fn card(self, album: int) -> int {
        self.cards_at() + (if self.strip {
            4int
        } else {
            2int
        }) + album * 5
    }

    /// The screen row of a line, while it is on screen.
    pub open spec fn row(self, line: int) -> Option<u16> {
        if self.at <= line < self.at + self.body.height {
            Some(self.body.y.saturating_add((line - self.at) as u16))
        } else {
            None
        }
    }

    /// The strip of the screen a line is on: no rows of it, while it is off
    /// screen.
    pub open spec fn line_area(self, line: int) -> Rect {
        match self.row(line) {
            Some(y) => Rect { x: self.body.x, y, width: self.body.width, height: 1 },
            None => self.body.tall(0),
        }
    }

    /// Where `width` cells of row `row` of a card answer, `dx` cells into its
    /// text.
    pub open spec fn spot(self, album: int, row: int, dx: u16, width: u16) -> Rect {
        match self.row(self.card(album) + row) {
            Some(y) => (Rect {
                x: self.body.x.saturating_add(self.indent()).saturating_add(dx),
                y,
                width,
                height: 1,
            }).intersection(self.body),
            None => Rect::zero(),
        }
    }

    fn card_line_no(self, album: usize) -> (line: u128)
        ensures
            line == self.card(album as int),
    {
        self.cards_at() as u128 + (if self.strip { 4 } else { 2 }) + album as u128 * 5
    }

    fn row_of_line(self, line: u128) -> (y: Option<u16>)
        ensures
            y == self.row(line as int),
    {
        if line >= self.at as u128 && line - (self.at as u128) < self.body.height as u128 {
            Some(self.body.y.saturating_add((line - self.at as u128) as u16))
        } else {
            None
        }
    }

    fn area_of_line(self, line: u128) -> (r: Rect)
        ensures
            r == self.line_area(line as int),
    {
        match self.row_of_line(line) {
            Some(y) => Rect { x: self.body.x, y, width: self.body.width, height: 1 },
            None => self.body.tall(0),
        }
    }

    fn spot_at(self, album: usize, row: u16, dx: u16, width: u16) -> (r: Rect)
        ensures
            r == self.spot(album as int, row as int, dx, width),
    {
        match self.row_of_line(self.card_line_no(album) + row as u128) {
            Some(y) => (Rect {
                x: self.body.x.saturating_add(self.indent()).saturating_add(dx),
                y,
                width,
                height: 1,
            }).intersection(self.body),
            None => Rect::zero(),
        }
    }

    /// Where the controls of a card answer: its name as printed, the play
    /// control, and the shuffle control where there is room for it.
    pub open spec fn spots(self, a: AlbumItem, album: int) -> (Rect, Rect, Rect) {
        (
            self.spot(album, 0, 0, ink_w(a.name@, self.text_w())),
            self.spot(album, 2, 0, low16(width_of(PLAY_PILL@) as int)),
            if self.text_w() >= pills_min() {
                self.spot(
                    album,
                    2,
                    low16(width_of(PLAY_PILL@).saturating_add(1) as int),
                    low16(width_of(SHUFFLE_PILL@) as int),
                )
            } else {
                Rect::zero()
            },
        )
    }

    fn spots_of(self, a: &AlbumItem, album: usize) -> (r: (Rect, Rect, Rect))
        ensures
            r == self.spots(*a, album as int),
    {
        let text_w: usize = self.text_w();
        let name = self.spot_at(album, 0, 0, printed_w(a.name.as_str(), text_w));
        let play_w: usize = width(PLAY_PILL);
        let play = self.spot_at(album, CARD_PLAY_ROW, 0, low_half(play_w));
        let shuffle = if text_w >= card_pills_min_w() {
            self.spot_at(
                album,
                CARD_PLAY_ROW,
                low_half(play_w.saturating_add(1)),
                low_half(width(SHUFFLE_PILL)),
            )
        } else {
            Rect::zero()
        };
        (name, play, shuffle)
    }

    /// What of a card the pointer is on.
    pub open spec fn lit(self, a: AlbumItem, album: int, mouse: Option<Position>) -> CardLit {
        let (name, play, shuffle) = self.spots(a, album);
        CardLit {
            name: over(mouse, name),
            play: over(mouse, play),
            shuffle: over(mouse, shuffle),
        }
    }
}

/// Two cards never answer the same click.
pub proof fn cards_answer_apart(
    sheet: Sheet,
    a: int,
    b: int,
    row: int,
    other: int,
    dx: u16,
    width: u16,
    dx2: u16,
    width2: u16,
    at: Position,
)
    requires
        0 <= a,
        0 <= b,
        a != b,
        0 <= row < 5,
        0 <= other < 5,
        sheet.spot(a, row, dx, width).contains(at),
    ensures
        !sheet.spot(b, other, dx2, width2).contains(at),
{
}

/// The canvas with `area` recorded, where there is any of it.
pub open spec fn put_spot(c: Canvas, area: Rect, target: Target) -> Canvas {
    if area.is_empty() {
        c
    } else {
        put_hit(c, area, target)
    }
}

fn record_spot(scene: &mut Scene, area: Rect, target: Target)
    ensures
        final(scene)@ == put_spot(old(scene)@, area, target),
{
    if !area.is_empty() {
        scene.hit(area, target);
    }
}

/// The canvas with the controls of the first `n` cards recorded.
pub open spec fn cards_recorded(
    c: Canvas,
    sheet: Sheet,
    albums: SortedList<AlbumItem>,
    n: nat,
) -> Canvas
    decreases n,
{
    if n == 0 {
        c
    } else {
        let album = n - 1;
        let (name, play, shuffle) = sheet.spots(albums.row(album), album);
        let row = sheet.split.saturating_add(album as usize);
        put_spot(
            put_spot(
                put_spot(
                    cards_recorded(c, sheet, albums, album as nat),
                    name,
                    Target::AlbumName(row),
                ),
                play,
                Target::CardPlay(row),
            ),
            shuffle,
            Target::CardShuffle(row),
        )
    }
}

/// What the pointer is on, card by card.
pub open spec fn cards_lit(
    sheet: Sheet,
    albums: SortedList<AlbumItem>,
    mouse: Option<Position>,
) -> Seq<CardLit> {
    Seq::new(albums.display@.len(), |i: int| sheet.lit(albums.row(i), i, mouse))
}

/// Record the controls of every card on screen, and say which are lit.
fn record_cards(
    scene: &mut Scene,
    sheet: Sheet,
    albums: &SortedList<AlbumItem>,
    mouse: Option<Position>,
) -> (lit: Vec<CardLit>)
    requires
        albums.wf(),
    ensures
        final(scene)@ == cards_recorded(old(scene)@, sheet, *albums, albums.display@.len()),
        lit@ == cards_lit(sheet, *albums, mouse),
{
    let ghost c = scene@;
    let mut lit: Vec<CardLit> = Vec::new();
    let mut i: usize = 0;
    while i < albums.display.len()
        invariant
            i <= albums.display@.len(),
            albums.wf(),
            scene@ == cards_recorded(c, sheet, *albums, i as nat),
            lit@.len() == i,
            forall|j: int|
                0 <= j < i ==> #[trigger] lit@[j] == sheet.lit(albums.row(j), j, mouse),
        decreases albums.display@.len() - i,
    {
        let (name, play, shuffle) = sheet.spots_of(albums.at(i), i);
        let row: usize = sheet.split.saturating_add(i);
        record_spot(scene, name, Target::AlbumName(row));
        record_spot(scene, play, Target::CardPlay(row));
        record_spot(scene, shuffle, Target::CardShuffle(row));
        lit.push(
            CardLit {
                name: over(mouse, name),
                play: over(mouse, play),
                shuffle: over(mouse, shuffle),
            },
        );
        i = i + 1;
    }
    assert(lit@ =~= cards_lit(sheet, *albums, mouse));
    lit
}

/// The rows of the top tracks on screen: the first, and how many.
pub open spec fn tracks_on_screen(sheet: Sheet) -> (int, int) {
    let from = if sheet.at > 4 {
        sheet.at as int
    } else {
        4
    };
    let to = if 4 + sheet.split < sheet.at + sheet.body.height {
        4 + sheet.split
    } else {
        sheet.at + sheet.body.height
    };
    (
        from - 4,
        if sheet.split == 0 || to < from {
            0
        } else {
            to - from
        },
    )
}

/// The screen row of the first top track on screen.
pub open spec fn tracks_top(sheet: Sheet) -> u16 {
    sheet.body.y.saturating_add((tracks_on_screen(sheet).0 + 4 - sheet.at) as u16)
}

/// The canvas with what answers in the track rows recorded, where any are on
/// screen.
pub open spec fn top_recorded(
    c: Canvas,
    sheet: Sheet,
    cells: Seq<Cell>,
    top: SortedList<Track>,
) -> Canvas {
    let (from, n) = tracks_on_screen(sheet);
    if n == 0 {
        c
    } else {
        cells_recorded(
            c,
            cells,
            sheet.body,
            tracks_top(sheet),
            top,
            from as usize,
            n as usize,
        )
    }
}

/// The cell of the track rows the pointer is in.
pub open spec fn top_under(
    sheet: Sheet,
    cells: Seq<Cell>,
    top: SortedList<Track>,
    mouse: Option<Position>,
) -> Option<HoverCol> {
    let (from, n) = tracks_on_screen(sheet);
    if n == 0 {
        None
    } else {
        cell_under(cells, sheet.body, tracks_top(sheet), top, from as usize, n as usize, mouse)
    }
}

fn record_top(
    scene: &mut Scene,
    sheet: Sheet,
    layout: &Layout,
    top: &SortedList<Track>,
    mouse: Option<Position>,
) -> (hover: Option<HoverCol>)
    requires
        top.wf(),
        sheet.split == top.display@.len(),
        sheet.split + 5 <= usize::MAX,
    ensures
        final(scene)@ == top_recorded(old(scene)@, sheet, layout.cells@, *top),
        hover == top_under(sheet, layout.cells@, *top, mouse),
{
    if sheet.split == 0 {
        return None;
    }
    let from: usize = max_usize(4, sheet.at);
    let end: u128 = sheet.at as u128 + sheet.body.height as u128;
    let to: u128 = if ((4 + sheet.split) as u128) < end { (4 + sheet.split) as u128 } else { end };
    if to <= from as u128 {
        return None;
    }
    let n: usize = (to - from as u128) as usize;
    let y: u16 = sheet.body.y.saturating_add((from - sheet.at) as u16);
    track_cells(scene, layout, sheet.body, y, top, from - 4, n, mouse)
}

/// What the lines of the list are drawn from.
pub struct Drawing {
    pub sheet: Sheet,
    pub cells: Seq<Cell>,
    /// The header of the track table, and the strip of groups.
    pub header: Seq<Run>,
    pub tabs: Seq<Run>,
    /// What of the track rows the pointer is on.
    pub hover: Option<HoverCol>,
    pub index: usize,
    pub playing: Option<usize>,
}

/// The runs of one line of the list.
pub open spec fn line_runs(
    line: ArtistLine,
    d: Drawing,
    v: ArtistView,
    liked: Kept,
    pen: Pen,
) -> Seq<Run> {
    match line {
        ArtistLine::TopHeading => one("Top Tracks"@, theme::text().bold()),
        ArtistLine::AlbumsHeading => one("Albums"@, theme::text().bold()),
        ArtistLine::TrackHeader => d.header,
        ArtistLine::Track(i) => track_line(
            v.top,
            d.cells,
            i as int,
            false,
            d.playing,
            d.index,
            liked,
            hover_of(d.hover, row_at(pen.mouse, d.sheet.body.y, d.sheet.at) - 4, i as int),
            pen.accent,
        ),
        ArtistLine::Tabs => d.tabs,
        ArtistLine::Card { album, row } => card_runs(
            v.albums.row(album as int),
            row,
            d.sheet.indent() as usize,
            d.sheet.text_w(),
            d.sheet.split.saturating_add(album) == d.index,
            d.sheet.lit(v.albums.row(album as int), album as int, pen.mouse),
            pen.accent,
        ),
        ArtistLine::Blank => Seq::empty(),
    }
}

/// The rows of the list. Only a track washes: a heading, a blank or a card is
/// not a row of a table.
pub open spec fn line_rows(
    lines: Seq<ArtistLine>,
    d: Drawing,
    v: ArtistView,
    liked: Kept,
    pen: Pen,
) -> Seq<RowView> {
    let wash = row_under(d.sheet.body, d.sheet.at, lines.len() as usize, pen.mouse);
    Seq::new(
        lines.len(),
        |k: int|
            row_of(
                line_runs(lines[k], d, v, liked, pen),
                lines[k] is Track && wash == Some(k as usize),
            ),
    )
}

/// Every line shows a track or a card there is.
pub open spec fn lines_fit(lines: Seq<ArtistLine>, v: ArtistView) -> bool {
    forall|k: int|
        0 <= k < lines.len() ==> match #[trigger] lines[k] {
            ArtistLine::Track(i) => i < v.top.display@.len(),
            ArtistLine::Card { album, .. } => album < v.albums.display@.len(),
            _ => true,
        }
}

proof fn lemma_lines_fit(v: ArtistView, strip: bool)
    ensures
        lines_fit(page_lines(v.top.display@.len(), v.albums.display@.len(), strip), v),
{
    let lines = page_lines(v.top.display@.len(), v.albums.display@.len(), strip);
    let a = track_lines(v.top.display@.len());
    assert forall|k: int| 0 <= k < lines.len() implies match #[trigger] lines[k] {
        ArtistLine::Track(i) => i < v.top.display@.len(),
        ArtistLine::Card { album, .. } => album < v.albums.display@.len(),
        _ => true,
    } by {
        if k < a.len() {
            assert(lines[k] == a[k]);
        } else {
            assert(lines[k] == album_lines(v.albums.display@.len(), strip)[k - a.len()]);
        }
    }
}

/// Draw one line of the list.
fn draw_line(
    line: ArtistLine,
    sheet: Sheet,
    layout: &Layout,
    header: &Line,
    tabs: &Line,
    hover: Option<HoverCol>,
    index: usize,
    playing: Option<usize>,
    lit: &Vec<CardLit>,
    v: &ArtistView,
    liked: &Kept,
    pen: Pen,
) -> (r: Line)
    requires
        v.top.wf(),
        v.albums.wf(),
        line matches ArtistLine::Track(i) ==> i < v.top.display@.len() && i + 4 <= usize::MAX,
        line matches ArtistLine::Card { album, .. } ==> album < v.albums.display@.len(),
        lit@ == cards_lit(sheet, v.albums, pen.mouse),
    ensures
        r@ == line_runs(
            line,
            (Drawing {
                sheet,
                cells: layout.cells@,
                header: header@,
                tabs: tabs@,
                hover,
                index,
                playing,
            }),
            *v,
            *liked,
            pen,
        ),
{
    match line {
        ArtistLine::TopHeading => Line::of("Top Tracks".to_owned(), theme::text().bold()),
        ArtistLine::AlbumsHeading => Line::of("Albums".to_owned(), theme::text().bold()),
        ArtistLine::TrackHeader => header.copy(),
        ArtistLine::Track(i) => {
            let here = if on_row(pen.mouse, sheet.body.y, sheet.at, i + 4) { hover } else { None };
            track_row(&v.top, layout, i, false, playing, index, liked, here, pen.accent)
        },
        ArtistLine::Tabs => tabs.copy(),
        ArtistLine::Card { album, row } => card_line(
            v.albums.at(album),
            row,
            sheet.indent() as usize,
            sheet.text_w(),
            sheet.split.saturating_add(album) == index,
            lit[album],
            pen.accent,
        ),
        ArtistLine::Blank => Line::empty(),
    }
}

/// Draw every line of the list.
fn draw_lines(
    lines: &Vec<ArtistLine>,
    sheet: Sheet,
    layout: &Layout,
    header: &Line,
    tabs: &Line,
    hover: Option<HoverCol>,
    index: usize,
    playing: Option<usize>,
    lit: &Vec<CardLit>,
    v: &ArtistView,
    liked: &Kept,
    pen: Pen,
) -> (rows: Vec<Row>)
    requires
        v.top.wf(),
        v.albums.wf(),
        lines_fit(lines@, *v),
        v.top.display@.len() + 5 <= usize::MAX,
        lit@ == cards_lit(sheet, v.albums, pen.mouse),
    ensures
        rows_of(rows@) == line_rows(
            lines@,
            (Drawing {
                sheet,
                cells: layout.cells@,
                header: header@,
                tabs: tabs@,
                hover,
                index,
                playing,
            }),
            *v,
            *liked,
            pen,
        ),
{
    let ghost d = Drawing {
        sheet,
        cells: layout.cells@,
        header: header@,
        tabs: tabs@,
        hover,
        index,
        playing,
    };
    let wash = hovered_row(sheet.body, sheet.at, lines.len(), pen.mouse);
    let ghost want = line_rows(lines@, d, *v, *liked, pen);
    let mut rows: Vec<Row> = Vec::new();
    let mut k: usize = 0;
    while k < lines.len()
        invariant
            k <= lines@.len(),
            v.top.wf(),
            v.albums.wf(),
            lines_fit(lines@, *v),
            v.top.display@.len() + 5 <= usize::MAX,
            lit@ == cards_lit(sheet, v.albums, pen.mouse),
            d == (Drawing {
                sheet,
                cells: layout.cells@,
                header: header@,
                tabs: tabs@,
                hover,
                index,
                playing,
            }),
            want == line_rows(lines@, d, *v, *liked, pen),
            wash == row_under(sheet.body, sheet.at, lines@.len() as usize, pen.mouse),
            rows@.len() == k,
            forall|j: int| 0 <= j < k ==> (#[trigger] rows@[j])@ == want[j],
        decreases lines@.len() - k,
    {
        let line = lines[k];
        let drawn = draw_line(
            line,
            sheet,
            layout,
            header,
            tabs,
            hover,
            index,
            playing,
            lit,
            v,
            liked,
            pen,
        );
        let washed: bool = match (line, wash) {
            (ArtistLine::Track(_), Some(w)) => w == k,
            _ => false,
        };
        rows.push(hover_row(drawn, washed));
        k = k + 1;
    }
    assert(rows_of(rows@) =~= want);
    rows
}

/// The canvas with the sleeve of card `album` on it, where the card is on
/// screen. A card that starts above the screen goes without one: its sleeve
/// would have to start where no cell is.
pub open spec fn sleeve_hung(c: Canvas, sheet: Sheet, a: AlbumItem, album: int) -> Canvas {
    let top = sheet.body.y + sheet.card(album) - sheet.at;
    if top + 4 <= sheet.body.y || top >= sheet.body.bottom() || top < 0 {
        c
    } else {
        pictured(
            c,
            Rect { x: sheet.body.x, y: top as u16, width: 8, height: 4 },
            sheet.body,
            picture_at(a.cover_url),
            a.id@,
        )
    }
}

/// The canvas with the sleeves of the first `n` cards on it.
pub open spec fn sleeves_hung(
    c: Canvas,
    sheet: Sheet,
    albums: SortedList<AlbumItem>,
    n: nat,
) -> Canvas
    decreases n,
{
    if n == 0 {
        c
    } else {
        sleeve_hung(
            sleeves_hung(c, sheet, albums, (n - 1) as nat),
            sheet,
            albums.row(n - 1),
            n - 1,
        )
    }
}

fn hang_sleeve(scene: &mut Scene, sheet: Sheet, a: &AlbumItem, album: usize)
    ensures
        final(scene)@ == sleeve_hung(old(scene)@, sheet, *a, album as int),
{
    let top: i128 = sheet.body.y as i128 + sheet.card_line_no(album) as i128 - sheet.at as i128;
    if top + 4 <= sheet.body.y as i128 || top >= sheet.body.bottom() as i128 || top < 0 {
        return;
    }
    let area = Rect { x: sheet.body.x, y: top as u16, width: CARD_ART_W, height: CARD_ART_H };
    draw_art_clipped(scene, area, sheet.body, picture_of(&a.cover_url), a.id.clone());
}

/// Hang the sleeves over the blanks the lines left for them, clipped to the
/// body so that a card scrolling off slides under its edge.
fn hang_sleeves(scene: &mut Scene, sheet: Sheet, albums: &SortedList<AlbumItem>)
    requires
        albums.wf(),
    ensures
        final(scene)@ == sleeves_hung(old(scene)@, sheet, *albums, albums.display@.len()),
{
    let ghost c = scene@;
    let mut i: usize = 0;
    while i < albums.display.len()
        invariant
            i <= albums.display@.len(),
            albums.wf(),
            scene@ == sleeves_hung(c, sheet, *albums, i as nat),
        decreases albums.display@.len() - i,
    {
        hang_sleeve(scene, sheet, albums.at(i), i);
        i = i + 1;
    }
}

/// The groups of records, as tabs.
pub open spec fn group_tabs(v: ArtistView) -> Seq<Tab> {
    Seq::new(v.tabs@.len(), |i: int| Tab::Artist(v.tabs@[i]))
}

fn tabs_of(v: &ArtistView) -> (r: Vec<Tab>)
    ensures
        r@ == group_tabs(*v),
{
    let mut r: Vec<Tab> = Vec::new();
    let mut i: usize = 0;
    while i < v.tabs.len()
        invariant
            i <= v.tabs@.len(),
            r@.len() == i,
            forall|j: int| 0 <= j < i ==> #[trigger] r@[j] == Tab::Artist(v.tabs@[j]),
        decreases v.tabs@.len() - i,
    {
        r.push(Tab::Artist(v.tabs[i]));
        i = i + 1;
    }
    assert(r@ =~= group_tabs(*v));
    r
}

/// The strip of groups on its line: one group is no choice, and has none.
pub open spec fn groups_laid(c: Canvas, sheet: Sheet, v: ArtistView, pen: Pen) -> Strip {
    if sheet.strip {
        tabbed(
            c,
            sheet.line_area(sheet.cards_at() + 2),
            group_tabs(v),
            v.tabs@.len(),
            Tab::Artist(v.tab),
            pen,
        )
    } else {
        Strip { line: Seq::empty(), x: sheet.body.x, canvas: c }
    }
}

fn lay_groups(scene: &mut Scene, sheet: Sheet, v: &ArtistView, pen: Pen) -> (line: Line)
    ensures
        line@ == groups_laid(old(scene)@, sheet, *v, pen).line,
        final(scene)@ == groups_laid(old(scene)@, sheet, *v, pen).canvas,
{
    if sheet.strip {
        let tabs = tabs_of(v);
        let row = sheet.area_of_line(sheet.cards_at() as u128 + 2);
        tab_segments(scene, row, &tabs, Tab::Artist(v.tab), pen)
    } else {
        Line::empty()
    }
}

/// Where the header of the track table is.
pub open spec fn table_head(sheet: Sheet) -> Rect {
    if sheet.split > 0 {
        sheet.line_area(2)
    } else {
        sheet.body.tall(0)
    }
}

/// How an artist's list lies on a screen.
pub open spec fn sheet_of(v: ArtistView, body: Rect, offset: usize) -> Sheet {
    let split = v.top.display@.len();
    let cards = v.albums.display@.len();
    let strip = v.tabs@.len() > 1;
    Sheet {
        body,
        split: split as usize,
        cards: cards as usize,
        strip,
        at: clamp_offset(
            offset,
            page_lines(split, cards, strip).len() as usize,
            body.height as usize,
        ),
    }
}

/// The lines of an artist's list.
pub open spec fn lines_in(v: ArtistView) -> Seq<ArtistLine> {
    page_lines(v.top.display@.len(), v.albums.display@.len(), v.tabs@.len() > 1)
}

/// The cells of the table of top tracks.
pub open spec fn top_cells(v: ArtistView, body: Rect) -> Seq<Cell> {
    plan(track_columns(false), body.width as usize, v.top.items@.len() as usize).cells()
}

/// The canvas with what answers in the list recorded, before its header.
pub open spec fn body_recorded(c: Canvas, sheet: Sheet, v: ArtistView, pen: Pen) -> Canvas {
    let c = put_hit(c, sheet.body, Target::MainList).push(
        OpView::LineRows { owners: owners(lines_in(v), sheet.split) },
    );
    let c = groups_laid(c, sheet, v, pen).canvas;
    let c = cards_recorded(c, sheet, v.albums, v.albums.display@.len());
    top_recorded(c, sheet, top_cells(v, sheet.body), v.top)
}

/// The canvas with an artist's list on it.
pub open spec fn artist_body_drawn(
    c: Canvas,
    body: Rect,
    v: ArtistView,
    index: usize,
    offset: usize,
    uri: Option<String>,
    liked: Kept,
    pen: Pen,
) -> Canvas {
    let sheet = sheet_of(v, body, offset);
    let cells = top_cells(v, body);
    let lines = lines_in(v);
    let h = headed(
        cells,
        cells.len(),
        Some(v.top.sort),
        table_head(sheet),
        pen.mouse,
        body_recorded(c, sheet, v, pen),
    );
    let d = Drawing {
        sheet,
        cells,
        header: h.line,
        tabs: groups_laid(c, sheet, v, pen).line,
        hover: top_under(sheet, cells, v.top, pen.mouse),
        index,
        playing: playing_row(v.top, uri),
    };
    let c = h.canvas.push(
        OpView::List {
            id: ListId::Main,
            area: body,
            offset: sheet.at,
            rows: line_rows(lines, d, v, liked, pen),
        },
    );
    barred(
        if sheet.art() {
            sleeves_hung(c, sheet, v.albums, v.albums.display@.len())
        } else {
            c
        },
        scroll_col(body),
        lines.len() as usize,
        sheet.at,
    )
}

/// A strip reads the same whatever was drawn before it.
proof fn lemma_tabs_line(
    c: Canvas,
    d: Canvas,
    row: Rect,
    tabs: Seq<Tab>,
    n: nat,
    active: Tab,
    pen: Pen,
)
    ensures
        tabbed(c, row, tabs, n, active, pen).line == tabbed(d, row, tabs, n, active, pen).line,
        tabbed(c, row, tabs, n, active, pen).x == tabbed(d, row, tabs, n, active, pen).x,
    decreases n,
{
    if n > 0 {
        lemma_tabs_line(c, d, row, tabs, (n - 1) as nat, active, pen);
    }
}

/// An artist's one scrolling list: the top tracks, then the records as cards.
pub fn artist_body(
    scene: &mut Scene,
    body: Rect,
    v: &ArtistView,
    index: usize,
    offset: usize,
    uri: &Option<String>,
    liked: &Kept,
    pen: Pen,
)
    requires
        v.top.wf(),
        v.albums.wf(),
    ensures
        final(scene)@ == artist_body_drawn(
            old(scene)@,
            body,
            *v,
            index,
            offset,
            *uri,
            *liked,
            pen,
        ),
{
    let ghost c = scene@;
    scene.hit(body, Target::MainList);
    let split: usize = v.top.len();
    let cards: usize = v.albums.len();
    let strip: bool = v.tabs.len() > 1;
    let cols = tracks(false);
    let layout = Layout::resolve(&cols, body.width as usize, v.top.items.len());
    let lines = plan_lines(split, cards, strip);
    let len: usize = lines.len();
    let at: usize = clamp_offset(offset, len, body.height as usize);
    let sheet = Sheet { body, split, cards, strip, at };
    assert(sheet == sheet_of(*v, body, offset));
    proof {
        lemma_lines_fit(*v, strip);
        if split > 0 {
            assert(lines@.len() >= track_lines(split as nat).len());
        }
    }
    scene.put(Op::LineRows { owners: owners_of(&lines, split) });
    let ghost before = scene@;
    let tabs = lay_groups(scene, sheet, v, pen);
    proof {
        if strip {
            lemma_tabs_line(
                c,
                before,
                sheet.line_area(sheet.cards_at() + 2),
                group_tabs(*v),
                v.tabs@.len(),
                Tab::Artist(v.tab),
                pen,
            );
        }
    }
    let lit = record_cards(scene, sheet, &v.albums, pen.mouse);
    let hover = record_top(scene, sheet, &layout, &v.top, pen.mouse);
    assert(scene@ == body_recorded(c, sheet, *v, pen));
    let playing = v.top.position_of(uri);
    let head = if split > 0 { sheet.area_of_line(2) } else { body.tall(0) };
    let header = layout.header_line(Some(v.top.sort), head, pen.mouse, scene);
    let rows = draw_lines(
        &lines,
        sheet,
        &layout,
        &header,
        &tabs,
        hover,
        index,
        playing,
        &lit,
        v,
        liked,
        pen,
    );
    scene.put(Op::List { id: ListId::Main, area: body, offset: at, rows });
    if sheet.art() {
        hang_sleeves(scene, sheet, &v.albums);
    }
    draw_scrollbar(scene, scroll_col(body), len, at);
}

/// A card sheds its sleeve before its name is squeezed.
pub proof fn a_cards_text_outlives_its_sleeve(sheet: Sheet)
    ensures
        sheet.art() ==> sheet.text_w() >= MIN_CARD_TEXT_W,
        !sheet.art() ==> sheet.text_w() == sheet.body.width,
{
}

/// A card tells its album's year and how many tracks it has, each where it is
/// known.
pub proof fn a_card_tells_year_and_tracks(a: AlbumItem)
    ensures
        a.track_count == 0 ==> meta_text(a) == a.release_year@,
        a.track_count > 0 ==> exists|n: Seq<char>|
            {
                &&& #[trigger] digits_alone(n)
                &&& number_in(n) == a.track_count
                &&& meta_text(a) == (if a.release_year@.len() > 0 {
                    a.release_year@ + " · "@
                } else {
                    Seq::<char>::empty()
                }) + n + (if a.track_count == 1 {
                    " track"@
                } else {
                    " tracks"@
                })
            },
{
    reveal_strlit(" ");
    reveal_strlit("track");
    reveal_strlit("tracks");
    reveal_strlit(" track");
    reveal_strlit(" tracks");
    a_number_reads_back(a.track_count as nat);
    let n = decimal(a.track_count as nat);
    assert(digits_alone(n));
    if a.track_count > 0 {
        let head = if a.release_year@.len() > 0 {
            a.release_year@ + " · "@
        } else {
            Seq::<char>::empty()
        };
        let tail = if a.track_count == 1 {
            " track"@
        } else {
            " tracks"@
        };
        assert(meta_text(a) =~= head + n + tail);
    }
}

/// The rows of a card: its album's name, then what is told of it, then its
/// controls, all as far in as its sleeve reaches.
#[verifier::rlimit(60)]
pub proof fn a_card_prints_its_album(
    a: AlbumItem,
    row: u16,
    indent: usize,
    text_w: usize,
    selected: bool,
    lit: CardLit,
    accent: u32,
)
    ensures
        ({
            let text = printed(card_runs(a, row, indent, text_w, selected, lit, accent));
            let pad = spaces(indent as nat);
            &&& row == 0 && !lit.name ==> text == pad + fitted(a.name@, text_w as nat)
            &&& row == 1 ==> text == pad + fitted(meta_text(a), text_w as nat)
            &&& row == 2 && text_w >= pills_min() ==> text == pad + "▶ play ▶ shuffle"@
            &&& row == 2 && text_w < pills_min() ==> text == pad + "▶ play"@
            &&& row > 2 ==> text == pad
        }),
{
    reveal_strlit(" ");
    reveal_strlit("▶ play");
    reveal_strlit("▶ shuffle");
    reveal_strlit("▶ play ▶ shuffle");
    let first = Seq::<Run>::empty().push(blank(indent));
    lemma_prints_alone(first);
    assert(copies(' ', indent as nat) =~= spaces(indent as nat));
    if row == 0 {
        let cell = cell_runs(a.name@, text_w, theme::text(), lit.name);
        if !lit.name {
            lemma_prints_alone(cell);
        }
        lemma_prints_both(first, cell);
        lemma_same_texts_print(first + cell, toned(first + cell, selected));
    } else if row == 1 {
        let line = first.push(run(fitted(meta_text(a), text_w as nat), theme::dim()));
        assert(line.drop_last() =~= first);
    } else if row == 2 {
        let r = card_controls(indent, text_w, lit, accent);
        lemma_prints_first(r, 2);
        lemma_prints_first(r, 1);
        assert(printed(r.take(0)) =~= Seq::<char>::empty());
        if text_w >= pills_min() {
            lemma_prints_first(r, 4);
            lemma_prints_first(r, 3);
            assert(r.take(4) =~= r);
            assert(printed(r) =~= spaces(indent as nat) + "▶ play ▶ shuffle"@);
        } else {
            assert(r.take(2) =~= r);
            assert(printed(r) =~= spaces(indent as nat) + "▶ play"@);
        }
    }
}

/// The lines of an artist's page say what they are: headings over the tracks and
/// the records, each track its own row, and each row of a card its album's.
#[verifier::rlimit(60)]
pub proof fn a_line_says_its_part(line: ArtistLine, d: Drawing, v: ArtistView, liked: Kept, pen: Pen)
    ensures
        ({
            let runs = line_runs(line, d, v, liked, pen);
            &&& line is TopHeading ==> printed(runs) == "Top Tracks"@
            &&& line is AlbumsHeading ==> printed(runs) == "Albums"@
            &&& line is Blank ==> runs.len() == 0
            &&& line matches ArtistLine::Card { album, row } ==> runs == card_runs(
                v.albums.items@[v.albums.display@[album as int] as int],
                row,
                d.sheet.indent() as usize,
                d.sheet.text_w(),
                d.index == d.sheet.split.saturating_add(album),
                d.sheet.lit(
                    v.albums.items@[v.albums.display@[album as int] as int],
                    album as int,
                    pen.mouse,
                ),
                pen.accent,
            )
            &&& line matches ArtistLine::Track(i) ==> exists|row: TrackRow|
                {
                    &&& #[trigger] row_line(row, d.cells) == runs
                    &&& *row.track == v.top.items@[v.top.display@[i as int] as int]
                    &&& row.selected <==> i == d.index
                    &&& row.playing <==> d.playing == Some(i)
                    &&& row.liked == liked.of(
                        v.top.items@[v.top.display@[i as int] as int].uri@,
                    )
                }
        }),
{
    lemma_prints_alone(one("Top Tracks"@, theme::text().bold()));
    lemma_prints_alone(one("Albums"@, theme::text().bold()));
    if let ArtistLine::Track(i) = line {
        let t = v.top.row(i as int);
        let row = TrackRow {
            track: &t,
            no: track_no(&t, v.top.display@[i as int], false),
            playing: d.playing == Some(i),
            selected: i == d.index,
            liked: liked.of(t.uri@),
            hover: hover_of(
                d.hover,
                row_at(pen.mouse, d.sheet.body.y, d.sheet.at) - 4,
                i as int,
            ),
            accent: pen.accent,
        };
        assert(row_line(row, d.cells) == line_runs(line, d, v, liked, pen));
    }
}

/// What a card answers to is its own album's, counted behind the tracks: its
/// name opens it, and its two controls play and shuffle it.
pub proof fn a_card_answers_to_its_album(
    c: Canvas,
    sheet: Sheet,
    albums: SortedList<AlbumItem>,
    n: nat,
    i: int,
)
    requires
        sheet.split + n <= usize::MAX,
        c.len() <= i < cards_recorded(c, sheet, albums, n).len(),
    ensures
        exists|k: int|
            0 <= k < n && #[trigger] card_op(cards_recorded(c, sheet, albums, n)[i], sheet, albums, k),
    decreases n,
{
    if n > 0 {
        let k = n - 1;
        let b = cards_recorded(c, sheet, albums, k as nat);
        let d = cards_recorded(c, sheet, albums, n);
        if i < b.len() {
            a_card_answers_to_its_album(c, sheet, albums, k as nat, i);
            assert(d[i] == b[i]);
        } else {
            assert(card_op(d[i], sheet, albums, k));
        }
    }
}

/// Whether an entry records one of the three controls of card `k`.
pub open spec fn card_op(op: OpView, sheet: Sheet, albums: SortedList<AlbumItem>, k: int) -> bool {
    let (name, play, shuffle) = sheet.spots(albums.items@[albums.display@[k] as int], k);
    let row = (sheet.split + k) as usize;
    ||| op == OpView::Hit { area: name, target: Target::AlbumName(row) }
    ||| op == OpView::Hit { area: play, target: Target::CardPlay(row) }
    ||| op == OpView::Hit { area: shuffle, target: Target::CardShuffle(row) }
}

/// A card's sleeve is its own album's, and hangs beside its first four lines.
pub proof fn a_card_wears_its_own_sleeve(c: Canvas, sheet: Sheet, a: AlbumItem, album: int)
    ensures
        ({
            let d = sleeve_hung(c, sheet, a, album);
            d.len() > c.len() ==> (d.last() matches OpView::Art { area, clip, picture, seed } && area.x
                == sheet.body.x && area.y == sheet.body.y + sheet.card(album) - sheet.at && clip
                == sheet.body && seed == a.id@ && picture == (match a.cover_url {
                Some(u) => Picture::Page(u),
                None => Picture::Placeholder,
            }))
        }),
        0 <= sheet.body.y + sheet.card(album) - sheet.at < sheet.body.bottom() && sheet.card(album)
            + 4 > sheet.at && !sheet.body.is_empty() ==> sleeve_hung(c, sheet, a, album).len()
            == c.len() + 1,
{
}

/// The controls of a card lie where they are printed: its name on its first
/// line, and its two controls side by side on its third.
pub proof fn a_cards_controls_lie_where_they_are_printed(sheet: Sheet, a: AlbumItem, album: int)
    requires
        0 <= album,
        sheet.at <= sheet.card(album),
        sheet.card(album) + 2 < sheet.at + sheet.body.height,
        sheet.body.x + sheet.body.width <= u16::MAX,
        sheet.body.y + sheet.body.height <= u16::MAX,
        sheet.text_w() >= 16,
    ensures
        ({
            let (name, play, shuffle) = sheet.spots(a, album);
            let top = sheet.body.y + sheet.card(album) - sheet.at;
            let left = sheet.body.x + sheet.indent();
            &&& name.x == left && name.y == top
            &&& play == (Rect { x: left as u16, y: (top + 2) as u16, width: 6, height: 1 })
            &&& shuffle == (Rect { x: (left + 7) as u16, y: (top + 2) as u16, width: 9, height: 1 })
        }),
{
    reveal_strlit("▶ play");
    reveal_strlit("▶ shuffle");
    a_narrow_text_takes_its_length(PLAY_PILL@);
    a_narrow_text_takes_its_length(SHUFFLE_PILL@);
}

/// The tracks on screen are those whose lines are, from the first to the last.
pub proof fn the_tracks_on_screen_are_counted(sheet: Sheet, i: int)
    requires
        0 <= i < sheet.split,
    ensures
        ({
            let (from, n) = tracks_on_screen(sheet);
            from <= i < from + n <==> sheet.at <= 4 + i < sheet.at + sheet.body.height
        }),
{
}

} // verus!
