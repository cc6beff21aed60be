//! The browse pages, their header, and the whole screen.

#![allow(dead_code)]

use ratatui::buffer::{Buffer, Cell};
use ratatui::layout::{Alignment, Rect as TuiRect};
use ratatui::style::{Color, Modifier, Style as TuiStyle};
use ratatui::text::{Line as TuiLine, Span as TuiSpan};
use ratatui::widgets::{
    Block, BorderType, Borders, Clear, List, ListItem, ListState, Paragraph, Scrollbar,
    ScrollbarOrientation, ScrollbarState, StatefulWidget, Widget, Wrap,
};

use spot_ui::columns::{albums, tracks, ColKey, Layout, GUTTER, PREFIX_W};
use spot_ui::deck::progress_line;
use spot_ui::geometry::{Position, Rect};
use spot_ui::scene::{Line, Op, Picture, Place, Scene, Target};
use spot_ui::state::{
    AlbumItem, AppState, ArtZoom, ArtistItem, ArtistTab, ArtistView, Credit, Crumb, CrumbTarget,
    Deck, HomeEntry, InputMode, Kept, ListHeader, LoadError, MainView, NowStatus, PageHeader,
    Pen, PickerRow, Playback, Playlist, PlaylistPicker, Queue, RadioPlayback, RadioRow,
    RadioTab, RadioView, SearchResults, SearchTab, Sort, SortedList, Station, StationNow, Toast,
    Track, TrackList, TrackListKind, UpdateState, Wear,
};
use spot_ui::table::{
    art_cells, art_w, ends_with_loading, placeholder, spinner_frame, ADD_MARK, BRAND_W,
    LIKED_MARK, SHARE_MARK, SPINNER_LEN,
};
use spot_ui::theme;

use spot_ui::theme::{accent_bright, Style};
use spot_ui::artist_page::holds_portrait;
use spot_ui::band::{format_total_duration, header_band, HeaderControls, ART_H};
use spot_ui::home::entry_rect;
use spot_ui::artist_body::album_meta;
use spot_ui::main_pane::{self, page_header};
use spot_ui::message::RETRY_PILL;
use spot_ui::screen::{draw, is_animating, BAR_H};
use spot_ui::tables::{albums_shown, TextCol};
use spot_ui::text::fit;
use spot_ui::top_row::{
    self, HEAD_H, MARK_GAP, MAX_QUERY_W, MIN_QUERY_W, NAV_H, PLACEHOLDER, SEARCH_H,
};

/// The side of a decoded cover, in pixels.
const COVER_PX: u32 = 64;

/// A decoded cover: the pixel at each column and row of it.
type Cover<'a> = Option<&'a dyn Fn(u32, u32) -> u32>;

/// A frame as a terminal shows it.
struct Shown {
    buf: Buffer,
    scene: Scene,
}

fn rgb(c: u32) -> Color {
    Color::Rgb((c >> 16) as u8, (c >> 8) as u8, c as u8)
}

fn tui_style(s: Style) -> TuiStyle {
    let mut out = TuiStyle::default();
    if let Some(c) = s.fg {
        out = out.fg(rgb(c));
    }
    if let Some(c) = s.bg {
        out = out.bg(rgb(c));
    }
    if s.bold {
        out = out.add_modifier(Modifier::BOLD);
    }
    if s.italic {
        out = out.add_modifier(Modifier::ITALIC);
    }
    out
}

fn tui_line(line: &Line) -> TuiLine<'static> {
    TuiLine::from(
        line.spans
            .iter()
            .map(|s| TuiSpan::styled(s.text.clone(), tui_style(s.style)))
            .collect::<Vec<_>>(),
    )
}

fn tui_rect(r: Rect, buf: &Buffer) -> TuiRect {
    TuiRect::new(r.x, r.y, r.width, r.height).intersection(buf.area)
}

fn paint_art(area: Rect, clip: Rect, seed: &str, cover: Cover, buf: &mut Buffer) {
    let (cols, rows) = (area.width as u32, area.height as u32 * 2);
    let (from, to) = placeholder(seed);
    let px: Vec<u32> = (0..rows)
        .flat_map(|y| (0..cols).map(move |x| (x, y)))
        .map(|(x, y)| match cover {
            Some(px) => px(x * COVER_PX / cols, y * COVER_PX / rows),
            None => if (x + y) % 2 == 0 { from } else { to },
        })
        .collect();
    for cell in art_cells(area, clip, &px, cover.is_none()) {
        if let Some(c) = buf.cell_mut((cell.at.x, cell.at.y)) {
            c.set_char(if cell.note { '♫' } else { '▀' })
                .set_style(TuiStyle::default().fg(rgb(cell.fg)).bg(rgb(cell.bg)));
        }
    }
}

fn paint(scene: &Scene, pen: &Pen, cover: Cover, buf: &mut Buffer) {
    for op in &scene.ops {
        match op {
            Op::Text { area, place, line } => {
                let alignment = match place {
                    Place::Left => Alignment::Left,
                    Place::Center => Alignment::Center,
                    Place::Right => Alignment::Right,
                };
                Paragraph::new(tui_line(line))
                    .alignment(alignment)
                    .render(tui_rect(*area, buf), buf);
            }
            Op::Lines { area, lines } => {
                Paragraph::new(lines.iter().map(tui_line).collect::<Vec<_>>())
                    .render(tui_rect(*area, buf), buf);
            }
            Op::Wrapped { area, line } => {
                Paragraph::new(tui_line(line))
                    .wrap(Wrap { trim: false })
                    .render(tui_rect(*area, buf), buf);
            }
            Op::List { area, offset, rows, .. } => {
                let area = tui_rect(*area, buf);
                let items: Vec<ListItem> = rows
                    .iter()
                    .map(|row| {
                        let item = ListItem::new(tui_line(&row.line));
                        if row.wash {
                            item.style(tui_style(theme::row_hover()))
                        } else {
                            item
                        }
                    })
                    .collect();
                let mut state = ListState::default().with_offset(*offset);
                if area.width > 0 && area.height > 0 {
                    StatefulWidget::render(List::new(items), area, buf, &mut state);
                }
            }
            Op::Fill { area, style } => {
                let area = tui_rect(*area, buf);
                buf.set_style(area, tui_style(*style));
            }
            Op::Clear { area } => Clear.render(tui_rect(*area, buf), buf),
            Op::Frame { area, title, style } => {
                Block::default()
                    .title(title.clone())
                    .borders(Borders::ALL)
                    .border_type(BorderType::Rounded)
                    .border_style(tui_style(*style))
                    .render(tui_rect(*area, buf), buf);
            }
            Op::Scrollbar { bar, len, offset } => {
                let viewport = bar.height as usize;
                let bar = tui_rect(*bar, buf);
                if bar.width > 0 && bar.height > 0 {
                    let mut state = ScrollbarState::new(len - viewport)
                        .position(*offset)
                        .viewport_content_length(viewport);
                    let scrollbar = Scrollbar::new(ScrollbarOrientation::VerticalRight)
                        .begin_symbol(None)
                        .end_symbol(None)
                        .track_symbol(Some("│"))
                        .thumb_symbol("█")
                        .track_style(tui_style(theme::dim()))
                        .thumb_style(tui_style(theme::text()));
                    StatefulWidget::render(scrollbar, bar, buf, &mut state);
                }
            }
            Op::Art { area, clip, picture, seed } => {
                let cover = match picture {
                    Picture::Playing | Picture::View | Picture::Page(_) => cover,
                    Picture::Placeholder => None,
                };
                paint_art(*area, *clip, seed, cover, buf);
            }
            Op::Progress { area, elapsed, remaining, width, progress_ms, duration_ms } => {
                let ratio = if *duration_ms > 0 {
                    (*progress_ms as f64 / *duration_ms as f64).clamp(0.0, 1.0)
                } else {
                    0.0
                };
                let exact = ratio * *width as f64;
                let filled = exact.floor() as u16;
                let half = exact - filled as f64 >= 0.5 && filled < *width;
                let line = progress_line(
                    elapsed.clone(),
                    remaining.clone(),
                    filled,
                    half,
                    *width,
                    pen.accent,
                );
                Paragraph::new(tui_line(&line)).render(tui_rect(*area, buf), buf);
            }
            Op::Spectrum { .. }
            | Op::Hit { .. }
            | Op::AlbumColumn { .. }
            | Op::SortKeys { .. }
            | Op::LineRows { .. } => {}
        }
    }
}

impl Shown {
    fn new(scene: Scene, pen: &Pen, width: u16, height: u16) -> Shown {
        Shown::with_cover(scene, pen, None, width, height)
    }

    fn with_cover(
        scene: Scene,
        pen: &Pen,
        cover: Cover,
        width: u16,
        height: u16,
    ) -> Shown {
        let mut buf = Buffer::empty(TuiRect::new(0, 0, width, height));
        paint(&scene, pen, cover, &mut buf);
        Shown { buf, scene }
    }

    fn cell(&self, x: u16, y: u16) -> &Cell {
        self.buf.cell((x, y)).expect("a cell of the screen")
    }

    fn lines(&self) -> Vec<String> {
        let area = self.buf.area;
        (0..area.height)
            .map(|y| (0..area.width).map(|x| self.cell(x, y).symbol()).collect())
            .collect()
    }

    /// What the cells of a block print.
    fn text_in(&self, r: Rect) -> String {
        (r.x..r.right()).map(|x| self.cell(x, r.y).symbol()).collect()
    }

    /// Where a target answers: the last record of it.
    fn at(&self, target: Target) -> Rect {
        self.all(|t| *t == target)
            .last()
            .map_or(Rect::zero(), |(r, _)| *r)
    }

    /// Every record that `f` picks.
    fn all(&self, f: impl Fn(&Target) -> bool) -> Vec<(Rect, Target)> {
        self.scene
            .ops
            .iter()
            .filter_map(|op| match op {
                Op::Hit { area, target } if f(target) => Some((*area, target.clone())),
                _ => None,
            })
            .collect()
    }

    fn crumbs(&self) -> Vec<(Rect, CrumbTarget)> {
        self.scene
            .ops
            .iter()
            .filter_map(|op| match op {
                Op::Hit { area, target: Target::Crumb(c) } => Some((*area, c.clone())),
                _ => None,
            })
            .collect()
    }

    /// The album cells of the table on screen.
    fn albums(&self) -> (Rect, Vec<u16>) {
        self.scene
            .ops
            .iter()
            .filter_map(|op| match op {
                Op::AlbumColumn { area, widths } => Some((*area, widths.clone())),
                _ => None,
            })
            .last()
            .unwrap_or((Rect::zero(), Vec::new()))
    }

    fn owners(&self) -> Vec<Option<usize>> {
        self.scene
            .ops
            .iter()
            .filter_map(|op| match op {
                Op::LineRows { owners } => Some(owners.clone()),
                _ => None,
            })
            .last()
            .unwrap_or_default()
    }

    fn offset(&self) -> usize {
        self.scene
            .ops
            .iter()
            .filter_map(|op| match op {
                Op::List { offset, .. } => Some(*offset),
                _ => None,
            })
            .last()
            .unwrap_or(0)
    }
}

fn pen_at(mouse: Option<Position>) -> Pen {
    Pen { accent: theme::ACCENT, pulse: theme::ACCENT, mouse, elapsed_ms: 0 }
}

fn screen_rect(width: u16, height: u16) -> Rect {
    Rect { x: 0, y: 0, width, height }
}

fn sorted<T>(items: Vec<T>) -> SortedList<T> {
    let display = (0..items.len()).collect();
    SortedList { items, display, sort: Sort { key: ColKey::No, ascending: true } }
}

fn idle() -> AppState {
    AppState {
        deck: Deck { radio: None, playback: None, pending_play: false, tap_fresh: false },
        wear: Wear::Acts,
        show_player: false,
        show_help: false,
        trail: Vec::new(),
        input_mode: InputMode::Normal,
        input_buffer: String::new(),
        main: MainView::Home,
        main_index: 0,
        main_offset: 0,
        loading: false,
        retries: 0,
        home: Vec::new(),
        search_tab: SearchTab::Tracks,
        search_tabs: vec![
            SearchTab::Tracks,
            SearchTab::Albums,
            SearchTab::Artists,
            SearchTab::Playlists,
            SearchTab::Stations,
        ],
        playlists: sorted(Vec::new()),
        playlists_error: None,
        me_id: None,
        favorites: Vec::new(),
        radio_now: Vec::new(),
        radio_steps: spot_ui::play_state::RadioSteps {
            back: false,
            forward: spot_ui::play_state::RadioForward::Nothing,
        },
        liked: Kept { entries: Vec::new() },
        view_cover: None,
        page_link: false,
        open_playlist: None,
        owns_playlist: false,
        saved_playlists: Kept { entries: Vec::new() },
        spotify_ready: false,
        queue: None,
        queue_index: 0,
        queue_offset: 0,
        list_folded: false,
        toast: None,
        picker: None,
        edit: None,
        bio: None,
        art_zoom: None,
        update: UpdateState::Current,
        version: "spot v0.1.0".into(),
    }
}

fn credits_of(names: &str) -> Vec<Credit> {
    names
        .split(", ")
        .map(|name| Credit { name: name.into(), id: Some(format!("id-{name}")) })
        .collect()
}

fn step(label: &str, target: CrumbTarget) -> Crumb {
    Crumb { label: label.into(), target }
}

fn track(name: &str, artists: &str) -> Track {
    Track {
        uri: format!("spotify:track:{name}"),
        name: name.into(),
        artists: artists.into(),
        album: "Album Name".into(),
        release_year: "2020".into(),
        duration_ms: 83_000,
        track_number: 1,
        album_id: None,
        credits: credits_of(artists),
        cover_url: None,
    }
}

fn list_of(name: &str, tracks: Vec<Track>) -> TrackList {
    TrackList {
        kind: TrackListKind::Playlist,
        header: ListHeader {
            name: name.into(),
            subtitle: String::new(),
            description: String::new(),
            cover_url: None,
            credits: Vec::new(),
        },
        rows: sorted(tracks),
        loading: false,
        total: None,
        error: None,
    }
}

/// A path of one step: the page itself.
fn alone(name: &str) -> Vec<Crumb> {
    vec![step(name, CrumbTarget::Current)]
}

fn tracks_state(tracks: Vec<Track>) -> AppState {
    let mut st = idle();
    st.main = MainView::Tracks(list_of("My List", tracks));
    st.trail = alone("My List");
    st
}

fn list_mut(st: &mut AppState) -> &mut TrackList {
    match &mut st.main {
        MainView::Tracks(list) => list,
        _ => panic!("not a track page"),
    }
}

fn playback(track: Track, volume_percent: u8) -> Playback {
    Playback {
        is_playing: true,
        is_local_device: true,
        shuffle: false,
        volume_percent,
        progress_ms: 0,
        track,
    }
}

/// Mark `uri` as the playing track: a queue that has come to it, and the
/// transport state that says something is on.
fn play_uri(st: &mut AppState, uri: &str) {
    let mut t = track("x", "x");
    t.uri = uri.into();
    st.queue = Some(Queue {
        name: "Q".into(),
        rows: sorted(vec![t.clone()]),
        loading: false,
        current: Some(uri.into()),
        source_key: None,
    });
    st.deck.playback = Some(playback(t, 50));
}

/// Rows the header takes above the pane.
const HEAD: u16 = HEAD_H;
/// The row within that band the path lands on.
const PATH: usize = SEARCH_H as usize;

/// The header and the pane under it, as a browse screen lays them out.
fn page_with(
    st: &AppState,
    cover: Cover,
    mouse: Option<Position>,
    width: u16,
    height: u16,
) -> Shown {
    let pen = pen_at(mouse);
    let head = Rect { height: height.min(HEAD), ..screen_rect(width, height) };
    let body = Rect { y: head.height, height: height - head.height, ..head };
    let mut scene = Scene::empty();
    let page = page_header(st);
    top_row::draw(&mut scene, head, st, &page, pen);
    main_pane::draw(&mut scene, body, st, pen);
    Shown::with_cover(scene, &pen, cover, width, height)
}

fn page(st: &AppState, width: u16, height: u16) -> Shown {
    page_with(st, None, None, width, height)
}

fn render(st: &AppState, width: u16, height: u16) -> Vec<String> {
    page(st, width, height).lines()
}

fn hovering(st: &AppState, x: u16, y: u16, width: u16, height: u16) -> Shown {
    page_with(st, None, Some(Position { x, y }), width, height)
}

fn credited(shown: &Shown, f: impl Fn(&Target) -> Option<Credit>) -> Vec<(Rect, Credit)> {
    shown
        .all(|t| f(t).is_some())
        .into_iter()
        .map(|(r, t)| (r, f(&t).unwrap()))
        .collect()
}

fn header_artists(shown: &Shown) -> Vec<(Rect, Credit)> {
    credited(shown, |t| match t {
        Target::HeaderArtist(c) => Some(c.clone()),
        _ => None,
    })
}

fn track_artists(shown: &Shown) -> Vec<(Rect, Credit)> {
    credited(shown, |t| match t {
        Target::TrackArtist(c) => Some(c.clone()),
        _ => None,
    })
}

fn album_artists(shown: &Shown) -> Vec<(Rect, Credit)> {
    credited(shown, |t| match t {
        Target::AlbumArtist(c) => Some(c.clone()),
        _ => None,
    })
}

fn rows_where(shown: &Shown, f: impl Fn(&Target) -> Option<usize>) -> Vec<(Rect, usize)> {
    shown
        .all(|t| f(t).is_some())
        .into_iter()
        .map(|(r, t)| (r, f(&t).unwrap()))
        .collect()
}

fn card_plays(shown: &Shown) -> Vec<(Rect, usize)> {
    rows_where(shown, |t| match t {
        Target::CardPlay(i) => Some(*i),
        _ => None,
    })
}

fn card_shuffles(shown: &Shown) -> Vec<(Rect, usize)> {
    rows_where(shown, |t| match t {
        Target::CardShuffle(i) => Some(*i),
        _ => None,
    })
}

fn album_names(shown: &Shown) -> Vec<(Rect, usize)> {
    rows_where(shown, |t| match t {
        Target::AlbumName(i) => Some(*i),
        _ => None,
    })
}

fn text_col(shown: &Shown) -> TextCol {
    let (rect, widths) = shown.albums();
    TextCol { rect, widths }
}

/// A playlist page with a cover of its own, as Discover Weekly has.
fn playlist_state() -> AppState {
    let mut st = tracks_state(vec![track("One", "Alela"), track("Two", "Sera")]);
    let header = &mut list_mut(&mut st).header;
    header.name = "Discover Weekly".into();
    header.subtitle = "by Spotify".into();
    header.cover_url = Some("https://i.scdn.co/image/dw".into());
    st.open_playlist = Some("dw".into());
    st
}

fn album_state() -> AppState {
    let mut st = tracks_state(vec![track("One", "Donna"), track("Two", "Donna")]);
    let list = list_mut(&mut st);
    list.kind = TrackListKind::Album;
    list.header.name = "Dance In The Street".into();
    list.header.subtitle = "Donna The Buffalo · 2018".into();
    list.header.credits = vec![Credit { name: "Donna The Buffalo".into(), id: Some("r1".into()) }];
    list.header.cover_url = Some("https://i.scdn.co/image/abc".into());
    st.trail = vec![
        step(
            "Donna The Buffalo",
            CrumbTarget::Artist { id: "r1".into(), name: "Donna The Buffalo".into() },
        ),
        step("Dance In The Street", CrumbTarget::Current),
    ];
    st
}

/// There is one album page, not two. The header band draws the art layout
/// only when the view has a sleeve, so a route that opens an album without
/// one gets the text band instead.
#[test]
fn an_album_opened_from_a_track_row_renders_the_same_page() {
    let sleeve = "https://i.scdn.co/image/abc";
    let from_row = |cover: Option<&str>| {
        let mut st = album_state();
        list_mut(&mut st).header.cover_url = cover.map(Into::into);
        render(&st, 90, 24)
    };
    let with_art = from_row(Some(sleeve));
    let no_art = from_row(None);
    assert_ne!(with_art, no_art, "the two layouts really are different");

    // The sleeve branch is the good one: art on the left, metadata stacked
    // beside it, and the table pushed down past the taller band.
    let w = art_w(ART_H) as usize;
    assert!(with_art[4].chars().take(w).all(|c| c == '▀' || c == '♫'));
    assert!(with_art[5].contains("Donna The Buffalo · 2018"));
    assert!(with_art[15].contains("Title"));
    // Without one it collapses onto three rows and loses the artwork.
    assert!(!no_art[4].chars().take(w).all(|c| c == '▀' || c == '♫'));
}

/// The album page is the one browse view that is *about* a record, so it
/// is the one that gets a sleeve. It is 10 rows and therefore 20 cells, and
/// the metadata stacks beside it rather than sharing a row with the count.
#[test]
fn an_album_page_draws_its_sleeve_beside_stacked_metadata() {
    let shown = page(&album_state(), 90, 24);
    let lines = shown.lines();
    assert!(lines[PATH].contains("DANCE IN THE STREET"));
    // Sleeve occupies the left 20 cells of the ten band rows.
    // No cover is decoded in the test, so this is the placeholder swatch:
    // half-blocks with a single ♫ in the middle.
    let w = art_w(ART_H) as usize;
    for row in lines.iter().take(14).skip(4) {
        let sleeve: String = row.chars().take(w).collect();
        assert!(sleeve.chars().all(|c| c == '▀' || c == '♫'), "not a sleeve row: {row:?}");
    }
    // Metadata stacks in the column beside it.
    assert!(lines[4].contains("Dance In The Street"));
    assert!(lines[5].contains("Donna The Buffalo · 2018"));
    assert!(lines[6].contains("2 tracks"));
    assert!(lines[8].contains("▶ play"));
    assert!(lines[8].contains("shuffle"));
    assert!(!shown.at(Target::HeaderPlay).is_empty());
    assert!(!shown.at(Target::HeaderShuffle).is_empty());
    // The table starts after the band and its spacer.
    assert!(lines[15].contains("Title"));
}

/// The masthead's credit line is a run of links, not one label: each name
/// is its own target, and the year after them is not a target at all.
#[test]
fn the_album_masthead_links_each_credited_artist() {
    let mut st = album_state();
    let header = &mut list_mut(&mut st).header;
    header.subtitle = "Donna The Buffalo, Jeb Puryear · 2018".into();
    header.credits.push(Credit { name: "Jeb Puryear".into(), id: Some("r2".into()) });
    let shown = page(&st, 90, 24);
    assert!(shown.lines()[5].contains("Donna The Buffalo, Jeb Puryear · 2018"));

    let links = header_artists(&shown);
    assert_eq!(links.len(), 2);
    assert_eq!(links[0].1.id.as_deref(), Some("r1"));
    assert_eq!(links[1].1.id.as_deref(), Some("r2"));
    assert_eq!(links[0].0.width, "Donna The Buffalo".len() as u16);
    assert_eq!(links[1].0.width, "Jeb Puryear".len() as u16);
    assert_eq!(links[0].0.y, 5, "not on the subtitle row");
    assert_eq!(links[1].0.x, links[0].0.right() + 2);
    // The year is past the last name, so nothing there opens a page.
    let year = Position { x: links[1].0.right() + 3, y: 5 };
    assert!(!links.iter().any(|(rect, _)| rect.contains(year)));
}

/// A page with nobody credited — a playlist, Liked Songs — prints its
/// subtitle whole and records nothing, so a click there reaches the page
/// underneath rather than a target nothing offered.
#[test]
fn a_playlist_masthead_records_no_artist_links() {
    let mut st = tracks_state(vec![track("Alpha", "Ann")]);
    let header = &mut list_mut(&mut st).header;
    header.subtitle = "by dmills".into();
    header.cover_url = Some("https://i.scdn.co/image/abc".into());
    let shown = page(&st, 90, 24);
    assert!(shown.lines()[5].contains("by dmills"));
    assert!(header_artists(&shown).is_empty());
}

/// Every page below Home is drilled into from somewhere, so every one of
/// them spells the path that got it there. The trail is anchored at the
/// margin. Home contributes no crumb at either end — the mark above the path
/// is already the way there.
#[test]
fn pages_spell_the_path_that_reached_them() {
    // The column every path starts in.
    let x0 = 0;

    let mut st = album_state();
    st.trail = alone("Dance In The Street");
    st.main_index = 0;
    let shown = page(&st, 90, 22);
    let lines = shown.lines();
    assert!(
        shown.crumbs().is_empty(),
        "Home is the only step behind it, and it draws none: {:?}",
        shown.crumbs()
    );
    assert!(lines[PATH].contains("DANCE IN THE STREET"), "{:?}", lines[PATH]);
    assert!(!lines[PATH].contains('›'), "{:?}", lines[PATH]);

    // And the head starts in the same column whatever the page is called.
    // Columns, not bytes.
    let col = |line: &str, needle: &str| line.find(needle).map(|b| line[..b].chars().count() as u16);
    assert_eq!(col(&lines[PATH], "DANCE"), Some(x0));

    for (mut st, label, name) in [
        (artist_state(), "Muse", "MUSE"),
        (tracks_state(vec![track("One", "Donna")]), "My List", "MY LIST"),
        // Search too: it replaces the page you were on, and names itself
        // by its query.
        (search_state(), "“muse”", "“MUSE”"),
    ] {
        st.trail = alone(label);
        let lines = render(&st, 90, 22);
        assert_eq!(col(&lines[PATH], name), Some(x0), "{name}: {:?}", lines[PATH]);
    }
}

/// The whole path, not just one step of it.
#[test]
fn a_deep_page_shows_every_step_that_reached_it() {
    let mut st = album_state();
    st.trail = vec![
        step("Donna The Buffalo", CrumbTarget::Depth(1)),
        step("Dance In The Street", CrumbTarget::Current),
    ];
    let shown = page(&st, 90, 22);
    let lines = shown.lines();
    // The ancestor elides while the head keeps its width: the page you are
    // on is what the row is about, a step behind it only has to be
    // recognizable enough to aim at.
    assert!(
        lines[PATH].contains("DONNA THE BUF…  ›  DANCE IN THE STREET"),
        "{:?}",
        lines[PATH]
    );
    // The ancestor leads somewhere, at the depth it was pushed to. The page
    // itself is a title rather than a control, so it gets no rect.
    let crumbs = shown.crumbs();
    assert_eq!(crumbs.len(), 1);
    assert_eq!(crumbs[0].1, CrumbTarget::Depth(1));
}

/// A path too long for the row loses its *middle*, not its front.
#[test]
fn a_long_path_sheds_its_middle_and_keeps_both_ends() {
    let mut st = tracks_state(vec![track("One", "Donna")]);
    st.trail = vec![
        step("home", CrumbTarget::Depth(0)),
        step("one", CrumbTarget::Depth(1)),
        step("two", CrumbTarget::Depth(2)),
        step("three", CrumbTarget::Depth(3)),
        step("My List", CrumbTarget::Current),
    ];
    let shown = page(&st, 90, 22);
    let lines = shown.lines();
    assert!(lines[PATH].contains("…  ›  TWO  ›  THREE  ›  MY LIST"), "{:?}", lines[PATH]);
    assert!(!lines[PATH].contains("ONE  ›"), "{:?}", lines[PATH]);
    // The root is a crumb like any other; the ellipsis between it and the
    // rest stands for what was shed and leads nowhere.
    let crumbs = shown.crumbs();
    assert_eq!(crumbs.len(), 3);
    assert_eq!(crumbs[0].1, CrumbTarget::Depth(0));
    assert_eq!(crumbs[1].1, CrumbTarget::Depth(2));

    // The narrow ancestors earn their keep here: at the head's width this
    // row would hold two steps, and it holds three.
    let lines = render(&st, 80, 22);
    assert!(lines[PATH].contains("…  ›  TWO  ›  THREE  ›  MY LIST"), "{:?}", lines[PATH]);
}

fn playlist(id: &str, name: &str, count: u32, owner: &str, owner_id: &str) -> Playlist {
    Playlist {
        id: id.into(),
        name: name.into(),
        track_count: count,
        owner: owner.into(),
        owner_id: owner_id.into(),
    }
}

/// At full width: one line per playlist with the count as a column, and the
/// Owner cell blank for the ones you own.
#[test]
fn the_playlists_page_lists_them_one_to_a_row() {
    let mut st = idle();
    st.main = MainView::Playlists;
    st.trail = alone("Playlists");
    st.me_id = Some("dm".into());
    st.playlists = sorted(vec![
        playlist("p1", "trendy", 18, "Dalton M", "dm"),
        playlist("p2", "New Music Friday", 38, "NPR Music", "npr"),
    ]);
    let lines = render(&st, 90, 22);
    assert!(lines[PATH].contains("PLAYLISTS"), "{:?}", lines[PATH]);
    assert!(lines[PATH].contains("2 playlists"), "{:?}", lines[PATH]);
    assert!(lines[4].contains("Title") && lines[4].contains("Owner"));
    // Playlists only: Liked Songs is a Home row, and is not one of these.
    assert!(!lines.iter().any(|l| l.contains("Liked Songs")));
    assert!(lines[6].contains("trendy") && lines[6].contains("18"));
    assert!(
        !lines[6].contains("Dalton M"),
        "your own name is not information: {:?}",
        lines[6]
    );
    assert!(lines[7].contains("NPR Music"), "{:?}", lines[7]);
}

/// Nothing pushed means nothing to go back to — except on an album page,
/// which can always go *up* to the artist its header credits.
#[test]
fn an_album_page_with_no_history_offers_its_artist() {
    let shown = page(&album_state(), 90, 22);
    let lines = shown.lines();
    // Capped at what every ancestor crumb gets.
    assert!(
        lines[PATH].contains("DONNA THE BUF…  ›  DANCE IN THE STREET"),
        "{:?}",
        lines[PATH]
    );
    assert_eq!(
        shown.crumbs()[0].1,
        CrumbTarget::Artist { id: "r1".into(), name: "Donna The Buffalo".into() }
    );

    // Without an artist id there is nowhere to go, so the page stands
    // alone: one crumb, its own name, and nothing to click.
    let mut st = album_state();
    list_mut(&mut st).header.credits[0].id = None;
    st.trail = alone("Dance In The Street");
    let shown = page(&st, 90, 22);
    let lines = shown.lines();
    assert!(shown.crumbs().is_empty());
    assert!(lines[PATH].contains("DANCE IN THE STREET"), "{:?}", lines[PATH]);
    assert!(!lines[PATH].contains('›'));
}

/// A pane too narrow for the whole path keeps the page's own name and
/// sheds the rest, rather than letting the trail run off the row.
#[test]
fn a_narrow_pane_sheds_the_trail_but_keeps_the_page() {
    let mut st = album_state();
    st.trail = alone("Dance In The Street");
    let shown = page(&st, 34, 22);
    let lines = shown.lines();
    assert!(shown.crumbs().is_empty(), "{:?}", shown.crumbs());
    assert!(!lines[PATH].contains("HOME"), "{:?}", lines[PATH]);
    assert!(lines[PATH].contains("DANCE"), "{:?}", lines[PATH]);

    // A step behind it that does not fit goes, and takes its rect with it.
    let shown = page(&album_state(), 34, 22);
    let lines = shown.lines();
    assert!(shown.crumbs().is_empty(), "{:?}", shown.crumbs());
    assert!(!lines[PATH].contains("DONNA"), "{:?}", lines[PATH]);
    assert!(lines[PATH].contains("DANCE"), "{:?}", lines[PATH]);
}

/// The decoded sleeve carries the address it came from, and the band checks
/// it, so a page you navigate *back* to never wears the artwork of the page
/// you left.
#[test]
fn an_album_page_refuses_a_sleeve_from_a_different_record() {
    let red = |_: u32, _: u32| 0xC82828;
    let want = rgb(0xC82828);

    // Matching addresses: the decoded cover is drawn.
    let mut st = album_state();
    st.view_cover = Some("https://i.scdn.co/image/abc".into());
    let shown = page_with(&st, Some(&red), None, 90, 22);
    assert_eq!(shown.cell(0, 4).fg, want);

    // The slot still holds the *other* album's sleeve: the band falls back
    // to the placeholder rather than hanging it on this record.
    let mut st = album_state();
    st.view_cover = Some("https://i.scdn.co/image/SOMETHING-ELSE".into());
    let shown = page_with(&st, Some(&red), None, 90, 22);
    let lines = shown.lines();
    // Still a block, so the layout does not jump — just not that cover.
    assert!(lines[4].starts_with('▀'), "the band lost its block: {:?}", lines[4]);
    assert_ne!(shown.cell(0, 4).fg, want, "a different album's sleeve was drawn");
}

/// A page with no cover loses the sleeve and nothing else. Every line sits
/// where it sits beside a sleeve.
#[test]
fn a_coverless_page_keeps_the_layout_and_drops_only_the_sleeve() {
    let mut plain = tracks_state(vec![track("A", "B")]);
    list_mut(&mut plain).header.subtitle = "by me".into();
    let mut bare = album_state();
    list_mut(&mut bare).header.cover_url = None;
    for st in [plain, bare] {
        let lines = render(&st, 90, 22);
        assert!(!lines.iter().any(|l| l.contains('▀')), "a sleeve appeared: {lines:#?}");
        assert!(lines[6].contains("tracks"), "{lines:#?}");
        assert!(lines[8].contains("▶ play"), "{lines:#?}");
    }
}

/// The same page, with and without a sleeve, puts every line of the header
/// on the same row.
#[test]
fn a_sleeve_moves_nothing_but_the_table_under_it() {
    let rows_of = |cover: Option<&str>| {
        let mut st = playlist_state();
        let header = &mut list_mut(&mut st).header;
        header.description = "Fresh music every Monday".into();
        header.cover_url = cover.map(str::to_string);
        let lines = render(&st, 90, 22);
        let at = |needle: &str| {
            lines
                .iter()
                .position(|l| l.contains(needle))
                .unwrap_or_else(|| panic!("no {needle:?} in {lines:#?}"))
        };
        [
            at("Discover Weekly"),
            at("by Spotify"),
            at("Fresh music"),
            at("tracks ·"),
            at("▶ play"),
        ]
    };
    assert_eq!(
        rows_of(Some("https://i.scdn.co/image/dw")),
        rows_of(None),
        "the header rearranged itself around the sleeve"
    );
}

/// A playlist with a cover of its own is an album page in every respect
/// that matters: the sleeve, the name beside it, the control below.
#[test]
fn a_playlist_with_a_cover_draws_the_sleeve() {
    let lines = render(&playlist_state(), 90, 22);
    assert!(lines.iter().any(|l| l.contains('▀')), "no sleeve: {lines:#?}");
    assert!(lines[4].contains("Discover Weekly"));
    assert!(lines[5].contains("by Spotify"));
    assert!(lines[6].contains("tracks"));
    assert!(lines[8].contains("▶ play"));
}

/// The blurb takes a row of its own, and the controls move down for it
/// rather than sitting on top of it.
#[test]
fn a_blurb_spends_a_row_and_moves_the_controls() {
    let mut st = playlist_state();
    list_mut(&mut st).header.description = "Your weekly mixtape of fresh music".into();
    let lines = render(&st, 90, 22);
    assert!(lines[5].contains("by Spotify"));
    assert!(lines[6].contains("weekly mixtape"));
    assert!(lines[7].contains("tracks"));
    assert!(lines[9].contains("▶ play"), "controls moved wrong: {lines:#?}");
}

/// Without a sleeve the band grows by the blurb's row rather than drawing
/// it over the column header below.
#[test]
fn a_blurb_without_a_sleeve_pushes_the_table_down() {
    let mut st = tracks_state(vec![track("A", "B")]);
    let header = &mut list_mut(&mut st).header;
    header.subtitle = "by me".into();
    header.description = "Deep cuts chosen for you".into();
    let lines = render(&st, 90, 22);
    assert!(lines[5].contains("by me"), "{lines:#?}");
    assert!(lines[6].contains("Deep cuts"), "{lines:#?}");
    assert!(lines[7].contains("tracks"), "{lines:#?}");
    assert!(lines[9].contains("▶ play"), "controls moved wrong: {lines:#?}");
    assert!(lines[11].contains("Title"), "{lines:#?}");
}

/// A pane too short to seat the stacked band falls back to the one-row
/// one, blurb and all.
#[test]
fn a_short_pane_falls_back_to_the_compact_band() {
    let mut st = tracks_state(vec![track("A", "B")]);
    let header = &mut list_mut(&mut st).header;
    header.subtitle = "by me".into();
    header.description = "Deep cuts chosen for you".into();
    let lines = render(&st, 90, 15);
    assert!(lines[4].contains("by me"), "{lines:#?}");
    assert!(lines[4].contains("tracks"), "not one row: {lines:#?}");
    assert!(!lines.iter().any(|l| l.contains("Deep cuts")));
    assert!(lines[5].contains("▶ play"), "{lines:#?}");
}

/// The save control is for a playlist someone else made. Your own carries
/// `edit` instead.
#[test]
fn the_playlist_controls_follow_who_owns_it() {
    let mut st = playlist_state();
    st.me_id = Some("me".into());
    st.saved_playlists.entries.push(("dw".into(), true));
    let theirs = render(&st, 90, 22);
    assert!(theirs[8].contains("★ saved"), "{theirs:#?}");
    assert!(!theirs[8].contains("edit"));

    st.owns_playlist = true;
    let mine = render(&st, 90, 22);
    assert!(mine[8].contains("edit"), "{mine:#?}");
    assert!(!mine[8].contains("save"));
}

/// A playlist nothing has answered about yet draws no save control.
#[test]
fn an_unchecked_playlist_draws_no_save_control() {
    let mut st = playlist_state();
    st.me_id = Some("me".into());
    let lines = render(&st, 90, 22);
    assert!(!lines[8].contains("save"), "{lines:#?}");
}

/// A playlist that is not kept offers to be, dim.
#[test]
fn an_unkept_playlist_offers_to_be_saved() {
    let mut st = playlist_state();
    st.saved_playlists.entries.push(("dw".into(), false));
    let shown = page(&st, 90, 22);
    assert!(shown.lines()[8].contains("☆ save"), "{:?}", shown.lines()[8]);
    let save = shown.at(Target::HeaderSave);
    assert_eq!(shown.cell(save.x, save.y).fg, rgb(theme::DIM));
    assert!(shown.at(Target::HeaderEdit).is_empty());
}

/// The sleeve is shed before the text is, the same order the player sheds
/// its own cover in.
#[test]
fn a_narrow_or_short_album_page_drops_the_sleeve_first() {
    for (w, h) in [(50u16, 20u16), (90, 12)] {
        let lines = render(&album_state(), w, h);
        assert!(
            !lines.iter().any(|l| l.contains('▀')),
            "the sleeve survived at {w}x{h}: {lines:#?}"
        );
        assert!(
            lines.iter().any(|l| l.contains("Dance In The Street")),
            "the name went before the sleeve did at {w}x{h}"
        );
    }
}

/// Nothing may paint text without choosing a colour. A plain style leaves
/// the raw terminal foreground, the one unthemed colour on the screen.
#[test]
fn no_row_paints_text_in_the_raw_terminal_foreground() {
    let mut states = vec![
        tracks_state(vec![track("Alpha", "Ann"), track("Beta", "Bob")]),
        search_state(),
        artist_state(),
        idle(),
    ];
    // Album, artist, playlist and station tabs draw their own row builders.
    for tab in
        [SearchTab::Albums, SearchTab::Artists, SearchTab::Playlists, SearchTab::Stations]
    {
        let mut st = search_state();
        st.search_tab = tab;
        states.push(st);
    }
    for st in &states {
        let shown = page(st, 100, 18);
        for y in 0..16 {
            for x in 0..100 {
                let cell = shown.cell(x, y);
                if cell.symbol().trim().is_empty() {
                    continue;
                }
                assert!(
                    matches!(cell.fg, Color::Rgb(..)),
                    "{:?} at {x},{y} is unthemed ({:?})",
                    cell.symbol(),
                    cell.fg
                );
            }
        }
    }
}

#[test]
fn track_table_renders_columns_and_markers() {
    let mut st = tracks_state(vec![
        track("Alpha", "Ann"),
        track("Beta", "Bob"),
        track("Gamma", "Cyd"),
    ]);
    play_uri(&mut st, "spotify:track:Beta");
    let shown = page(&st, 90, 14);
    let lines = shown.lines();
    // Trail + blank, then the band (summary, ▶ play, spacer),
    // then the column header + spacer, then the rows.
    assert!(lines[PATH].contains("MY LIST"));
    assert!(lines[4].contains("My List"));
    assert!(lines[4].contains("3 tracks · 4 min"));
    assert!(lines[5].contains("▶ play"));
    assert!(lines[5].contains("shuffle"));
    assert!(!shown.at(Target::HeaderPlay).is_empty());
    assert!(!shown.at(Target::HeaderShuffle).is_empty());
    assert!(lines[7].contains("Title"));
    assert!(lines[7].contains("Artist"));
    assert!(lines[7].contains("Album"));
    // Time and the `★ ⧉ +` run head themselves.
    assert!(!lines[7].contains("Time"));
    assert!(lines[9].contains("Alpha"));
    // No frame, so rows start at column 0.
    assert!(lines[10].starts_with("▶ ") && lines[10].contains("Beta"));
    // Only the playing row is marked; there is no next-up arrow.
    assert!(lines[11].starts_with("  ") && lines[11].contains("Gamma"));
    assert!(!lines.iter().any(|l| l.contains("→")));
    assert!(lines[9].contains("1:23"));
    assert!(!shown.at(Target::MainList).is_empty());
    // Not one box-drawing character anywhere on the pane.
    assert!(
        !lines.iter().any(|l| l.contains('│') || l.contains('╭')),
        "a border survived: {lines:#?}"
    );
}

#[test]
fn wide_glyphs_keep_duration_column_aligned() {
    let st = tracks_state(vec![
        track("Plain Ascii Name", "Someone"),
        track("残酷な天使のテーゼ、とても長いタイトル", "高橋洋子"),
        track("emoji 🎵🎵🎵🎵 name", "🎤 artist"),
    ]);
    let shown = page(&st, 60, 12);
    // The duration "1:23" must sit at the same screen column in every row.
    let colon_x = |y: u16| {
        (0..60u16)
            .rev()
            .find(|&x| shown.cell(x, y).symbol() == ":")
            .expect("no duration on this row")
    };
    let x0 = colon_x(9);
    assert_eq!(colon_x(10), x0);
    assert_eq!(colon_x(11), x0);
}

#[test]
fn selection_persists_when_offset_scrolls_away() {
    let tracks: Vec<Track> = (0..30).map(|i| track(&format!("T{i}"), "A")).collect();
    let mut st = tracks_state(tracks);
    st.main_index = 1;
    st.main_offset = 10;
    // Drawing must not reset the wheel-scrolled offset.
    assert_eq!(page(&st, 80, 16).offset(), 10);

    // Scroll back: the selected row still carries the highlight.
    st.main_offset = 0;
    let shown = page(&st, 80, 16);
    let row_y = 12;
    assert!((1..79u16).any(|x| {
        let cell = shown.cell(x, row_y);
        cell.fg == rgb(theme::BRIGHT) && cell.modifier.contains(Modifier::BOLD)
    }));
}

/// Show a list in the order of its titles.
fn sort_by_title(list: &mut SortedList<Track>) {
    list.sort = Sort { key: ColKey::Title, ascending: true };
    let items = list.items.clone();
    list.display.sort_by(|&a, &b| items[a].name.cmp(&items[b].name));
}

/// The number belongs to the track, not to the row it lands on: a sorted
/// list reads 3, 2, 1 down the side rather than renumbering itself.
#[test]
fn the_number_column_stays_with_its_track_across_a_sort() {
    let mut st =
        tracks_state(vec![track("Zebra", "A1"), track("Mango", "A2"), track("Apple", "A3")]);
    let lines = render(&st, 90, 14);
    let no = |line: &str| line.trim_start().split(' ').next().unwrap().to_string();
    assert_eq!([no(&lines[9]), no(&lines[10]), no(&lines[11])], ["1", "2", "3"]);

    sort_by_title(&mut list_mut(&mut st).rows);
    let lines = render(&st, 90, 14);
    assert!(lines[9].contains("Apple") && lines[11].contains("Zebra"));
    assert_eq!([no(&lines[9]), no(&lines[10]), no(&lines[11])], ["3", "2", "1"]);
}

#[test]
fn sorted_view_reorders_rows_and_suppresses_next_marker() {
    let mut st =
        tracks_state(vec![track("Zebra", "A1"), track("Apple", "A2"), track("Mango", "A3")]);
    play_uri(&mut st, "spotify:track:Zebra");
    sort_by_title(&mut list_mut(&mut st).rows);
    let lines = render(&st, 90, 14);
    // The header marks the column it is ordered by, and nothing else on
    // the page repeats that.
    assert!(lines[7].contains("Title ▲"));
    assert!(!lines.iter().any(|l| l.contains("sort:")));
    assert!(lines[9].contains("Apple"));
    assert!(lines[10].contains("Mango"));
    assert!(lines[11].starts_with("▶ ") && lines[11].contains("Zebra"));
    // Playback follows context order, so the next-up guess is hidden.
    assert!(!lines.iter().any(|l| l.contains("→ ")));
}

#[test]
fn artist_and_album_columns_record_clickable_rects() {
    let st = tracks_state(vec![track("Alpha", "Ann"), track("Beta", "Bob")]);
    let shown = page(&st, 90, 14);
    let col = text_col(&shown);
    let list = shown.at(Target::MainList);
    assert!(!col.rect.is_empty());
    // Clipped to the two filled rows, inside the list area.
    assert_eq!(col.rect.height, 2);
    assert!(list.contains(Position { x: col.rect.x, y: col.rect.y }));
    // One artist per row, each on the row it belongs to.
    let links = track_artists(&shown);
    assert_eq!(links.len(), 2);
    for (i, (rect, credit)) in links.iter().enumerate() {
        assert_eq!(rect.y, list.y + i as u16);
        assert_eq!(credit.id.as_deref(), Some(["id-Ann", "id-Bob"][i]));
    }

    // The recorded targets line up with the rendered cells.
    let text_at = |rect: Rect, w: u16| shown.text_in(Rect { width: w, ..rect });
    assert_eq!(text_at(links[0].0, 3), "Ann");
    assert_eq!(text_at(col.rect, 5), "Album");
}

/// The target is the name as printed, not the column it is padded out to.
#[test]
fn a_link_column_takes_clicks_on_its_text_and_not_its_padding() {
    let st = tracks_state(vec![track("Alpha", "Ann"), track("Beta", "Bob")]);
    let shown = page(&st, 90, 14);
    let col = text_col(&shown);
    let printed = "Album Name".len() as u16;
    assert!(col.rect.width > printed, "the column is not padded, so this proves nothing");
    assert_eq!(col.widths, vec![printed, printed]);
    let at = |dx: u16| Position { x: col.rect.x + dx, y: col.rect.y };
    assert!(col.hit(at(0)), "the first cell of the name misses");
    assert!(col.hit(at(printed - 1)), "the last cell of the name misses");
    assert!(!col.hit(at(printed)), "the padding after the name hits");
    assert!(!col.hit(at(col.rect.width - 1)), "the far edge hits");

    // The artist column is padded the same way, and its target is the name
    // rather than the cell.
    let (rect, _) = track_artists(&shown)[0];
    assert_eq!(rect.width, "Ann".len() as u16);
}

/// A record credited to several artists prints one line and records one
/// target per name, each covering that name and neither of its neighbours.
#[test]
fn every_credited_artist_is_its_own_target() {
    let st = tracks_state(vec![track("Clarity", "Zedd, Alessia Cara")]);
    let links = track_artists(&page(&st, 110, 14));
    assert_eq!(links.len(), 2, "one target per name");
    assert_eq!(links[0].1.name, "Zedd");
    assert_eq!(links[1].1.name, "Alessia Cara");
    assert_eq!(links[0].0.width, "Zedd".len() as u16);
    assert_eq!(links[1].0.width, "Alessia Cara".len() as u16);
    assert_eq!(
        links[1].0.x,
        links[0].0.right() + 2,
        "the `, ` between them belongs to neither"
    );
}

/// A name identified by name only is drawn and inert.
#[test]
fn a_credit_without_an_id_is_printed_but_not_a_target() {
    let mut anonymous = track("Clarity", "Zedd");
    anonymous.credits[0].id = None;
    let shown = page(&tracks_state(vec![anonymous]), 110, 14);
    assert!(shown.lines().iter().any(|l| l.contains("Zedd")), "the name went missing");
    assert!(track_artists(&shown).is_empty());
}

/// A row with nothing in the cell prints nothing, so there is nothing to
/// click.
#[test]
fn an_empty_cell_is_no_target_at_all() {
    let mut blank = track("Alpha", "Ann");
    blank.album = String::new();
    let col = text_col(&page(&tracks_state(vec![blank]), 90, 14));
    assert_eq!(col.widths, vec![0]);
    for dx in 0..col.rect.width {
        assert!(
            !col.hit(Position { x: col.rect.x + dx, y: col.rect.y }),
            "an empty cell took a click at {dx}"
        );
    }
}

/// Every row wears the run, and the star reads its state as colour: the
/// accent when saved, dim when not.
#[test]
fn the_star_colours_saved_rows_and_dims_the_rest() {
    let mut st = tracks_state(vec![track("Alpha", "A"), track("Beta", "B"), track("Gamma", "C")]);
    st.liked.entries.push(("spotify:track:Alpha".into(), true));
    st.liked.entries.push(("spotify:track:Beta".into(), false));
    let shown = page(&st, 90, 13);
    let col = shown.at(Target::LikeColumn);
    // The mark sits one cell into its padded target.
    let star = |row: u16| shown.cell(col.x + 1, col.y + row);
    for row in 0..3 {
        assert_eq!(star(row).symbol(), LIKED_MARK);
    }
    assert_eq!(star(0).fg, rgb(theme::ACCENT));
    // Unsaved and still-unchecked are the same dim mark.
    assert_eq!(star(1).fg, rgb(theme::DIM));
    assert_eq!(star(2).fg, rgb(theme::DIM));
}

/// A page you can link to offers the control, right of ▶ shuffle and left
/// of the playlist controls after it.
#[test]
fn a_page_with_a_link_offers_the_share_control() {
    for kind in [TrackListKind::Playlist, TrackListKind::Album] {
        let mut st = tracks_state(vec![track("Alpha", "Ann")]);
        list_mut(&mut st).kind = kind;
        st.page_link = true;
        let shown = page(&st, 90, 14);
        let lines = shown.lines();
        assert!(lines[5].contains("⧉ share"), "{kind:?} {:?}", lines[5]);
        let share = shown.at(Target::HeaderShare);
        assert!(!share.is_empty(), "{kind:?}");
        assert!(share.x > shown.at(Target::HeaderShuffle).right(), "{kind:?}");
    }
}

/// The artist page carries it too: an artist page is opened by id, so there
/// is always a link.
#[test]
fn the_artist_page_offers_the_share_control() {
    let shown = page(&artist_state(), 90, 20);
    let lines = shown.lines();
    assert!(lines.iter().any(|l| l.contains("⧉ share")), "{lines:#?}");
    let share = shown.at(Target::HeaderShare);
    assert!(!share.is_empty());
    assert!(share.x > shown.at(Target::HeaderShuffle).right());
}

/// Liked Songs has no link that means the same thing to whoever opens it,
/// so it is offered no control rather than one that shares the wrong page.
#[test]
fn liked_songs_offers_no_share_control() {
    let mut st = tracks_state(vec![track("Alpha", "Ann")]);
    list_mut(&mut st).kind = TrackListKind::LikedSongs;
    st.page_link = false;
    let shown = page(&st, 90, 14);
    assert!(!shown.lines()[5].contains("share"), "{:?}", shown.lines()[5]);
    assert!(shown.at(Target::HeaderShare).is_empty());
    assert!(!shown.at(Target::HeaderShuffle).is_empty(), "shuffle went too");
}

/// Hovering any one control lights that control alone — its whole padded
/// cell, so the lit run says how big the target is.
#[test]
fn hovering_lights_one_control_of_the_pair() {
    let st = tracks_state(vec![track("Alpha", "A"), track("Beta", "B")]);
    // Draw once to find out where the run landed.
    let first = page(&st, 90, 12);
    let (like, share, add) = (
        first.at(Target::LikeColumn),
        first.at(Target::ShareColumn),
        first.at(Target::AddColumn),
    );
    assert!(!like.is_empty() && !share.is_empty() && !add.is_empty());
    let pill = rgb(theme::DIM);

    // The padding is part of the control, so the pointer catches it a cell
    // off the mark and the pill covers the whole cell.
    let shown = hovering(&st, add.x, add.y, 90, 12);
    for x in add.x..add.right() {
        assert_eq!(shown.cell(x, add.y).bg, pill, "the + drew no pill");
    }
    for x in like.x..share.right() {
        assert_ne!(shown.cell(x, like.y).bg, pill, "hovering the + lit a neighbour too");
    }

    // The control between them lights alone in the same way.
    let shown = hovering(&st, share.x, share.y, 90, 12);
    for x in share.x..share.right() {
        assert_eq!(shown.cell(x, share.y).bg, pill, "the ⧉ drew no pill");
    }
    for x in [like.x, add.x] {
        assert_ne!(shown.cell(x, like.y).bg, pill, "hovering the ⧉ lit a neighbour too");
    }
}

/// The row under the pointer wears a faint wash across its whole width,
/// and its neighbours stay as the terminal left them.
#[test]
fn hovering_washes_the_whole_row_and_only_that_row() {
    let st = tracks_state(vec![track("Alpha", "A"), track("Beta", "B"), track("Gamma", "C")]);
    let rows = page(&st, 90, 12).at(Target::MainList);
    let second = rows.y + 1;
    let shown = hovering(&st, rows.x + 4, second, 90, 12);
    let bg = |x: u16, y: u16| shown.cell(x, y).bg;
    for x in rows.x..rows.right() {
        assert_eq!(bg(x, second), rgb(theme::FIELD), "the row is not washed at {x}");
        assert_eq!(bg(x, second - 1), Color::Reset, "the row above is washed");
        assert_eq!(bg(x, second + 1), Color::Reset, "the row below is washed");
    }
    // The gutter belongs to the scrollbar, not to the row.
    assert_eq!(bg(rows.right(), second), Color::Reset);
}

/// The wash sits behind the row rather than replacing what the row already
/// lights: a control under the pointer keeps its own pill on top of it.
#[test]
fn a_washed_row_keeps_its_hovered_control_lit() {
    let st = tracks_state(vec![track("Alpha", "A"), track("Beta", "B")]);
    let add = page(&st, 90, 12).at(Target::AddColumn);
    let shown = hovering(&st, add.x, add.y, 90, 12);
    let bg = |x: u16| shown.cell(x, add.y).bg;
    for x in add.x..add.right() {
        assert_eq!(bg(x), rgb(theme::DIM), "the wash swallowed the + pill");
    }
    assert_eq!(bg(add.x - 1), rgb(theme::FIELD), "the row is not washed");
}

/// The artist page's list is not all rows. Only a top track is a table
/// row; a heading, the column header and the blanks around it are not.
#[test]
fn only_the_artist_pages_track_lines_wash() {
    let st = artist_state();
    let body = page(&st, 90, 32).at(Target::MainList);
    let bg_of = |line: u16| {
        let (x, y) = (body.x + 4, body.y + line);
        hovering(&st, x, y, 90, 32).cell(x, y).bg
    };
    // Heading, blank, column header, blank, then the one top track. The
    // header lights its own sort label under the pointer, so what is
    // checked is that none of them takes the row wash.
    for line in 0..4 {
        assert_ne!(bg_of(line), rgb(theme::FIELD), "line {line} washed");
    }
    assert_eq!(bg_of(4), rgb(theme::FIELD), "the track did not wash");
}

/// Each control is a padded click target of its own, the three flush
/// against each other, at the end of the row before the time.
#[test]
fn the_pair_records_two_adjacent_clickable_rects() {
    let mut st = tracks_state(vec![track("Alpha", "A"), track("Beta", "B")]);
    st.liked.entries.push(("spotify:track:Alpha".into(), true));
    let shown = page(&st, 90, 14);
    let (like, share, add) = (
        shown.at(Target::LikeColumn),
        shown.at(Target::ShareColumn),
        shown.at(Target::AddColumn),
    );
    let list = shown.at(Target::MainList);
    for col in [like, share, add] {
        assert_eq!(col.width, 3, "the control lost its padding");
        assert_eq!(col.height, 2, "the column outran the filled rows");
        assert!(list.contains(Position { x: col.x, y: col.y }));
    }
    // Flush, in the order the deck wears them: no cell between them
    // belongs to neither control.
    assert_eq!(share.x, like.right());
    assert_eq!(add.x, share.right());
    let symbol = |x: u16| shown.cell(x, like.y).symbol().to_string();
    // Each mark is centred in its own cell.
    assert_eq!(symbol(like.x + 1), LIKED_MARK);
    assert_eq!(symbol(share.x + 1), SHARE_MARK);
    assert_eq!(symbol(add.x + 1), ADD_MARK);
    // And the run comes after the data columns it follows.
    assert!(like.x > text_col(&shown).rect.right());
}

/// The pair is the last thing a narrowing pane gives up: the year, the
/// album and the number all go first.
#[test]
fn the_pair_outlives_the_data_columns_on_a_narrow_pane() {
    let st = tracks_state(vec![track("Alpha", "A"), track("Beta", "B")]);
    let shown = page(&st, 38, 12);
    let lines = shown.lines();
    let header = lines.iter().find(|l| l.contains("Title")).unwrap();
    assert!(!header.contains("Year"), "{header:?}");
    assert!(!header.contains("Album"), "{header:?}");
    // The pair heads itself, so the rects are what say it is still there.
    assert!(!shown.at(Target::LikeColumn).is_empty());
    assert!(!shown.at(Target::AddColumn).is_empty());
}

#[test]
fn header_band_absent_on_short_panes() {
    // Body height 6, under the band's minimum of 8.
    let shown = page(&tracks_state(vec![track("A", "B")]), 80, 10);
    let lines = shown.lines();
    assert!(!lines.iter().any(|l| l.contains("▶ play")));
    assert!(!lines.iter().any(|l| l.contains("shuffle")));
    assert!(shown.at(Target::HeaderPlay).is_empty());
    assert!(shown.at(Target::HeaderShuffle).is_empty());
}

#[test]
fn empty_playlist_shows_hint() {
    let lines = render(&tracks_state(Vec::new()), 60, 12);
    assert!(lines.iter().any(|l| l.contains("this playlist is empty")));
}

#[test]
fn loading_title_shows_progress_and_suppresses_empty_hint() {
    let mut st = tracks_state(Vec::new());
    let list = list_mut(&mut st);
    list.loading = true;
    list.total = Some(200);
    let lines = render(&st, 70, 14);
    assert!(lines[PATH].contains("MY LIST (LOADING…)"));
    assert!(lines[4].contains("0 of 200 tracks"));
    assert!(!lines.iter().any(|l| l.contains("this playlist is empty")));
}

fn refusal(message: &str) -> Option<LoadError> {
    Some(LoadError { message: message.into() })
}

/// The reason a page is blank, said on the page.
#[test]
fn a_refused_page_says_so_instead_of_claiming_to_be_empty() {
    let mut st = tracks_state(Vec::new());
    list_mut(&mut st).error = refusal("429 Too Many Requests");
    let shown = page(&st, 60, 14);
    let lines = shown.lines();
    assert!(lines.iter().any(|l| l.contains("429 Too Many Requests")));
    assert!(
        !lines.iter().any(|l| l.contains("this playlist is empty")),
        "a page that failed claimed to be empty"
    );
    assert!(lines.iter().any(|l| l.contains(RETRY_PILL)));
    assert!(!shown.at(Target::Retry).is_empty(), "the control took no clicks");
}

/// A refusal that comes straight back leaves the spinner up for less than
/// a frame, so the count is what tells you the press did anything.
#[test]
fn a_repeated_refusal_says_how_many_times_it_was_asked() {
    let mut st = tracks_state(Vec::new());
    list_mut(&mut st).error = refusal("429 Too Many Requests");
    let has_tally = |lines: &[String]| lines.iter().any(|l| l.contains("asked again"));
    assert!(!has_tally(&render(&st, 60, 16)), "counted a first ask");

    st.retries = 1;
    let shown = page(&st, 60, 16);
    let lines = shown.lines();
    assert!(lines.iter().any(|l| l.contains("asked again once")));
    assert!(lines.iter().any(|l| l.contains(RETRY_PILL)));
    assert!(!shown.at(Target::Retry).is_empty(), "the tally crowded the control");

    st.retries = 3;
    assert!(render(&st, 60, 16).iter().any(|l| l.contains("asked again 3 times")));
}

fn radio_view(tab: RadioTab, favorites: bool, rows: Vec<RadioRow>, loading: bool) -> RadioView {
    RadioView { tab, favorites, rows: sorted(rows), loading, error: None }
}

/// A directory page has nothing above its tab strip but the trail, so the
/// word on the row and the spinner under it were the same news twice.
#[test]
fn a_loading_radio_page_says_so_in_the_pane_and_not_on_the_trail() {
    let mut st = idle();
    st.main = MainView::Radio(radio_view(RadioTab::Popular, false, Vec::new(), true));
    st.trail = alone("Popular");
    let lines = render(&st, 76, 16);
    assert!(!lines[PATH].contains("LOADING"), "{:?}", lines[PATH]);
    assert!(lines.iter().any(|l| l.contains("loading stations…")));
    // The trail going quiet must not take the fast tick with it, or the
    // spinner steps instead of turning.
    assert!(is_animating(&st));
}

/// The control is only ever recorded where it was drawn.
#[test]
fn a_page_that_did_not_fail_records_no_retry() {
    let shown = page(&tracks_state(Vec::new()), 60, 14);
    assert!(shown.lines().iter().any(|l| l.contains("this playlist is empty")));
    assert!(shown.at(Target::Retry).is_empty());
}

/// Too short for the pill, so it is not drawn — and therefore not recorded
/// either.
#[test]
fn a_short_pane_drops_the_control_rather_than_recording_it_offscreen() {
    let mut st = tracks_state(Vec::new());
    list_mut(&mut st).error = refusal("no");
    assert!(page(&st, 60, HEAD + 2).at(Target::Retry).is_empty());
}

/// A page still being fetched turns a spinner, and the frame loop holds
/// the fast tick over it so it turns rather than steps.
#[test]
fn a_loading_page_turns_a_spinner() {
    let mut st = tracks_state(Vec::new());
    list_mut(&mut st).loading = true;
    let lines = render(&st, 60, 14);
    assert!(
        lines.iter().any(|l| (0..SPINNER_LEN).any(|i| l.contains(spinner_frame(i)))),
        "no spinner frame on a loading page"
    );
    assert!(is_animating(&st));
}

fn results(query: &str) -> SearchResults {
    SearchResults {
        query: query.into(),
        tracks: sorted(Vec::new()),
        albums: sorted(Vec::new()),
        artists: sorted(Vec::new()),
        playlists: sorted(Vec::new()),
        stations: sorted(Vec::new()),
        stations_loading: false,
        error: None,
        stations_error: None,
    }
}

/// The reason a search came back blank belongs to the half that was
/// refused.
#[test]
fn each_search_half_reports_its_own_refusal() {
    let mut st = idle();
    let mut r = results("muse");
    r.stations_error = refusal("directory unreachable");
    st.main = MainView::Search(r);
    st.search_tab = SearchTab::Stations;
    let lines = render(&st, 70, 16);
    assert!(lines.iter().any(|l| l.contains("directory unreachable")));

    st.search_tab = SearchTab::Tracks;
    let shown = page(&st, 70, 16);
    assert!(
        shown.lines().iter().any(|l| l.contains("no tracks results")),
        "the other tabs wore the directory's failure"
    );
    assert!(shown.at(Target::Retry).is_empty());
}

/// The row names the page, not the page's kind.
#[test]
fn the_trail_names_the_page_whatever_kind_it_is() {
    let mut st = tracks_state(vec![track("Alpha", "Ann")]);
    for kind in [TrackListKind::Album, TrackListKind::LikedSongs, TrackListKind::Playlist] {
        list_mut(&mut st).kind = kind;
        let lines = render(&st, 70, 12);
        assert!(lines[PATH].contains("MY LIST"), "{kind:?}: {:?}", lines[PATH]);
    }
}

fn album_item(name: &str, year: &str, cover: Option<&str>) -> AlbumItem {
    AlbumItem {
        id: format!("id-{name}"),
        name: name.into(),
        credits: vec![Credit { name: "Muse".into(), id: Some("r1".into()) }],
        release_year: year.into(),
        album_type: "album".into(),
        track_count: 12,
        cover_url: cover.map(Into::into),
    }
}

fn search_state() -> AppState {
    let mut st = idle();
    st.spotify_ready = true;
    let mut r = results("muse");
    r.tracks = sorted(vec![track("Starlight", "Muse")]);
    r.albums = sorted(vec![AlbumItem { id: "a1".into(), ..album_item("Black Holes", "2006", None) }]);
    r.artists = sorted(vec![ArtistItem { name: "Muse".into() }]);
    r.playlists = sorted(vec![playlist("p1", "Muse Mix", 42, "someone", "someone")]);
    r.stations = sorted(vec![test_station("st1", "Radio Paradise")]);
    st.main = MainView::Search(r);
    st.trail = alone("“muse”");
    st
}

fn results_mut(st: &mut AppState) -> &mut SearchResults {
    match &mut st.main {
        MainView::Search(r) => r,
        _ => panic!("not a search"),
    }
}

/// A station with enough on it to fill every column of the table.
fn test_station(uuid: &str, name: &str) -> Station {
    Station {
        uuid: uuid.into(),
        name: name.into(),
        url: format!("http://example.test/{uuid}"),
        tags: "eclectic,rock".into(),
        country: "United States".into(),
        countrycode: "US".into(),
        quality: "MP3 128k".into(),
        hls: false,
    }
}

fn on_air(station: Station, title: Option<&str>) -> RadioPlayback {
    RadioPlayback {
        station,
        is_playing: true,
        title: title.map(Into::into),
        matched: None,
        volume_percent: 50,
        failure: None,
        off_air: false,
        elapsed_ms: 0,
        channel_label: None,
    }
}

/// The Stations tab is the directory's own table, not a fifth layout.
#[test]
fn the_stations_tab_draws_the_directorys_own_table() {
    let mut st = search_state();
    st.search_tab = SearchTab::Stations;
    let joined = render(&st, 90, 18).join("\n");
    for column in ["Station", "Tags", "Where", "Stream"] {
        assert!(joined.contains(column), "missing {column:?} in {joined}");
    }
    assert!(joined.contains("Radio Paradise"), "{joined}");
    assert!(joined.contains("MP3 128k"), "{joined}");
    assert!(joined.contains("1 results"), "{joined}");
}

/// The saved star and the playing note reach search results too.
#[test]
fn a_saved_or_playing_station_is_marked_in_search_results() {
    let station = test_station("st1", "Radio Paradise");

    let mut st = search_state();
    st.search_tab = SearchTab::Stations;
    st.favorites = vec![station.clone()];
    let lines = render(&st, 90, 18);
    assert!(lines[7].contains("Saved"), "{:?}", lines[7]);
    let row = lines.iter().find(|l| l.contains("Radio Paradise")).unwrap();
    // The star has a column of its own now, off to the right of the name.
    let star = row.find(LIKED_MARK).unwrap();
    assert!(star > row.find("Radio Paradise").unwrap(), "{row:?}");

    let mut st = search_state();
    st.search_tab = SearchTab::Stations;
    st.deck.radio = Some(on_air(station, None));
    let playing = render(&st, 90, 18).join("\n");
    assert!(playing.contains("♫ Radio Paradise"), "{playing}");
}

/// The saved page, with what each station is announcing.
fn saved_state(stations: Vec<Station>) -> AppState {
    let mut st = idle();
    st.spotify_ready = true;
    let rows = stations.iter().cloned().map(RadioRow::Station).collect();
    st.favorites = stations;
    st.main = MainView::Radio(radio_view(RadioTab::Saved, true, rows, false));
    st
}

#[test]
fn the_saved_page_says_what_each_station_is_playing() {
    let mut st = saved_state(vec![
        test_station("st1", "Radio Paradise"),
        test_station("st2", "Silent FM"),
    ]);
    st.radio_now = vec![
        StationNow { uuid: "st1".into(), status: NowStatus::Title("Muse - Hysteria".into()) },
        StationNow { uuid: "st2".into(), status: NowStatus::Unreachable },
    ];
    let lines = render(&st, 120, 18);
    let joined = lines.join("\n");
    assert!(joined.contains("Now Playing"), "{joined}");
    let paradise = lines.iter().find(|l| l.contains("Radio Paradise")).unwrap();
    assert!(paradise.contains("Muse - Hysteria"), "{paradise:?}");
    let silent = lines.iter().find(|l| l.contains("Silent FM")).unwrap();
    assert!(silent.contains("—"), "{silent:?}");
}

/// The station on the deck reads what the deck reads. Anything else would
/// mean a second connection to a stream this machine already holds open.
#[test]
fn the_playing_station_reads_its_own_announcement() {
    let station = test_station("st1", "Radio Paradise");
    let mut st = saved_state(vec![station.clone()]);
    st.deck.radio = Some(on_air(station, Some("Alela Diane - Take Us Back")));
    let joined = render(&st, 120, 18).join("\n");
    assert!(joined.contains("Alela Diane - Take Us Back"), "{joined}");
}

/// The column costs one connection per row, so only the page of kept
/// stations carries it.
#[test]
fn only_the_saved_page_carries_the_now_playing_column() {
    let station = test_station("st1", "Radio Paradise");
    let mut st = saved_state(vec![station.clone()]);
    st.main = MainView::Radio(radio_view(
        RadioTab::Popular,
        false,
        vec![RadioRow::Station(station)],
        false,
    ));
    let joined = render(&st, 120, 18).join("\n");
    assert!(!joined.contains("Now Playing"), "{joined}");

    let mut st = search_state();
    st.search_tab = SearchTab::Stations;
    let joined = render(&st, 120, 18).join("\n");
    assert!(!joined.contains("Now Playing"), "{joined}");
}

/// A directory that has not answered yet is not a directory that answered
/// "nothing".
#[test]
fn a_pending_stations_tab_says_it_is_searching() {
    let mut st = search_state();
    st.search_tab = SearchTab::Stations;
    let r = results_mut(&mut st);
    r.stations = sorted(Vec::new());
    r.stations_loading = true;
    let joined = render(&st, 90, 18).join("\n");
    assert!(joined.contains("searching…"), "{joined}");
    assert!(!joined.contains("0 results"), "{joined}");
    assert!(!joined.contains("no stations for"), "{joined}");
}

/// …and once it has answered, an empty tab says so plainly.
#[test]
fn an_answered_empty_stations_tab_says_there_are_none() {
    let mut st = search_state();
    st.search_tab = SearchTab::Stations;
    let r = results_mut(&mut st);
    r.stations = sorted(Vec::new());
    r.stations_loading = false;
    let joined = render(&st, 90, 18).join("\n");
    assert!(joined.contains("no stations for \"muse\""), "{joined}");
}

fn search_tabs(shown: &Shown) -> Vec<(Rect, SearchTab)> {
    shown
        .all(|t| matches!(t, Target::SearchTab(_)))
        .into_iter()
        .map(|(r, t)| match t {
            Target::SearchTab(tab) => (r, tab),
            _ => unreachable!(),
        })
        .collect()
}

/// The tab strip must not move while the slower half lands: its labels are
/// hit rects.
#[test]
fn the_tab_strip_does_not_move_while_the_stations_land() {
    let mut st = search_state();
    st.search_tab = SearchTab::Tracks;
    let r = results_mut(&mut st);
    r.stations = sorted(Vec::new());
    r.stations_loading = true;
    let pending = search_tabs(&page(&st, 90, 18));

    let mut st = search_state();
    st.search_tab = SearchTab::Tracks;
    assert_eq!(pending, search_tabs(&page(&st, 90, 18)));
}

#[test]
fn search_tab_hit_rects_match_rendered_labels() {
    let shown = page(&search_state(), 90, 16);
    let tabs = search_tabs(&shown);
    assert_eq!(tabs.len(), 5);
    for (rect, tab) in &tabs {
        assert!(!rect.is_empty());
        let text = shown.text_in(*rect);
        assert!(text.contains(tab.title()), "tab {tab:?} rect {rect:?} shows {text:?}");
    }
}

#[test]
fn album_tab_renders_columns() {
    let mut st = search_state();
    st.search_tab = SearchTab::Albums;
    let shown = page(&st, 90, 16);
    let lines = shown.lines();
    assert!(lines[7].contains("Album"));
    assert!(lines[7].contains("Artist"));
    assert!(lines[7].contains("Year"));
    assert!(lines[9].contains("Black Holes"));
    assert!(lines[9].contains("2006"));
    // The Artist cell is a link here too, one target per credited name.
    let links = album_artists(&shown);
    assert_eq!(links.len(), 1);
    let (rect, credit) = &links[0];
    assert_eq!(credit.id.as_deref(), Some("r1"));
    assert_eq!(rect.width, "Muse".len() as u16);
    assert_eq!(rect.y, 9, "not on the row that credits it");
}

/// Every table heads its columns, spaces the header off its rows, and
/// keeps the same marker gutter clear at the left.
#[test]
fn every_browse_table_heads_its_columns_over_the_same_gutter() {
    let cases: [(SearchTab, &str, &str); 4] = [
        (SearchTab::Tracks, "Title", "Starlight"),
        (SearchTab::Albums, "Album", "Black Holes"),
        (SearchTab::Artists, "Artist", "Muse"),
        (SearchTab::Playlists, "Title", "Muse Mix"),
    ];
    for (tab, head, first) in cases {
        let mut st = search_state();
        st.search_tab = tab;
        let lines = render(&st, 90, 16);
        assert!(
            lines[7][..PREFIX_W].trim().is_empty() && lines[7].contains(head),
            "{tab:?} header: {:?}",
            lines[7]
        );
        assert!(lines[8].trim().is_empty(), "{tab:?} lost its spacer");
        assert!(
            lines[9][..PREFIX_W].trim().is_empty() && lines[9].contains(first),
            "{tab:?} first row: {:?}",
            lines[9]
        );
    }
}

/// A click rect never disagrees with the glyphs it covers. Checked at several
/// widths, because a rect and a label drift apart at the width where a
/// column drops out from under one of them.
#[test]
fn a_header_hit_rect_covers_exactly_its_own_label() {
    for width in [34u16, 45, 60, 80, 120] {
        let st = tracks_state(vec![track("Starlight", "Muse")]);
        let shown = page(&st, width, 16);
        let lines = shown.lines();
        let headers = shown.all(|t| matches!(t, Target::Header(_)));
        assert!(!headers.is_empty(), "no headers recorded at width {width}");
        let layout = Layout::resolve(&tracks(false), (width - GUTTER) as usize, 1);
        for (rect, target) in &headers {
            let Target::Header(key) = target else { unreachable!() };
            let printed: String = lines[rect.y as usize]
                .chars()
                .skip(rect.x as usize)
                .take(rect.width as usize)
                .collect();
            // The active column carries a ▲, which is part of the label
            // and so part of the target. A narrow column clips its label,
            // and the target clips with it.
            let marker = match *key == ColKey::No {
                true => " ▲",
                false => "",
            };
            let cell = layout.cell(*key).expect("a rect for a dropped column");
            if key.head().is_empty() {
                // A column that heads itself with nothing takes its whole
                // cell as the target — there is no label to aim at.
                assert_eq!(rect.width as usize, cell.width, "{key:?} at width {width}");
                continue;
            }
            let expected =
                fit(&format!("{}{marker}", key.head()), cell.width).trim_end().to_string();
            assert_eq!(printed, expected, "{key:?} at width {width}");
            assert!(!printed.is_empty() && !printed.starts_with(' '));
        }
    }
}

/// An album row's *name* is a link, the way the Album column of a track
/// table is: one click opens it.
#[test]
fn an_album_row_registers_its_name_as_a_click_target() {
    let mut st = search_state();
    st.search_tab = SearchTab::Albums;
    let shown = page(&st, 90, 16);
    let lines = shown.lines();
    let col = text_col(&shown);
    let list = shown.at(Target::MainList);
    assert!(!col.rect.is_empty());
    // Covers the name column, past the marker gutter every table carries.
    assert_eq!(col.rect.x, list.x + PREFIX_W as u16);
    assert_eq!(col.rect.y, list.y);
    let layout = Layout::resolve(&albums(), 90 - GUTTER as usize, 0);
    assert_eq!(col.rect.width, layout.width_of(ColKey::Album) as u16);
    // Clipped to the one row that actually has an album on it.
    assert_eq!(col.rect.height, 1);
    let name: String = lines[col.rect.y as usize]
        .chars()
        .skip(col.rect.x as usize)
        .take(col.rect.width as usize)
        .collect();
    assert!(name.starts_with("Black Holes"), "{name:?}");
    // And the click stops with the name, not with the column.
    let at = |dx: u16| Position { x: col.rect.x + dx, y: col.rect.y };
    let printed = "Black Holes".len() as u16;
    assert_eq!(col.widths, vec![printed]);
    assert!(col.hit(at(printed - 1)));
    assert!(!col.hit(at(printed)), "the padding after the name hits");
}

#[test]
fn empty_search_tab_shows_message() {
    let mut st = search_state();
    results_mut(&mut st).playlists = sorted(Vec::new());
    st.search_tab = SearchTab::Playlists;
    let lines = render(&st, 60, 14);
    assert!(lines.iter().any(|l| l.contains("no playlists results for \"muse\"")));
}

fn artist_state() -> AppState {
    artist_state_with(vec![album_item("Black Holes", "2006", None)])
}

fn artist_state_with(albums: Vec<AlbumItem>) -> AppState {
    let mut st = idle();
    st.main = MainView::Artist(ArtistView {
        id: "r1".into(),
        name: "Muse".into(),
        image_url: Some("https://i.scdn.co/image/artist".into()),
        genres: vec!["alt rock".into(), "space rock".into()],
        top: sorted(vec![track("Uprising", "Muse")]),
        albums: sorted(albums),
        tabs: vec![ArtistTab::Albums],
        tab: ArtistTab::Albums,
        loading: false,
        error: None,
    });
    st.trail = alone("Muse");
    st
}

fn artist_mut(st: &mut AppState) -> &mut ArtistView {
    match &mut st.main {
        MainView::Artist(v) => v,
        _ => panic!("not an artist page"),
    }
}

/// The artist page wears the album page's header band — portrait where the
/// sleeve goes, name at the top of the column beside it, ▶ play at the
/// bottom of it — and puts both sections in one scrolling body under it.
#[test]
fn artist_page_stacks_a_portrait_band_over_tracks_then_cards() {
    let shown = page(&artist_state(), 90, 30);
    let lines = shown.lines();
    assert!(lines[PATH].contains("MUSE"));
    // The photo occupies the left 20 cells of the ten band rows (a
    // placeholder swatch here: nothing is decoded in the test).
    let w = art_w(ART_H) as usize;
    for row in lines.iter().take(14).skip(4) {
        let block: String = row.chars().take(w).collect();
        assert!(block.chars().all(|c| c == '▀' || c == '♫'), "not a portrait row: {row:?}");
    }
    assert!(lines[4].contains("Muse"));
    assert!(lines[5].contains("alt rock · space rock"));
    // The catalogue is counted; the top tracks are not — the list below
    // numbers itself.
    assert!(lines[6].contains("1 record"));
    assert!(!lines[6].contains("top track"));
    assert!(lines[8].contains("▶ play"));
    assert!(lines[8].contains("shuffle"));
    assert!(!shown.at(Target::HeaderPlay).is_empty());
    assert!(!shown.at(Target::HeaderShuffle).is_empty());

    // Body: the two sections, in order. Both headings keep a blank row
    // under them, and this catalogue is one group deep, so the album
    // strip stays away.
    assert!(lines[15].contains("Top Tracks"));
    assert!(lines[16].trim().is_empty());
    assert!(lines[17].contains("Title"));
    assert!(lines[18].trim().is_empty());
    assert!(lines[19].contains("Uprising"));
    assert!(lines[21].contains("Albums"));
    assert!(lines[22].trim().is_empty());
    assert!(lines[23].contains("Black Holes"));
    assert!(lines[24].contains("2006 · 12 tracks"));
    assert!(lines[25].contains("▶ play"));
    assert!(lines[25].contains("shuffle"));
    assert_eq!(card_plays(&shown).len(), 1);
    assert_eq!(card_shuffles(&shown).len(), 1);
}

/// The top tracks read as a table: a blank under the heading, the column
/// header, then the blank every other table on the browse screen keeps
/// between its header and its rows.
#[test]
fn the_top_tracks_header_keeps_a_blank_above_the_rows() {
    let lines = render(&artist_state(), 90, 32);
    assert!(lines[17].contains("Title"), "{:?}", lines[17]);
    assert!(lines[18].trim().is_empty(), "{:?}", lines[18]);
    assert!(lines[19].contains("Uprising"), "{:?}", lines[19]);
}

/// A pane too narrow to seat both pills keeps ▶ play and drops shuffle —
/// in the drawing and the hit rects alike.
#[test]
fn narrow_cards_drop_the_shuffle_pill() {
    let shown = page(&artist_state(), 14, 26);
    assert!(!card_plays(&shown).is_empty());
    assert!(card_shuffles(&shown).is_empty());
    assert!(!shown.lines().iter().any(|l| l.contains("shuffle")));
}

/// Cards are five lines apiece, so the pane keeps a line model and every
/// line of a card resolves back to the same row.
#[test]
fn album_cards_map_every_line_back_to_one_row() {
    let st = artist_state_with(vec![
        album_item("One", "2001", None),
        album_item("Two", "2002", None),
    ]);
    let shown = page(&st, 90, 32);
    let rows = shown.owners();
    // Heading, blank, column header, blank, one track, blank, heading,
    // blank, then the cards: four lines each plus a blank.
    assert_eq!(&rows[..8], &[None, None, None, None, Some(0), None, None, None]);
    assert_eq!(&rows[8..13], &[Some(1), Some(1), Some(1), Some(1), None]);
    assert_eq!(&rows[13..18], &[Some(2), Some(2), Some(2), Some(2), None]);
    assert_eq!(album_names(&shown).len(), 2);
    assert_eq!(card_plays(&shown).len(), 2);
    assert_eq!(card_shuffles(&shown).len(), 2);
}

fn artist_tabs(shown: &Shown) -> Vec<(Rect, ArtistTab)> {
    shown
        .all(|t| matches!(t, Target::ArtistTab(_)))
        .into_iter()
        .map(|(r, t)| match t {
            Target::ArtistTab(tab) => (r, tab),
            _ => unreachable!(),
        })
        .collect()
}

/// A catalogue in several groups gets a strip under the heading, and the
/// strip offers only the groups the artist has records in — an empty tab
/// is a dead end you can still walk into.
#[test]
fn the_album_strip_names_only_the_groups_the_artist_has() {
    let mut st = artist_state_with(vec![
        album_item("Origin Of Symmetry", "2001", None),
        album_item("Hysteria", "2003", None),
        album_item("Live At Rome", "2013", None),
    ]);
    let v = artist_mut(&mut st);
    v.tabs = vec![ArtistTab::Albums, ArtistTab::Singles, ArtistTab::AppearsOn];
    v.albums.display = vec![0];
    let shown = page(&st, 90, 32);
    let lines = shown.lines();
    // The band counts the whole catalogue, whichever tab is open.
    assert!(lines[6].contains("3 records"), "{:?}", lines[6]);
    assert!(lines[21].contains("Albums"));
    assert!(lines[22].trim().is_empty());
    let strip = &lines[23];
    assert!(strip.contains("Albums"), "{strip:?}");
    assert!(strip.contains("Singles"), "{strip:?}");
    assert!(strip.contains("Appears On"), "{strip:?}");
    assert!(!strip.contains("Compilations"), "{strip:?}");
    assert!(lines[24].trim().is_empty());
    // Only the open group's cards, one blank row below the strip.
    assert!(lines[25].contains("Origin Of Symmetry"));
    assert!(!lines.iter().any(|l| l.contains("Hysteria")));
    assert_eq!(card_plays(&shown).len(), 1);
    assert_eq!(card_shuffles(&shown).len(), 1);
    assert_eq!(
        artist_tabs(&shown).iter().map(|(_, t)| *t).collect::<Vec<_>>(),
        vec![ArtistTab::Albums, ArtistTab::Singles, ArtistTab::AppearsOn]
    );
}

/// Every recorded tab rect sits over the label it belongs to, the way the
/// search strip's do — a strip you cannot aim at is decoration.
#[test]
fn artist_tab_hit_rects_match_rendered_labels() {
    let mut st = artist_state_with(vec![
        album_item("Origin Of Symmetry", "2001", None),
        album_item("Hysteria", "2003", None),
    ]);
    let v = artist_mut(&mut st);
    v.tabs = vec![ArtistTab::Albums, ArtistTab::Singles];
    v.albums.display = vec![0];
    let shown = page(&st, 90, 32);
    let tabs = artist_tabs(&shown);
    assert_eq!(tabs.len(), 2);
    for (rect, tab) in &tabs {
        assert!(!rect.is_empty());
        let text = shown.text_in(*rect);
        assert!(text.contains(tab.title()), "tab {tab:?} rect {rect:?} shows {text:?}");
    }
}

/// Switching the tab re-cuts the cards and the row model with them, so a
/// click on the second tab's first card cannot land on the first tab's.
#[test]
fn switching_the_album_tab_re_cuts_the_cards() {
    let mut st = artist_state_with(vec![
        album_item("Origin Of Symmetry", "2001", None),
        album_item("Hysteria", "2003", None),
    ]);
    let v = artist_mut(&mut st);
    v.tabs = vec![ArtistTab::Albums, ArtistTab::Singles];
    v.tab = ArtistTab::Singles;
    v.albums.display = vec![1];
    let shown = page(&st, 90, 32);
    let lines = shown.lines();
    assert!(lines.iter().any(|l| l.contains("Hysteria")));
    assert!(!lines.iter().any(|l| l.contains("Origin Of Symmetry")));
    // One top track, so the first card is row 1 whichever tab is open.
    let names = album_names(&shown);
    assert_eq!(names.len(), 1);
    assert_eq!(names[0].1, 1);
    assert_eq!(shown.text_in(names[0].0), "Hysteria");
}

/// The sleeve is shed before the text is, on a card as on a header band.
#[test]
fn narrow_cards_drop_their_sleeve_before_their_name() {
    let lines = render(&artist_state(), 30, 26);
    assert!(lines.iter().any(|l| l.contains("Black Holes")));
    assert!(
        !lines.iter().any(|l| l.contains('▀')),
        "art survived a narrow pane: {lines:#?}"
    );
}

/// Hovering a link lights the run itself and nothing else.
#[test]
fn hovering_a_link_lights_the_text_and_not_its_padding() {
    let st = artist_state();
    // Draw once to learn where the first card's name landed.
    let (rect, row) = album_names(&page(&st, 90, 26))[0];
    assert_eq!(row, 1, "the card is the row after the one top track");
    assert_eq!(rect.width, 11, "the link is \"Black Holes\" and no wider");
    let shown = hovering(&st, rect.x, rect.y, 90, 26);
    let lit = |x: u16| shown.cell(x, rect.y).bg == Color::Rgb(0x58, 0x61, 0x66);
    // "Black Holes" is 11 cells; the pill covers exactly those.
    assert!(lit(rect.x), "the name is not lit");
    assert!(lit(rect.x + 10), "the pill stops short of the name");
    assert!(!lit(rect.x + 11), "the pill ran past the name into its padding");
    // And nothing is underlined any more, here or anywhere else.
    for y in 0..24 {
        for x in 0..90 {
            let cell = shown.cell(x, y);
            assert!(
                !cell.modifier.contains(Modifier::UNDERLINED),
                "{:?} at {x},{y} is underlined",
                cell.symbol()
            );
        }
    }
}

/// Hover styling is resolved against rects recorded during the same
/// frame, and the artist page's are the fiddliest on the screen: a
/// pointer anywhere has to resolve or miss, never underflow a row index.
#[test]
fn a_pointer_anywhere_on_the_artist_page_resolves_or_misses() {
    let albums = (0..4).map(|i| album_item(&format!("Record {i}"), "2006", None)).collect();
    let st = artist_state_with(albums);
    for y in 0..24u16 {
        for x in 0..90u16 {
            let mut scene = Scene::empty();
            let body = Rect { x: 0, y: HEAD, width: 90, height: 26 - HEAD };
            main_pane::draw(&mut scene, body, &st, pen_at(Some(Position { x, y })));
        }
    }
    hovering(&st, 4, 20, 90, 26);
}

#[test]
fn main_pane_short_pane_degrades_without_panicking() {
    for height in 0..12 {
        render(&tracks_state(vec![track("A", "B")]), 80, height);
        render(&search_state(), 80, height);
        render(&tracks_state(Vec::new()), 80, height);
        render(&artist_state(), 80, height);
    }
}

/// A page scrolled past its first rows draws the ones it was scrolled to.
#[test]
fn a_scrolled_artist_page_keeps_its_cards_and_their_rows() {
    let albums = (0..6).map(|i| album_item(&format!("Record {i}"), "2006", None)).collect();
    let mut st = artist_state_with(albums);
    st.main_offset = 10;
    let shown = page(&st, 90, 26);
    assert_eq!(shown.offset(), 10);
    let names = album_names(&shown);
    // The first card's name is the ninth line, above the screen.
    assert!(!names.is_empty() && names.iter().all(|(_, row)| *row > 1), "{names:?}");
    for (rect, row) in &names {
        assert_eq!(shown.text_in(*rect), format!("Record {}", row - 1));
    }
}

/// A page of countries names its rows by what they are, and counts them.
#[test]
fn a_page_of_countries_lists_codes_and_counts() {
    let facet = |key: &str, label: &str, count: u32| RadioRow::Facet {
        key: key.into(),
        label: label.into(),
        count,
    };
    let mut st = idle();
    st.main = MainView::Radio(radio_view(
        RadioTab::Countries,
        false,
        vec![facet("gb", "The United Kingdom", 512), facet("de", "Germany", 77)],
        false,
    ));
    st.trail = alone("Countries");
    let lines = render(&st, 90, 18);
    assert!(lines[PATH].contains("2 entries"), "{:?}", lines[PATH]);
    let joined = lines.join("\n");
    assert!(joined.contains("Country") && joined.contains("Code"), "{joined}");
    let row = lines.iter().find(|l| l.contains("The United Kingdom")).unwrap();
    assert!(row.contains("GB") && row.contains("512"), "{row:?}");

    if let MainView::Radio(v) = &mut st.main {
        v.tab = RadioTab::Genres;
    }
    let joined = render(&st, 90, 18).join("\n");
    assert!(joined.contains("Genre"), "{joined}");
    assert!(!joined.contains("Code"), "{joined}");
}

/// A playlist row whose index names nothing is left out.
#[test]
fn a_playlist_that_went_away_leaves_no_row() {
    let mut st = idle();
    st.main = MainView::Playlists;
    st.playlists = sorted(vec![playlist("p1", "trendy", 18, "me", "me")]);
    st.playlists.display = vec![7, 0];
    let lines = render(&st, 90, 22);
    assert!(lines[6].contains("trendy"), "{:?}", lines[6]);
}

/// A page of playlists still asking turns a spinner, and one that was refused
/// says why, before any column is headed.
#[test]
fn a_page_of_playlists_says_what_it_waits_for() {
    let mut st = idle();
    st.main = MainView::Playlists;
    st.loading = true;
    let lines = render(&st, 90, 22);
    assert!(lines.iter().any(|l| l.contains("loading playlists…")), "{lines:#?}");
    assert!(!lines.iter().any(|l| l.contains("Owner")));
    assert!(is_animating(&st));

    st.loading = false;
    st.playlists_error = refusal("401");
    let shown = page(&st, 90, 22);
    assert!(shown.lines().iter().any(|l| l.contains("401")));
    assert!(!shown.at(Target::Retry).is_empty());
}

/// Totals say how much has come in, and how much is still to come.
#[test]
fn totals_read_in_hours_and_say_when_they_are_not_all() {
    assert_eq!(format_total_duration(0), "0 min");
    assert_eq!(format_total_duration(45 * 60_000), "45 min");
    assert_eq!(format_total_duration(135 * 60_000), "2 hr 15 min");
    let mut st = tracks_state(vec![track("A", "B")]);
    list_mut(&mut st).loading = true;
    let joined = render(&st, 90, 22).join("\n");
    assert!(joined.contains("1 tracks · 1 min+"), "{joined}");
}

/// A card says what is known of its record, and nothing of what is not.
#[test]
fn a_card_prints_what_it_knows() {
    let mut a = album_item("X", "2006", None);
    assert_eq!(album_meta(&a), "2006 · 12 tracks");
    a.track_count = 1;
    assert_eq!(album_meta(&a), "2006 · 1 track");
    a.track_count = 0;
    assert_eq!(album_meta(&a), "2006");
    a.release_year = String::new();
    assert_eq!(album_meta(&a), "");
    a.track_count = 2;
    assert_eq!(album_meta(&a), "2 tracks");
}

/// A playlist, or a record, that is the source of what is playing is marked.
#[test]
fn the_source_of_what_plays_is_marked_in_search_results() {
    let mut st = search_state();
    play_uri(&mut st, "spotify:track:x");
    st.queue.as_mut().unwrap().source_key = Some("playlist:p1".into());
    st.search_tab = SearchTab::Playlists;
    let lines = render(&st, 90, 16);
    assert!(lines[9].starts_with("♫ Muse Mix"), "{:?}", lines[9]);
    st.queue.as_mut().unwrap().source_key = Some("album:a1".into());
    st.search_tab = SearchTab::Albums;
    let lines = render(&st, 90, 16);
    assert!(lines[9].starts_with("♫ Black Holes"), "{:?}", lines[9]);
    // Nothing on the deck, so nothing is marked.
    st.deck.playback = None;
    assert!(!render(&st, 90, 16)[9].contains('♫'));
}

/// However short the pane, a band leaves rows for the table below it.
#[test]
fn a_band_never_takes_the_whole_pane() {
    let plain = tracks_state(vec![track("A", "B")]);
    let mut wordy = album_state();
    list_mut(&mut wordy).header.description = "prose".into();
    for height in HEAD + 8..HEAD + 30 {
        for st in [&plain, &wordy] {
            let list = page(st, 90, height).at(Target::MainList);
            // A header and a blank over it, of the three rows that are left.
            assert!(list.height >= 1, "{height}: {list:?}");
            assert_eq!(list.bottom(), height);
        }
    }
}

/// Two cards never take the same click.
#[test]
fn a_click_lands_on_one_card() {
    let albums = (0..6).map(|i| album_item(&format!("Record {i}"), "2006", None)).collect();
    let st = artist_state_with(albums);
    let shown = page(&st, 90, 40);
    let mut all = album_names(&shown);
    all.extend(card_plays(&shown));
    all.extend(card_shuffles(&shown));
    for y in 0..40 {
        for x in 0..90 {
            let p = Position { x, y };
            assert!(all.iter().filter(|(r, _)| r.contains(p)).count() <= 1, "{x},{y}");
        }
    }
}

// ---- the header ----

/// The row the prompt lands on: the first one, beside the mark.
const PROMPT_ROW: usize = 0;
/// And the row the path drops to, under it.
const PATH_ROW: usize = SEARCH_H as usize;
/// Where the field beside the mark starts.
const FIELD_X: u16 = BRAND_W + MARK_GAP;

fn header_with(
    st: &AppState,
    count: Option<&str>,
    mouse: Option<Position>,
    width: u16,
    height: u16,
) -> Shown {
    let pen = pen_at(mouse);
    let mut scene = Scene::empty();
    let page = PageHeader { loading: false, count: count.map(Into::into) };
    top_row::draw(&mut scene, screen_rect(width, height), st, &page, pen);
    Shown::new(scene, &pen, width, height)
}

fn header(st: &AppState, width: u16) -> Shown {
    header_with(st, None, None, width, HEAD_H)
}

fn playlists_page() -> AppState {
    let mut st = idle();
    st.main = MainView::Playlists;
    st.trail = alone("Playlists");
    st
}

/// The mark leads the top row and the prompt follows it — the control you
/// reach for most, on the row that is always there.
#[test]
fn the_mark_leads_the_prompt_on_the_top_row() {
    let shown = header(&playlists_page(), 80);
    let lines = shown.lines();
    assert!(lines[PROMPT_ROW].starts_with("♫ spot"), "{:?}", lines[0]);
    assert!(lines[PROMPT_ROW].contains("/  search"), "{:?}", lines[0]);
    assert_eq!(shown.at(Target::Home).x, 0);
    // And the path is a row down, at the margin, with the width to itself.
    assert!(lines[PATH_ROW].starts_with("PLAYLISTS"), "{:?}", lines[2]);
    assert!(!lines[PROMPT_ROW].contains("PLAYLISTS"), "the path is not on the top row");
}

/// Home draws no crumb: the mark is already the way there.
#[test]
fn home_draws_no_path_at_all() {
    let shown = header(&idle(), 80);
    let lines = shown.lines();
    assert_eq!(lines[PROMPT_ROW].trim_end(), "♫ spot    /  search Spotify and radio…");
    assert!(lines[PATH_ROW].trim().is_empty(), "{:?}", lines[PATH_ROW]);
    assert!(shown.crumbs().is_empty());
}

/// And it is gone from the *front* of a path too, not just from its own
/// page.
#[test]
fn home_is_not_the_root_of_a_deeper_path() {
    let lines = header(&playlists_page(), 80).lines();
    assert!(!lines[PATH_ROW].contains("HOME"), "{:?}", lines[PATH_ROW]);
    assert!(!lines[PATH_ROW].contains('›'), "{:?}", lines[PATH_ROW]);
    assert!(lines[PATH_ROW].contains("PLAYLISTS"), "{:?}", lines[PATH_ROW]);
}

/// A page's total is pinned opposite the path, on the row the path is on.
#[test]
fn a_count_sits_opposite_the_path() {
    let lines = header_with(&playlists_page(), Some("8 playlists"), None, 80, HEAD_H).lines();
    assert!(lines[PATH_ROW].trim_end().ends_with("8 playlists"), "{:?}", lines[PATH_ROW]);
    assert!(lines[PATH_ROW].starts_with("PLAYLISTS"), "{:?}", lines[PATH_ROW]);
}

/// Idle the prompt is an affordance rather than a control.
#[test]
fn idle_shows_the_prompt_and_a_placeholder() {
    let shown = header(&idle(), 80);
    let row = &shown.lines()[PROMPT_ROW];
    assert!(row.contains("/  search"), "{row:?}");
    assert!(!row.contains('▏'), "an idle row should not show a caret");
    assert!(!row.contains("esc"));
    let field = shown.at(Target::SearchBox);
    assert!(!field.is_empty(), "the field must be clickable");
    assert_eq!(field.y, PROMPT_ROW as u16);
}

fn typing(text: &str) -> AppState {
    let mut st = idle();
    st.input_mode = InputMode::Search;
    st.input_buffer = text.into();
    st
}

#[test]
fn typing_shows_the_query_a_caret_and_the_keys() {
    let lines = header(&typing("donna the buffalo"), 80).lines();
    let row = &lines[PROMPT_ROW];
    assert!(row.contains("donna the buffalo▏"), "{row:?}");
    assert!(row.contains("enter · esc"), "{row:?}");
    assert!(!row.contains(PLACEHOLDER));
}

/// `/` and `Esc` must not move a single line of what is around the prompt.
#[test]
fn the_header_is_the_same_height_in_both_states() {
    let still = header(&idle(), 80);
    let busy = header(&typing("x"), 80);
    let (idle_lines, typing_lines) = (still.lines(), busy.lines());
    assert_eq!(idle_lines.len(), typing_lines.len());
    assert_eq!(still.at(Target::SearchBox).y, busy.at(Target::SearchBox).y);
    // The blanks under the prompt and the path stay blank, so the content
    // under the header does not shift.
    for y in [1, PATH_ROW + 1] {
        assert!(idle_lines[y].trim().is_empty(), "{:?}", idle_lines[y]);
        assert!(typing_lines[y].trim().is_empty(), "{:?}", typing_lines[y]);
    }
}

/// A submitted query stays on screen while its results are.
#[test]
fn a_submitted_query_stays_visible_after_the_mode_ends() {
    let mut st = idle();
    st.main = MainView::Search(results("muse"));
    assert!(st.input_buffer.is_empty(), "the buffer is cleared on submit");
    let lines = header(&st, 80).lines();
    assert!(lines[PROMPT_ROW].contains("muse"));
    assert!(!lines[PROMPT_ROW].contains(PLACEHOLDER));

    // Browsing away from the results puts the prompt back.
    let lines = header(&idle(), 80).lines();
    assert!(lines[PROMPT_ROW].contains(PLACEHOLDER));
}

/// The field reads as a box, so all of it must be clickable.
#[test]
fn the_whole_field_is_clickable_not_just_the_text() {
    let field = header(&typing("mu"), 80).at(Target::SearchBox);
    assert_eq!(field.x, FIELD_X, "the field starts past the mark");
    assert!(field.width > 40, "hit rect is only {} wide", field.width);
    assert!(field.contains(Position { x: 40, y: PROMPT_ROW as u16 }));
    // And it does not reach back to the mark: a click there means Home,
    // not "start typing".
    assert!(!field.contains(Position { x: 2, y: 0 }));
}

/// The fill is what says "box you can type in" with no border to say it,
/// and it covers the rect the click does.
#[test]
fn the_field_is_filled_at_rest_and_lights_under_the_pointer() {
    let st = idle();
    let shown = header(&st, 80);
    let field = shown.at(Target::SearchBox);
    assert_eq!(shown.cell(field.x, 0).bg, rgb(theme::FIELD));
    assert_eq!(
        shown.cell(field.right() - 1, 0).bg,
        rgb(theme::FIELD),
        "the fill stops short of the field's own edge"
    );
    // The gap between the mark and the field is not painted: the fill is
    // the control, not the row.
    assert_eq!(shown.cell(field.x - 1, 0).bg, Color::Reset);

    let mouse = Some(Position { x: field.x + 20, y: 0 });
    let shown = header_with(&st, None, mouse, 80, HEAD_H);
    assert_eq!(shown.cell(field.x, 0).bg, rgb(theme::FIELD_HOVER));
}

/// The field is a box, not a band: given a very wide terminal it stops
/// growing rather than painting a filled bar the width of the header.
#[test]
fn the_field_stops_growing_on_a_wide_terminal() {
    let shown = header(&idle(), 200);
    assert_eq!(shown.at(Target::SearchBox).width, MAX_QUERY_W);
    // And the cells past it are the terminal's own ground again.
    let past = shown.at(Target::SearchBox).right();
    assert_eq!(shown.cell(past, 0).bg, Color::Reset);
    // A row with less than that to give hands over what it has.
    assert_eq!(header(&idle(), 60).at(Target::SearchBox).width, 60 - FIELD_X);
}

/// The `/` keeps its colour whether or not you are typing, so it reads as a
/// control; the placeholder beside it stays dim.
#[test]
fn the_slash_stays_lit_over_a_dim_placeholder() {
    let shown = header(&idle(), 80);
    let field = shown.at(Target::SearchBox);
    assert_eq!(shown.cell(field.x + 1, 0).fg, rgb(theme::WARN), "the /");
    assert_eq!(shown.cell(field.x + 4, 0).fg, rgb(theme::DIM), "the placeholder");

    let shown = header(&typing("muse"), 80);
    assert_eq!(shown.cell(field.x + 1, 0).fg, rgb(theme::WARN), "the /");
    assert_eq!(shown.cell(field.x + 4, 0).fg, rgb(theme::WARN), "the query");
}

/// A band with room for one row draws the path, not the prompt.
#[test]
fn a_short_band_keeps_the_path_and_sheds_the_prompt() {
    let shown = header_with(&playlists_page(), None, None, 80, NAV_H);
    let row = &shown.lines()[0];
    assert!(row.starts_with("♫ spot"), "{row:?}");
    assert!(row.contains("PLAYLISTS"), "{row:?}");
    assert!(shown.at(Target::SearchBox).is_empty(), "the prompt should be shed");
}

#[test]
fn narrow_and_empty_rows_degrade_without_panicking() {
    for width in 0..20 {
        let mut st = typing("a rather long query");
        st.main = MainView::Playlists;
        st.trail = alone("Playlists");
        header(&st, width);
    }
    header_with(&idle(), None, None, 40, 0);
}

/// A playing record, with sound already coming out.
fn streaming() -> AppState {
    let mut st = idle();
    st.wear = Wear::Reports;
    st.deck.playback = Some(playback(track("x", "x"), 70));
    st.deck.tap_fresh = true;
    st
}

fn radio_state() -> AppState {
    let mut st = idle();
    st.wear = Wear::Reports;
    st.deck.radio = Some(on_air(station("s1", "KEXP"), None));
    st.deck.tap_fresh = true;
    st
}

/// What is making sound, opposite the mark, on the row the mark is on.
#[test]
fn the_status_names_the_source_it_is_playing_from() {
    let shown = header(&streaming(), 80);
    let lines = shown.lines();
    assert!(lines[PROMPT_ROW].trim_end().ends_with("● STREAMING"), "{:?}", lines[PROMPT_ROW]);
    let status = shown.at(Target::Status);
    assert!(!status.is_empty(), "the status must be clickable");
    assert_eq!(status.y, 0);
    assert_eq!(status.right(), 80);

    let lines = header(&radio_state(), 80).lines();
    assert!(lines[PROMPT_ROW].trim_end().ends_with("● RADIO"), "{:?}", lines[PROMPT_ROW]);
}

/// Nothing playing draws nothing: an idle word would be a control leading
/// to a player with nothing in it.
#[test]
fn nothing_playing_draws_no_status() {
    let shown = header(&playlists_page(), 80);
    let lines = shown.lines();
    assert!(!lines[PROMPT_ROW].contains('●'), "{:?}", lines[PROMPT_ROW]);
    assert_eq!(lines[PATH_ROW].trim_end(), "PLAYLISTS", "{:?}", lines[PATH_ROW]);
    assert!(shown.at(Target::Status).is_empty(), "and nothing to click");
}

/// Paused is a resting state, so the whole control recedes — the dot and
/// the word together.
#[test]
fn paused_greys_the_dot_and_the_word_alike() {
    let mut st = streaming();
    st.deck.playback.as_mut().unwrap().is_playing = false;
    let shown = header(&st, 80);
    let lines = shown.lines();
    assert!(lines[PROMPT_ROW].trim_end().ends_with("● STREAMING"), "{:?}", lines[PROMPT_ROW]);
    let dot = shown.at(Target::Status).x;
    assert_eq!(shown.cell(dot, 0).fg, rgb(theme::DIM), "the dot is not at rest");
    assert_eq!(shown.cell(dot + 2, 0).fg, rgb(theme::DIM), "nor is the word");
}

/// Claims to be playing, but no audio has arrived.
#[test]
fn a_source_with_no_audio_yet_reads_as_loading() {
    let mut st = radio_state();
    st.deck.tap_fresh = false;
    let shown = header(&st, 80);
    let lines = shown.lines();
    assert!(lines[PROMPT_ROW].trim_end().ends_with("● LOADING"), "{:?}", lines[PROMPT_ROW]);
    let dot = shown.at(Target::Status).x;
    assert_eq!(shown.cell(dot, 0).fg, rgb(theme::WARN));
}

/// A track that has been asked for but has not made sound yet.
#[test]
fn a_track_asked_for_but_not_started_reads_as_loading() {
    let mut st = streaming();
    st.deck.tap_fresh = false;
    let shown = header(&st, 80);
    let lines = shown.lines();
    assert!(lines[PROMPT_ROW].trim_end().ends_with("● LOADING"), "{:?}", lines[PROMPT_ROW]);
    let dot = shown.at(Target::Status).x;
    assert_eq!(shown.cell(dot, 0).fg, rgb(theme::WARN));

    // And the moment audio arrives it is streaming, whatever the poll has
    // or has not confirmed by then.
    st.deck.tap_fresh = true;
    let lines = header(&st, 80).lines();
    assert!(lines[PROMPT_ROW].trim_end().ends_with("● STREAMING"), "{:?}", lines[PROMPT_ROW]);
}

/// The count is about the page and the status is about the sound, so they
/// are on different rows.
#[test]
fn the_count_and_the_status_no_longer_share_a_row() {
    let mut st = streaming();
    st.main = MainView::Playlists;
    st.trail = alone("Playlists");
    let lines = header_with(&st, Some("8 playlists"), None, 80, HEAD_H).lines();
    assert!(lines[PROMPT_ROW].trim_end().ends_with("● STREAMING"), "{:?}", lines[PROMPT_ROW]);
    assert!(!lines[PROMPT_ROW].contains("8 playlists"));
    assert!(lines[PATH_ROW].trim_end().ends_with("8 playlists"), "{:?}", lines[PATH_ROW]);
    assert!(!lines[PATH_ROW].contains("STREAMING"));
    // And the path gets the whole row's width, not what is left after a
    // mark, a count and a status.
    assert!(lines[PATH_ROW].starts_with("PLAYLISTS"), "{:?}", lines[PATH_ROW]);
}

/// On a top row too tight for both, the status is what goes.
#[test]
fn a_tight_row_sheds_the_status_before_the_query() {
    let mut st = streaming();
    st.main = MainView::Tracks(list_of("Black Holes", Vec::new()));
    st.trail = alone("Black Holes");
    let shown = header(&st, 40);
    let lines = shown.lines();
    assert!(!lines[PROMPT_ROW].contains("STREAMING"), "{:?}", lines[0]);
    assert!(shown.at(Target::Status).is_empty());
    let field = shown.at(Target::SearchBox);
    assert!(field.width >= MIN_QUERY_W, "the field kept only {} cells", field.width);
    // The path is on its own row and never had to pay for either of them.
    assert!(lines[PATH_ROW].contains("BLACK HOLES"), "{:?}", lines[PATH_ROW]);

    // Given the room, the status comes back.
    let lines = header(&st, 80).lines();
    assert!(lines[PROMPT_ROW].trim_end().ends_with("● STREAMING"), "{:?}", lines[PROMPT_ROW]);
    assert!(lines[PATH_ROW].contains("BLACK HOLES"), "{:?}", lines[PATH_ROW]);
}

// ---- the whole screen ----

fn browse_state() -> AppState {
    let mut st = idle();
    // A signed-in account, which is what the library screens are about.
    st.spotify_ready = true;
    st.playlists = sorted(
        (0..8)
            .map(|i| playlist(&format!("p{i}"), &format!("Playlist {i}"), 10 + i, "me", "me"))
            .collect(),
    );
    let tracks: Vec<Track> = (0..12)
        .map(|i| Track {
            uri: format!("spotify:track:t{i}"),
            name: format!("Track Number {i}"),
            artists: format!("Artist {i}"),
            album: "Album Name".into(),
            release_year: "2020".into(),
            duration_ms: 83_000,
            track_number: i as u32 + 1,
            album_id: Some("alb".into()),
            credits: vec![Credit { name: format!("Artist {i}"), id: Some("art".into()) }],
            cover_url: None,
        })
        .collect();
    let mut list = list_of("Hey Arnold!", tracks.clone());
    list.header.subtitle = "by me".into();
    // The same list is what is playing, so the bar's context row names it
    // — the queue is the list's rows, at the row that is on.
    st.queue = Some(Queue {
        name: "My Mix".into(),
        rows: sorted(tracks.clone()),
        loading: false,
        current: Some("spotify:track:t3".into()),
        source_key: Some("playlist:p2".into()),
    });
    st.main = MainView::Tracks(list);
    st.trail = alone("Hey Arnold!");
    let mut pb = playback(tracks[3].clone(), 70);
    pb.progress_ms = 49_000;
    st.deck.playback = Some(pb);
    st
}

fn frame(st: &mut AppState, width: u16, height: u16) -> Shown {
    let pen = pen_at(None);
    let mut scene = Scene::empty();
    draw(&mut scene, screen_rect(width, height), st, pen);
    Shown::new(scene, &pen, width, height)
}

fn screen(st: &mut AppState, width: u16, height: u16) -> Vec<String> {
    frame(st, width, height).lines()
}

/// A frame records the bar's sleeve, the sleeve expands, and the next frame is
/// the picture. Putting it away gives the screen back.
#[test]
fn clicking_the_bars_sleeve_fills_the_screen_and_clicking_again_gives_it_back() {
    let mut st = browse_state();
    let first = frame(&mut st, 100, 34);
    let before = first.lines();
    let sleeves = first.all(|t| matches!(t, Target::Sleeve { .. }));
    let (sleeve, target) = sleeves.last().expect("the bar drew no sleeve").clone();
    assert!(!sleeve.is_empty(), "the bar drew no sleeve");
    let Target::Sleeve { seed } = target else { unreachable!() };
    st.art_zoom = Some(ArtZoom { picture: Picture::Playing, seed });

    let zoomed = screen(&mut st, 100, 34);
    // 34 rows is the shorter side, so the block takes all of them and
    // squares to 68 cells, centred in the 100 the width offers. This queue
    // names no cover, so the block is the placeholder and carries its one
    // note.
    let (x0, w) = (16, 68);
    let mut notes = 0;
    for row in &zoomed {
        let cells: Vec<char> = row.chars().collect();
        assert!(cells[..x0].iter().all(|c| *c == ' '), "{row:?}");
        assert!(cells[x0 + w..].iter().all(|c| *c == ' '), "{row:?}");
        for c in &cells[x0..x0 + w] {
            match c {
                '▀' => {}
                '♫' => notes += 1,
                _ => panic!("a hole in the picture: {row:?}"),
            }
        }
    }
    assert_eq!(notes, 1);

    st.art_zoom = None;
    assert_eq!(screen(&mut st, 100, 34), before, "the screen did not return");
}

/// The browse screen wears no frames. One mark is allowed to survive — the
/// scrollbar track, which is a control rather than chrome. The bottom bar is
/// separated from the list above it by a blank row, not a rule.
#[test]
fn the_browse_screen_draws_no_pane_frames() {
    let lines = screen(&mut browse_state(), 100, 34);
    for (y, line) in lines.iter().enumerate() {
        for c in "╭╮╰╯┌┐└┘".chars() {
            assert!(!line.contains(c), "corner {c:?} on row {y}: {line:?}");
        }
    }
    // No horizontal rules at all. Matched as a row of nothing but `─` and
    // margin — the progress and volume tracks are drawn with the same
    // glyph, but always alongside other marks.
    let rules: Vec<usize> = lines
        .iter()
        .enumerate()
        .filter(|(_, l)| l.contains('─') && l.chars().all(|c| c == '─' || c == ' '))
        .map(|(y, _)| y)
        .collect();
    assert!(rules.is_empty(), "expected no rules, got rows {rules:?}");
    // And the bar's own top row is blank.
    assert!(
        lines[34 - BAR_H as usize].trim().is_empty(),
        "bar's top row is not blank: {:?}",
        lines[34 - BAR_H as usize]
    );
}

/// The layout bands are fixed, so entering and leaving search mode must
/// not move a single row of what is below the prompt.
#[test]
fn entering_search_mode_shifts_nothing() {
    let before = screen(&mut browse_state(), 100, 34);
    let mut searching = browse_state();
    searching.input_mode = InputMode::Search;
    let after = screen(&mut searching, 100, 34);
    // The prompt row itself is expected to differ; nothing else may move,
    // the path on the row under it included.
    for y in (0..34).filter(|&y| y != 0) {
        assert_eq!(before[y], after[y], "row {y} moved when search opened");
    }
}

/// With no rail beside it the pane starts at the screen's own margin, and
/// its label is simply the page's name.
#[test]
fn the_pane_spans_the_screen_under_its_label() {
    let shown = frame(&mut browse_state(), 100, 34);
    // The path is a row of its own under the prompt, and it starts at the
    // screen's margin: the head of it is the accent run in column 1.
    assert_eq!(shown.cell(1, SEARCH_H).fg, rgb(theme::ACCENT));
    // The track table reaches the far side. Row 10 is that heading: label,
    // blank, the band's four lines and the blank under its control row, then
    // the columns.
    let row = &shown.lines()[10];
    assert!(row.contains("Title"), "not the column header: {row:?}");
    assert!(
        row.find("Year").is_some_and(|at| at > 70),
        "the table stops short of the screen: {row:?}"
    );
}

/// Both views lead with the same two fixtures: the mark at the margin and
/// the playback status opposite it, in the same columns, so toggling the
/// player does not appear to move either of them.
#[test]
fn the_nav_row_is_the_same_in_both_views() {
    // Two pages deep, so the path has a step on it as well as a head.
    // Home draws no crumb, so one step down from Home is a head alone.
    let nested = || {
        let mut st = browse_state();
        st.main = MainView::Tracks(list_of("Black Holes", Vec::new()));
        st.trail =
            vec![step("Muse", CrumbTarget::Depth(1)), step("Black Holes", CrumbTarget::Current)];
        st
    };
    let mut open = nested();
    open.show_player = true;
    let browse = frame(&mut nested(), 100, 34);
    let player = frame(&mut open, 100, 34);
    let (a, b) = (browse.lines(), player.lines());
    // Column 0 is the screen's own one-cell margin, which both views inset
    // themselves by.
    let home = browse.at(Target::Home);
    assert_eq!(home.x, 1, "the mark sits at the margin");
    assert_eq!(home.width, BRAND_W);
    assert_eq!(home, player.at(Target::Home), "the mark moved when the player opened");
    // Drawn on both screens from the same code, so this is what catches
    // the two drifting apart.
    assert_eq!(
        browse.at(Target::Status),
        player.at(Target::Status),
        "the status moved when the player opened"
    );
    assert!(ends_with_loading(&a[0]), "{:?}", a[0]);
    assert!(ends_with_loading(&b[0]), "{:?}", b[0]);
    assert!(a[1].trim().is_empty(), "{:?}", a[1]);

    // Between them the rows part ways: the prompt on the browse screen,
    // the path on the player.
    assert!(a[0].starts_with(" ♫ spot    /  search"), "{:?}", a[0]);
    assert!(b[0].starts_with(" ♫ spot   MUSE  ›  BLACK HOLES"), "{:?}", b[0]);
    assert!(!browse.at(Target::SearchBox).is_empty());
    assert!(player.at(Target::SearchBox).is_empty(), "the player has no prompt");

    // The browse screen's path is a row under its prompt, at the margin
    // rather than indented past a mark — which is what buys it the width.
    let path = SEARCH_H as usize;
    assert!(a[path].starts_with(" MUSE  ›  BLACK HOLES"), "{:?}", a[path]);

    // The ancestors are controls on both, and there is the same one of
    // them either way. Only the head disagrees: on the browse screen it is
    // the page you are already on and leads nowhere, while in the player
    // it closes the view.
    let targets = |s: &Shown| -> Vec<_> { s.crumbs().into_iter().map(|(_, t)| t).collect() };
    assert_eq!(targets(&browse), targets(&player));
    assert_eq!(targets(&browse).len(), 1);
    assert_eq!(browse.crumbs()[0].0.y, SEARCH_H);
    assert_eq!(player.crumbs()[0].0.y, 0);
    assert!(browse.at(Target::ClosePlayer).is_empty());
    assert!(!player.at(Target::ClosePlayer).is_empty());
}

fn entry(title: &str, count: &str, blurb: &str) -> HomeEntry {
    HomeEntry { title: title.into(), count: count.into(), blurb: blurb.into() }
}

/// Home is what the app opens onto, and the mark is what gets back to it.
#[test]
fn home_lists_its_destinations() {
    let mut st = browse_state();
    st.main = MainView::Home;
    st.trail = Vec::new();
    st.home = vec![
        entry("Liked Songs", "", "everything you have saved"),
        entry("Discover Weekly", "30 tracks", "new every Monday"),
        entry("Playlists", "9 playlists", "saved and followed"),
        entry("Radio", "", "live stations from around the world"),
    ];
    let lines = screen(&mut st, 100, 34);
    // Home draws no crumb: the mark is already the way there. The
    // playback status is opposite it, as on every other page.
    assert!(lines[0].starts_with(" ♫ spot "), "{:?}", lines[0]);
    assert!(ends_with_loading(&lines[0]), "{:?}", lines[0]);
    assert!(!lines[0].contains('›'), "{:?}", lines[0]);
    assert!(lines[4].contains("Liked Songs"), "{:?}", lines[4]);
    // No count: its length is not known until it is opened.
    assert!(lines[4].trim_end().ends_with("Liked Songs"), "{:?}", lines[4]);
    assert!(lines[5].contains("everything you have saved"), "{:?}", lines[5]);

    assert!(lines[7].contains("Discover Weekly"), "{:?}", lines[7]);
    assert!(lines[7].contains("30 tracks"), "{:?}", lines[7]);

    assert!(lines[10].contains("Playlists"), "{:?}", lines[10]);
    assert!(lines[10].contains("9 playlists"), "{:?}", lines[10]);
    assert!(lines[11].contains("saved and followed"), "{:?}", lines[11]);

    // Radio appends, so every row above it keeps the line it was on.
    assert!(lines[13].contains("Radio"), "{:?}", lines[13]);
    assert!(
        lines[13].trim_end().ends_with("Radio"),
        "no saved stations yet, so no count: {:?}",
        lines[13]
    );
    assert!(
        lines[14].contains("live stations from around the world"),
        "{:?}",
        lines[14]
    );
}

/// Every entry is one control two lines tall, and lights its name alone.
#[test]
fn a_home_entry_answers_on_both_of_its_lines() {
    let mut st = idle();
    st.home = vec![entry("Liked Songs", "", "saved"), entry("Radio", "2 saved", "live")];
    let shown = page(&st, 60, 20);
    let second = shown.at(Target::HomeRow(1));
    assert_eq!((second.y, second.height), (HEAD + 3, 2));
    assert_eq!(shown.owners(), vec![Some(0), Some(0), None, Some(1), Some(1)]);
    let lit = hovering(&st, second.x + 30, second.y + 1, 60, 20);
    assert_eq!(lit.cell(2, second.y).bg, rgb(theme::DIM));
    assert_eq!(lit.cell(2 + 5, second.y).bg, Color::Reset);
    assert_eq!(lit.cell(2, second.y + 1).bg, Color::Reset);
}

/// The help overlay is the only place the running version is written down.
#[test]
fn the_help_overlay_names_the_version() {
    let mut st = browse_state();
    st.show_help = true;
    let quiet = screen(&mut st, 100, 44).join("\n");
    assert!(quiet.contains("spot v0.1.0"), "{quiet}");

    st.update = UpdateState::Available("v9.9.9".into());
    let offered = screen(&mut st, 100, 44).join("\n");
    assert!(offered.contains("v9.9.9 available"), "{offered}");
}

fn station(uuid: &str, name: &str) -> Station {
    Station {
        uuid: uuid.into(),
        name: name.into(),
        url: format!("http://stream/{uuid}"),
        tags: "eclectic".into(),
        country: "The United States Of America".into(),
        countrycode: "US".into(),
        quality: "MP3 128k".into(),
        hls: false,
    }
}

/// The radio page: a tab strip over a station table, with the saved mark
/// on the ones you kept and an `HLS` marker on the ones that cannot be played.
#[test]
fn the_radio_page_lists_stations_under_its_tabs() {
    let mut st = browse_state();
    st.favorites = vec![station("a", "Radio Paradise")];
    let mut hls = station("c", "BBC Radio 6 Music");
    hls.hls = true;
    hls.quality = "HLS".into();
    st.main = MainView::Radio(radio_view(
        RadioTab::Popular,
        false,
        vec![
            RadioRow::Station(station("a", "Radio Paradise")),
            RadioRow::Station(station("b", "SomaFM")),
            RadioRow::Station(hls),
        ],
        false,
    ));

    let lines = screen(&mut st, 100, 34);
    let joined = lines.join("\n");
    for tab in ["Popular", "Countries", "Genres", "Saved"] {
        assert!(joined.contains(tab), "missing tab {tab}: {joined}");
    }
    assert!(joined.contains("3 stations"), "{joined}");

    let saved = lines.iter().find(|l| l.contains("Radio Paradise")).unwrap();
    assert!(saved.contains(LIKED_MARK), "a kept station wears the mark: {saved:?}");
    let unsaved = lines.iter().find(|l| l.contains("SomaFM")).unwrap();
    assert!(!unsaved.contains(LIKED_MARK), "an unkept one does not: {unsaved:?}");
    assert!(unsaved.contains("MP3 128k"), "{unsaved:?}");

    // Listed, not hidden — dropping these would silently remove the BBC.
    let bbc = lines.iter().find(|l| l.contains("BBC Radio 6")).unwrap();
    assert!(bbc.contains("HLS"), "{bbc:?}");
}

/// An empty Saved page says how to fill it rather than showing a blank
/// table under column headings.
#[test]
fn an_empty_saved_page_says_what_to_do() {
    let mut st = browse_state();
    st.main = MainView::Radio(radio_view(RadioTab::Saved, true, Vec::new(), false));
    let joined = screen(&mut st, 100, 34).join("\n");
    assert!(joined.contains("no saved stations yet"), "{joined}");
}

/// The search row is one box that asks both catalogues, so it says the
/// same thing on every page.
#[test]
fn the_search_row_says_the_same_thing_on_every_page() {
    let mut st = browse_state();
    let browse = screen(&mut st, 100, 34)[0].clone();
    assert!(browse.contains("search Spotify and radio"), "{browse:?}");

    st.main = MainView::Radio(radio_view(RadioTab::Popular, false, Vec::new(), true));
    let radio = screen(&mut st, 100, 34)[0].clone();
    assert_eq!(browse, radio, "the prompt must not retarget");
}

fn toast(text: &str) -> Option<Toast> {
    Some(Toast { text: text.into(), age_ms: 0 })
}

/// A toast reaches the screen wherever it is raised.
#[test]
fn a_toast_lands_somewhere_on_every_screen() {
    for player in [false, true] {
        let mut st = browse_state();
        st.show_player = player;
        st.toast = toast("spotify url copied to clipboard");
        let lines = screen(&mut st, 100, 34);
        assert!(
            lines.iter().any(|l| l.contains("copied to clipboard")),
            "player={player} {lines:#?}"
        );
    }

    // Nothing playing: the bar is dropped from the layout entirely.
    let mut st = browse_state();
    st.queue = None;
    st.deck.playback = None;
    st.toast = toast("spotify url copied to clipboard");
    let lines = screen(&mut st, 100, 34);
    assert!(
        lines[33].contains("copied to clipboard"),
        "not on the last row: {lines:#?}"
    );
}

/// A message is taken down once it has been up for four seconds, and nothing
/// else of the state changes with it.
#[test]
fn a_stale_toast_is_taken_down() {
    let mut st = browse_state();
    st.toast = Some(Toast { text: "still up".into(), age_ms: 4_000 });
    assert!(screen(&mut st, 100, 34).iter().any(|l| l.contains("still up")));
    assert!(st.toast.is_some());
    st.toast = Some(Toast { text: "gone".into(), age_ms: 4_001 });
    assert!(!screen(&mut st, 100, 34).iter().any(|l| l.contains("gone")));
    assert!(st.toast.is_none());
}

#[test]
fn a_small_terminal_degrades_without_panicking() {
    for height in 0..12 {
        for width in [0u16, 1, 20, 60, 100] {
            screen(&mut browse_state(), width, height);
            let mut st = browse_state();
            st.show_player = true;
            screen(&mut st, width, height);
            let mut st = browse_state();
            st.show_help = true;
            screen(&mut st, width, height);
        }
    }
}

/// A spinner only turns if something keeps drawing it, and a load is
/// exactly when nothing else is asking the frame loop to.
#[test]
fn a_spinner_holds_the_frame_loop_awake() {
    let mut st = browse_state();
    // Paused: nothing is being waited for, so nothing is turning.
    st.deck.playback.as_mut().unwrap().is_playing = false;
    assert!(!is_animating(&st));

    // Claims to play, but no sound out of it yet — the buffering window
    // the nav row says LOADING through.
    st.deck.playback.as_mut().unwrap().is_playing = true;
    st.deck.tap_fresh = false;
    let lines = screen(&mut st, 100, 34);
    assert!(ends_with_loading(&lines[0]), "{:?}", lines[0]);
    assert!(is_animating(&st));
}

/// And the box's own spinner, which is up only while a row's mark is out.
#[test]
fn the_box_holds_it_awake_while_a_mark_is_unanswered() {
    let mut st = browse_state();
    st.show_player = true;
    st.me_id = Some("me".into());
    // Paused, so the nav row's own spinner is not what is answering here.
    st.deck.playback.as_mut().unwrap().is_playing = false;
    let rows = (0..8)
        .map(|i| PickerRow {
            name: format!("Playlist {i}"),
            pending: false,
            has: None,
        })
        .collect();
    st.picker = Some(PlaylistPicker {
        query: String::new(),
        rows,
        most: 8,
        selected: 0,
        offset: 0,
        error: None,
    });
    assert!(is_animating(&st), "no playlist has been walked");

    for row in &mut st.picker.as_mut().unwrap().rows {
        row.has = Some(false);
    }
    assert!(!is_animating(&st), "every visible row is answered");
}

/// `⧉ share` and `+ add` ride beside the `★` on both screens, in the same
/// corner of the same title row.
#[test]
fn both_views_offer_add_to_playlist() {
    for player in [false, true] {
        let mut st = browse_state();
        st.show_player = player;
        st.liked.entries.push(("spotify:track:t3".into(), true));
        let shown = frame(&mut st, 100, 34);
        let lines = shown.lines();
        // Beside the ★, not instead of it, and one space apart.
        assert!(
            lines.iter().any(|l| l.contains("★ liked ⧉ share + add")),
            "player={player} {lines:#?}"
        );
        let (like, share, add) =
            (shown.at(Target::Like), shown.at(Target::Share), shown.at(Target::AddTo));
        assert!(!add.is_empty(), "player={player}");
        assert_eq!(share.x, like.right() + 1, "player={player}");
        assert_eq!(add.x, share.right() + 1, "player={player}");
    }
}

/// Without an account there are no playlists to add to, so the control
/// that would open an empty box is not drawn at all.
#[test]
fn add_to_playlist_needs_spotify() {
    let mut st = browse_state();
    st.show_player = true;
    st.spotify_ready = false;
    let shown = frame(&mut st, 100, 34);
    let lines = shown.lines();
    assert!(!lines.iter().any(|l| l.contains("+ add")), "{lines:#?}");
    assert!(shown.at(Target::AddTo).is_empty());
}

/// A scroll offset left past the end of a list comes back with the frame, and
/// one inside it is kept.
#[test]
fn an_offset_past_the_end_comes_back_with_the_frame() {
    let mut st = browse_state();
    st.main_offset = 9_000;
    screen(&mut st, 100, 24);
    assert!(st.main_offset < 12, "{}", st.main_offset);
    let held = st.main_offset;
    screen(&mut st, 100, 24);
    assert_eq!(st.main_offset, held);

    st.show_player = true;
    st.queue_offset = 9_000;
    screen(&mut st, 100, 26);
    assert!(st.queue_offset < 12, "{}", st.queue_offset);
    // The page underneath was not drawn, so its offset stays.
    assert_eq!(st.main_offset, held);
}

/// A track page keeps its sleeve at sixteen rows and sixty-three cells, and
/// sheds it below either.
#[test]
fn a_track_page_sheds_its_sleeve_below_sixteen_rows_or_sixty_three_cells() {
    let st = album_state();
    let sleeve = |width: u16, height: u16| {
        let pen = pen_at(None);
        let mut scene = Scene::empty();
        let list = match &st.main {
            MainView::Tracks(list) => list,
            _ => panic!("not a track page"),
        };
        let controls = HeaderControls { share: false, save: None, edit: false };
        let inner = Rect { x: 2, y: 1, width, height };
        let left = header_band(&mut scene, inner, list, &None, false, controls, pen);
        let art = scene.ops.iter().find_map(|op| match op {
            Op::Art { area, .. } => Some(*area),
            _ => None,
        });
        (art, left.height)
    };
    let art = Some(Rect { x: 2, y: 1, width: 20, height: 10 });
    assert_eq!(sleeve(63, 16), (art, 5));
    assert_eq!(sleeve(63, 17), (art, 6));
    assert_eq!(sleeve(62, 16).0, None);
    assert_eq!(sleeve(63, 15).0, None);
}

/// An artist's band keeps its portrait at seventeen rows.
#[test]
fn an_artists_band_sheds_its_portrait_below_seventeen_rows() {
    assert!(holds_portrait(screen_rect(63, 17)));
    assert!(!holds_portrait(screen_rect(63, 16)));
    assert!(!holds_portrait(screen_rect(62, 17)));
}

/// The header keeps the top four rows and the bar the last nine, on every
/// screen that has them.
#[test]
fn the_header_and_the_bar_keep_their_rows_on_every_screen() {
    for height in 14..60u16 {
        let shown = frame(&mut browse_state(), 100, height);
        assert_eq!(
            shown.at(Target::NowPlaying),
            Rect { x: 1, y: height - 9, width: 98, height: 9 }
        );
        assert_eq!(shown.at(Target::Home).y, 0);
    }
}

/// A short screen is drawn all the same.
#[test]
fn a_screen_too_short_for_its_parts_is_drawn_all_the_same() {
    for height in 0..14u16 {
        for width in [0, 1, 2, 3, 40] {
            let mut st = browse_state();
            let mut scene = Scene::empty();
            draw(&mut scene, screen_rect(width, height), &mut st, pen_at(None));
            for op in &scene.ops {
                if let Op::Hit { area, target: Target::NowPlaying } = op {
                    assert!(area.bottom() <= height && area.height <= 9, "{area:?}");
                }
            }
        }
    }
}

/// A screen too short for its parts keeps a row of the page and one of the
/// header, and gives the bar what is left until that is whole.
#[test]
fn a_short_screen_gives_the_bar_what_the_page_and_the_header_leave() {
    for height in 4..14u16 {
        let tall = (height - 2).min(9);
        for width in 20..50u16 {
            let shown = frame(&mut browse_state(), width, height);
            assert_eq!(
                shown.at(Target::NowPlaying),
                Rect { x: 1, y: height - tall, width: width - 2, height: tall },
                "{width}x{height}"
            );
        }
    }
}

/// A station on the deck has the bar, and with it the message.
#[test]
fn a_station_alone_brings_the_bar_up() {
    let mut st = browse_state();
    st.deck.playback = None;
    assert!(frame(&mut st, 100, 34).at(Target::NowPlaying).is_empty());
    st.deck.radio = Some(on_air(station("b", "SomaFM Groove Salad"), None));
    st.toast = Some(Toast { text: "copied".into(), age_ms: 0 });
    let shown = frame(&mut st, 100, 34);
    assert_eq!(shown.at(Target::NowPlaying), Rect { x: 1, y: 25, width: 98, height: 9 });
    let lines = shown.lines();
    assert!(lines[26].contains("SomaFM Groove Salad"), "{:?}", lines[26]);
    assert!(lines[28].trim_end().ends_with("copied"), "{:?}", lines[28]);
}

/// The count of an entry is laid out by the cells it takes.
#[test]
fn a_count_on_home_is_measured_in_cells() {
    let mut st = browse_state();
    st.main = MainView::Home;
    st.home = vec![entry("Playlists", "12 · 3", "yours")];
    let lines = screen(&mut st, 60, 34);
    let row = lines.iter().find(|l| l.contains("Playlists")).unwrap();
    let plain = {
        st.home = vec![entry("Playlists", "12 - 3", "yours")];
        screen(&mut st, 60, 34)
    };
    let other = plain.iter().find(|l| l.contains("Playlists")).unwrap();
    assert_eq!(row.replace('·', "-"), *other);
}

/// As many album rows answer as are filled, however many albums there are.
#[test]
fn every_filled_album_row_answers() {
    assert_eq!(albums_shown(65_536, 0, 30), 30);
    assert_eq!(albums_shown(65_536, 65_530, 30), 6);
    assert_eq!(albums_shown(3, 0, 30), 3);
    assert_eq!(albums_shown(3, 9, 30), 0);
}

/// A line far past the end of the pane answers nowhere.
#[test]
fn a_line_far_below_the_pane_answers_nowhere() {
    let inner = Rect { x: 0, y: 4, width: 40, height: 20 };
    assert!(entry_rect(inner, 0, 65_536, 2).is_empty());
    assert_eq!(entry_rect(inner, 0, 3, 2), Rect { x: 0, y: 7, width: 40, height: 2 });
}

/// What the other host answers, fails to, or is still asked for changes nothing
/// on the tab of the stations.
#[test]
fn the_stations_tab_is_untouched_by_the_other_half() {
    for with_rows in [false, true] {
        let mut st = search_state();
        st.search_tab = SearchTab::Stations;
        if !with_rows {
            results_mut(&mut st).stations = sorted(Vec::new());
        }
        let before = render(&st, 90, 24);
        let r = results_mut(&mut st);
        r.tracks = sorted(Vec::new());
        r.albums = sorted(Vec::new());
        r.artists = sorted(Vec::new());
        r.playlists = sorted(Vec::new());
        r.error = refusal("timed out");
        assert_eq!(render(&st, 90, 24), before);
    }
}
