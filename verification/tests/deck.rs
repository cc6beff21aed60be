//! The deck, the bottom bar and the player.

#![allow(dead_code)]

use ratatui::buffer::{Buffer, Cell};
use ratatui::layout::{Alignment, Rect as TuiRect};
use ratatui::style::{Color, Modifier, Style as TuiStyle};
use ratatui::text::{Line as TuiLine, Span as TuiSpan};
use ratatui::widgets::{
    Block, BorderType, Borders, Clear, List, ListItem, ListState, Paragraph, Scrollbar,
    ScrollbarOrientation, ScrollbarState, StatefulWidget, Widget, Wrap,
};

use spot_ui::columns::ColKey;
use spot_ui::deck::{
    context_row, masthead, progress, progress_line, radio_masthead, radio_station_row,
    radio_status, radio_transport, sleeve, transport, Forward, DECK_H, NEXT_LABEL, PREV_LABEL,
    SEEK_LABEL, TIME_W,
};
use spot_ui::geometry::{Position, Rect};
use spot_ui::scene::{Line, Op, Picture, Place, Scene, Target};
use spot_ui::state::{
    AppState, Credit, Crumb, CrumbTarget, Deck, InputMode, Kept, MainView, Pen, Playback, Queue,
    RadioPlayback, SearchTab, Sort, SortedList, Station, Toast, Track, UpdateState, Wear,
};
use spot_ui::table::{art_cells, art_w, placeholder, LIKED_MARK, VOL_TRACK_W};
use spot_ui::theme;

use spot_ui::theme::{accent_bright, led_percent, Led, Style};
use spot_ui::now_playing;
use spot_ui::player::{
    self, band_layout, Rows, ART_PROGRESS_H, ART_SHORT_H, ART_TALL_H, BAND_STRIDE, BRAND_H,
    COVER_GAP, HEADER_H, MAX_BANDS, MAX_PLAYER_W, MIN_BANDS, TRANSPORT_H, VIZ_H,
};
use spot_ui::play_state::{PlayState, RadioForward, RadioSteps};
use spot_ui::text::width;
use spot_ui::spectrum::{draw_visualizer, viz_cell, Band};

/// The side of a decoded cover, in pixels.
const COVER_PX: u32 = 64;

/// A decoded cover: the pixel at each column and row of it.
type Cover<'a> = Option<&'a dyn Fn(u32, u32) -> u32>;

/// A frame as a terminal shows it.
struct Shown {
    buf: Buffer,
    scene: Scene,
}

fn rgb(c: u32) -> Color {
    Color::Rgb((c >> 16) as u8, (c >> 8) as u8, c as u8)
}

fn tui_style(s: Style) -> TuiStyle {
    let mut out = TuiStyle::default();
    if let Some(c) = s.fg {
        out = out.fg(rgb(c));
    }
    if let Some(c) = s.bg {
        out = out.bg(rgb(c));
    }
    if s.bold {
        out = out.add_modifier(Modifier::BOLD);
    }
    if s.italic {
        out = out.add_modifier(Modifier::ITALIC);
    }
    out
}

fn tui_line(line: &Line) -> TuiLine<'static> {
    TuiLine::from(
        line.spans
            .iter()
            .map(|s| TuiSpan::styled(s.text.clone(), tui_style(s.style)))
            .collect::<Vec<_>>(),
    )
}

fn tui_rect(r: Rect, buf: &Buffer) -> TuiRect {
    TuiRect::new(r.x, r.y, r.width, r.height).intersection(buf.area)
}

fn paint_art(area: Rect, clip: Rect, seed: &str, cover: Cover, buf: &mut Buffer) {
    let (cols, rows) = (area.width as u32, area.height as u32 * 2);
    let (from, to) = placeholder(seed);
    let px: Vec<u32> = (0..rows)
        .flat_map(|y| (0..cols).map(move |x| (x, y)))
        .map(|(x, y)| match cover {
            Some(px) => px(x * COVER_PX / cols, y * COVER_PX / rows),
            None => if (x + y) % 2 == 0 { from } else { to },
        })
        .collect();
    for cell in art_cells(area, clip, &px, cover.is_none()) {
        if let Some(c) = buf.cell_mut((cell.at.x, cell.at.y)) {
            c.set_char(if cell.note { '♫' } else { '▀' })
                .set_style(TuiStyle::default().fg(rgb(cell.fg)).bg(rgb(cell.bg)));
        }
    }
}

fn paint(scene: &Scene, pen: &Pen, cover: Cover, buf: &mut Buffer) {
    for op in &scene.ops {
        match op {
            Op::Text { area, place, line } => {
                let alignment = match place {
                    Place::Left => Alignment::Left,
                    Place::Center => Alignment::Center,
                    Place::Right => Alignment::Right,
                };
                Paragraph::new(tui_line(line))
                    .alignment(alignment)
                    .render(tui_rect(*area, buf), buf);
            }
            Op::Lines { area, lines } => {
                Paragraph::new(lines.iter().map(tui_line).collect::<Vec<_>>())
                    .render(tui_rect(*area, buf), buf);
            }
            Op::Wrapped { area, line } => {
                Paragraph::new(tui_line(line))
                    .wrap(Wrap { trim: false })
                    .render(tui_rect(*area, buf), buf);
            }
            Op::List { area, offset, rows, .. } => {
                let area = tui_rect(*area, buf);
                let items: Vec<ListItem> = rows
                    .iter()
                    .map(|row| {
                        let item = ListItem::new(tui_line(&row.line));
                        if row.wash {
                            item.style(tui_style(theme::row_hover()))
                        } else {
                            item
                        }
                    })
                    .collect();
                let mut state = ListState::default().with_offset(*offset);
                if area.width > 0 && area.height > 0 {
                    StatefulWidget::render(List::new(items), area, buf, &mut state);
                }
            }
            Op::Fill { area, style } => {
                let area = tui_rect(*area, buf);
                buf.set_style(area, tui_style(*style));
            }
            Op::Clear { area } => Clear.render(tui_rect(*area, buf), buf),
            Op::Frame { area, title, style } => {
                Block::default()
                    .title(title.clone())
                    .borders(Borders::ALL)
                    .border_type(BorderType::Rounded)
                    .border_style(tui_style(*style))
                    .render(tui_rect(*area, buf), buf);
            }
            Op::Scrollbar { bar, len, offset } => {
                let viewport = bar.height as usize;
                let bar = tui_rect(*bar, buf);
                if bar.width > 0 && bar.height > 0 {
                    let mut state = ScrollbarState::new(len - viewport)
                        .position(*offset)
                        .viewport_content_length(viewport);
                    let scrollbar = Scrollbar::new(ScrollbarOrientation::VerticalRight)
                        .begin_symbol(None)
                        .end_symbol(None)
                        .track_symbol(Some("│"))
                        .thumb_symbol("█")
                        .track_style(tui_style(theme::dim()))
                        .thumb_style(tui_style(theme::text()));
                    StatefulWidget::render(scrollbar, bar, buf, &mut state);
                }
            }
            Op::Art { area, clip, picture, seed } => {
                let cover = match picture {
                    Picture::Playing | Picture::View | Picture::Page(_) => cover,
                    Picture::Placeholder => None,
                };
                paint_art(*area, *clip, seed, cover, buf);
            }
            Op::Progress { area, elapsed, remaining, width, progress_ms, duration_ms } => {
                let ratio = if *duration_ms > 0 {
                    (*progress_ms as f64 / *duration_ms as f64).clamp(0.0, 1.0)
                } else {
                    0.0
                };
                let exact = ratio * *width as f64;
                let filled = exact.floor() as u16;
                let half = exact - filled as f64 >= 0.5 && filled < *width;
                let line = progress_line(
                    elapsed.clone(),
                    remaining.clone(),
                    filled,
                    half,
                    *width,
                    pen.accent,
                );
                Paragraph::new(tui_line(&line)).render(tui_rect(*area, buf), buf);
            }
            Op::Spectrum { .. }
            | Op::Hit { .. }
            | Op::AlbumColumn { .. }
            | Op::SortKeys { .. }
            | Op::LineRows { .. } => {}
        }
    }
}

impl Shown {
    fn new(scene: Scene, pen: &Pen, width: u16, height: u16) -> Shown {
        Shown::with_cover(scene, pen, None, width, height)
    }

    fn with_cover(
        scene: Scene,
        pen: &Pen,
        cover: Cover,
        width: u16,
        height: u16,
    ) -> Shown {
        let mut buf = Buffer::empty(TuiRect::new(0, 0, width, height));
        paint(&scene, pen, cover, &mut buf);
        Shown { buf, scene }
    }

    fn cell(&self, x: u16, y: u16) -> &Cell {
        self.buf.cell((x, y)).expect("a cell of the screen")
    }

    fn lines(&self) -> Vec<String> {
        let area = self.buf.area;
        (0..area.height)
            .map(|y| (0..area.width).map(|x| self.cell(x, y).symbol()).collect())
            .collect()
    }

    /// What the cells of a block print.
    fn text_in(&self, r: Rect) -> String {
        (r.x..r.right()).map(|x| self.cell(x, r.y).symbol()).collect()
    }

    /// Where a target answers: the last record of it.
    fn at(&self, target: Target) -> Rect {
        self.all(|t| *t == target)
            .last()
            .map_or(Rect::zero(), |(r, _)| *r)
    }

    /// Every record that `f` picks.
    fn all(&self, f: impl Fn(&Target) -> bool) -> Vec<(Rect, Target)> {
        self.scene
            .ops
            .iter()
            .filter_map(|op| match op {
                Op::Hit { area, target } if f(target) => Some((*area, target.clone())),
                _ => None,
            })
            .collect()
    }

    fn crumbs(&self) -> Vec<(Rect, CrumbTarget)> {
        self.scene
            .ops
            .iter()
            .filter_map(|op| match op {
                Op::Hit { area, target: Target::Crumb(c) } => Some((*area, c.clone())),
                _ => None,
            })
            .collect()
    }

    /// The album cells of the table on screen.
    fn albums(&self) -> (Rect, Vec<u16>) {
        self.scene
            .ops
            .iter()
            .filter_map(|op| match op {
                Op::AlbumColumn { area, widths } => Some((*area, widths.clone())),
                _ => None,
            })
            .last()
            .unwrap_or((Rect::zero(), Vec::new()))
    }

    fn owners(&self) -> Vec<Option<usize>> {
        self.scene
            .ops
            .iter()
            .filter_map(|op| match op {
                Op::LineRows { owners } => Some(owners.clone()),
                _ => None,
            })
            .last()
            .unwrap_or_default()
    }

    fn offset(&self) -> usize {
        self.scene
            .ops
            .iter()
            .filter_map(|op| match op {
                Op::List { offset, .. } => Some(*offset),
                _ => None,
            })
            .last()
            .unwrap_or(0)
    }
}

fn pen_at(mouse: Option<Position>) -> Pen {
    Pen { accent: theme::ACCENT, pulse: theme::ACCENT, mouse, elapsed_ms: 0 }
}

fn screen_rect(width: u16, height: u16) -> Rect {
    Rect { x: 0, y: 0, width, height }
}

fn sorted<T>(items: Vec<T>) -> SortedList<T> {
    let display = (0..items.len()).collect();
    SortedList { items, display, sort: Sort { key: ColKey::No, ascending: true } }
}

fn idle() -> AppState {
    AppState {
        deck: Deck { radio: None, playback: None, pending_play: false, tap_fresh: false },
        wear: Wear::Acts,
        show_player: false,
        show_help: false,
        trail: Vec::new(),
        input_mode: InputMode::Normal,
        input_buffer: String::new(),
        main: MainView::Home,
        main_index: 0,
        main_offset: 0,
        loading: false,
        retries: 0,
        home: Vec::new(),
        search_tab: SearchTab::Tracks,
        search_tabs: vec![
            SearchTab::Tracks,
            SearchTab::Albums,
            SearchTab::Artists,
            SearchTab::Playlists,
            SearchTab::Stations,
        ],
        playlists: sorted(Vec::new()),
        playlists_error: None,
        me_id: None,
        favorites: Vec::new(),
        radio_now: Vec::new(),
        radio_steps: NO_STEPS,
        liked: Kept { entries: Vec::new() },
        view_cover: None,
        page_link: false,
        open_playlist: None,
        owns_playlist: false,
        saved_playlists: Kept { entries: Vec::new() },
        spotify_ready: false,
        queue: None,
        queue_index: 0,
        queue_offset: 0,
        list_folded: false,
        toast: None,
        picker: None,
        edit: None,
        bio: None,
        art_zoom: None,
        update: UpdateState::Current,
        version: "spot v0.1.0".into(),
    }
}

fn credits_of(names: &str) -> Vec<Credit> {
    names
        .split(", ")
        .map(|name| Credit { name: name.into(), id: Some(format!("id-{name}")) })
        .collect()
}

fn step(label: &str, target: CrumbTarget) -> Crumb {
    Crumb { label: label.into(), target }
}

fn credit(name: &str, id: Option<&str>) -> Credit {
    Credit { name: name.into(), id: id.map(Into::into) }
}

fn plain_track(name: &str, artists: &str) -> Track {
    Track {
        uri: format!("spotify:track:{name}"),
        name: name.into(),
        artists: artists.into(),
        album: "Album Name".into(),
        release_year: "2020".into(),
        duration_ms: 83_000,
        track_number: 1,
        album_id: None,
        credits: vec![credit(artists, None)],
        cover_url: None,
    }
}

fn queue_of(name: &str, tracks: Vec<Track>) -> Queue {
    Queue {
        name: name.into(),
        rows: sorted(tracks),
        loading: false,
        current: None,
        source_key: None,
    }
}

// ---- the deck's rows ----

/// The playing track's length in the tests.
const DURATION: u64 = 225_500;

fn song() -> Track {
    Track {
        uri: "spotify:track:x".into(),
        name: "Song Title".into(),
        artists: "Artist Name".into(),
        album: "Album Name".into(),
        release_year: "2020".into(),
        duration_ms: DURATION,
        track_number: 1,
        album_id: Some("alb1".into()),
        credits: vec![credit("Artist Name", Some("art1"))],
        cover_url: None,
    }
}

fn numbered_queue(len: usize) -> Queue {
    queue_of(
        "My Mix",
        (0..len)
            .map(|i| Track {
                uri: format!("spotify:track:t{i}"),
                name: format!("Track {i}"),
                artists: "Someone".into(),
                album: "Album".into(),
                release_year: "2020".into(),
                duration_ms: 60_000,
                track_number: i as u32 + 1,
                album_id: None,
                credits: vec![credit("Someone", None)],
                cover_url: None,
            })
            .collect(),
    )
}

/// A row set drawn into a bare block.
fn rows_in(width: u16, height: u16, draw: impl FnOnce(&mut Scene, Rect, Pen)) -> Shown {
    let mut scene = Scene::empty();
    let pen = pen_at(None);
    draw(&mut scene, screen_rect(width, height), pen);
    Shown::new(scene, &pen, width, height)
}

/// The whole credit run the metadata row recorded.
fn artist_rect(shown: &Shown) -> Rect {
    let links = shown.all(|t| matches!(t, Target::NowArtist(_)));
    match (links.first(), links.last()) {
        (Some((a, _)), Some((b, _))) => Rect { width: b.right() - a.x, ..*a },
        _ => Rect::zero(),
    }
}

#[test]
fn the_masthead_writes_two_rows_and_their_controls() {
    let t = song();
    let shown = rows_in(80, 2, |s, a, p| masthead(s, a, &t, false, 56, None, false, p));
    let lines = shown.lines();
    assert!(lines[0].starts_with("Song Title"), "{:?}", lines[0]);
    // The state pill left this row for the transport; the title has the
    // whole width to itself now.
    assert!(!lines[0].contains("playing"), "{:?}", lines[0]);
    assert!(shown.at(Target::Play).is_empty());
    assert!(lines[1].starts_with("Artist Name · Album Name · 2020"), "{:?}", lines[1]);
    assert!(lines[1].contains("vol ") && lines[1].contains(" 56%"));
    assert_eq!(shown.at(Target::Volume).y, 1);
    assert_eq!(artist_rect(&shown).y, 1);
    assert_eq!(shown.at(Target::NowAlbum).x, artist_rect(&shown).right() + 3);
}

/// The control holds the right end of the title row, says which way it would
/// go, and keeps one width in both states so nothing under the cursor
/// moves when it flips.
#[test]
fn the_masthead_carries_a_liked_control_for_the_playing_track() {
    let t = song();
    let liked = rows_in(80, 2, |s, a, p| masthead(s, a, &t, false, 56, Some(true), false, p));
    let plain = rows_in(80, 2, |s, a, p| masthead(s, a, &t, false, 56, Some(false), false, p));
    let (liked_lines, plain_lines) = (liked.lines(), plain.lines());

    // The same mark either way; the word is what changes, so the two
    // states never come down to telling one glyph's shade from another's.
    assert!(liked_lines[0].contains(&format!("{LIKED_MARK} liked")), "{:?}", liked_lines[0]);
    assert!(plain_lines[0].contains(&format!("{LIKED_MARK} like")), "{:?}", plain_lines[0]);
    assert_eq!(liked.at(Target::Like).right(), plain.at(Target::Like).right());
    assert_eq!(liked.at(Target::Like).y, 0, "the control left the title row");
    assert_eq!(liked.at(Target::Like).right(), 80);
    // The title still leads the row, and stops clear of the control.
    assert!(liked_lines[0].starts_with("Song Title"));
}

/// `+ add` takes the right end and pushes the other two left of it,
/// so the run reads in the order the mouse hints name them.
#[test]
fn the_add_control_sits_right_of_the_liked_one() {
    let t = song();
    let shown = rows_in(80, 2, |s, a, p| masthead(s, a, &t, false, 56, Some(true), true, p));
    let lines = shown.lines();
    // One space between the two, owned by neither, so it never lights
    // under the pointer as a third control that does nothing.
    assert!(
        lines[0].contains(&format!("{LIKED_MARK} liked ⧉ share + add")),
        "{:?}",
        lines[0]
    );
    let (like, share, add) =
        (shown.at(Target::Like), shown.at(Target::Share), shown.at(Target::AddTo));
    assert_eq!(add.y, 0);
    assert_eq!(add.right(), 80);
    assert_eq!(share.x, like.right() + 1, "a gap belonging to neither control");
    assert_eq!(add.x, share.right() + 1, "a gap belonging to neither control");
    assert!(lines[0].starts_with("Song Title"));
}

/// The control does not depend on the saved state the `★` waits for, so
/// it is drawn while that answer is still out.
#[test]
fn the_add_control_does_not_wait_for_the_liked_answer() {
    let t = song();
    let shown = rows_in(80, 2, |s, a, p| masthead(s, a, &t, false, 56, None, true, p));
    assert!(shown.lines()[0].contains("+ add"), "{:?}", shown.lines()[0]);
    assert_eq!(shown.at(Target::AddTo).right(), 80);
    assert!(shown.at(Target::Like).is_empty());
}

/// The first rung down: share goes before add, because a record you cannot
/// act on is worth less than one you cannot link to.
#[test]
fn a_narrow_title_row_drops_the_share_control_first() {
    let t = song();
    let shown = rows_in(20, 2, |s, a, p| masthead(s, a, &t, false, 56, Some(true), true, p));
    let lines = shown.lines();
    assert!(!lines[0].contains("share"), "{:?}", lines[0]);
    assert!(shown.at(Target::Share).is_empty());
    assert!(lines[0].contains("+ add"), "{:?}", lines[0]);
    assert_eq!(shown.at(Target::AddTo).x, shown.at(Target::Like).right() + 1);
}

/// The last rung: a row that cannot hold even two keeps the one that was
/// there first, rather than losing the set to the all-or-nothing rule.
#[test]
fn a_narrow_title_row_drops_the_add_control_first() {
    let t = song();
    let shown = rows_in(12, 2, |s, a, p| masthead(s, a, &t, false, 56, Some(true), true, p));
    assert!(!shown.lines()[0].contains("+ add"), "{:?}", shown.lines()[0]);
    assert!(shown.at(Target::AddTo).is_empty());
    assert!(shown.at(Target::Share).is_empty());
    assert!(!shown.at(Target::Like).is_empty(), "the ★ went with it");
}

/// The bar passes `false`, so its title row is unchanged by any of this.
#[test]
fn the_add_control_is_opt_in() {
    let t = song();
    let shown = rows_in(80, 2, |s, a, p| masthead(s, a, &t, false, 56, Some(true), false, p));
    assert!(!shown.lines()[0].contains("+ add"));
    assert!(shown.at(Target::AddTo).is_empty());
    assert_eq!(shown.at(Target::Like).right(), 80);
}

/// Nothing known about the track, so no control: one that cannot say
/// which way it would go is worse than no control.
#[test]
fn the_liked_control_waits_for_an_answer() {
    let t = song();
    let shown = rows_in(80, 2, |s, a, p| masthead(s, a, &t, false, 56, None, false, p));
    assert!(!shown.lines()[0].contains(LIKED_MARK));
    assert!(shown.at(Target::Like).is_empty());
}

/// The metadata row starts flush with the title, not indented past it —
/// the masthead is one block, not a note with a hanging column.
#[test]
fn deck_the_metadata_row_is_not_indented() {
    let t = song();
    let shown = rows_in(80, 2, |s, a, p| masthead(s, a, &t, false, 56, None, false, p));
    assert_eq!(artist_rect(&shown).x, 0);
}

/// Names without ids are drawn but inert, so no rect is recorded.
#[test]
fn metadata_links_need_their_ids() {
    let mut t = song();
    t.credits = vec![credit("Artist Name", None)];
    t.album_id = None;
    let shown = rows_in(80, 2, |s, a, p| masthead(s, a, &t, false, 56, None, false, p));
    assert!(shown.lines()[1].contains("Artist Name · Album Name"));
    assert!(shown.all(|t| matches!(t, Target::NowArtist(_))).is_empty());
    assert!(shown.at(Target::NowAlbum).is_empty());
}

/// Segments are dropped whole, and measured in cells — counting `chars`
/// reads a CJK name as half its true width and then clips it, leaving
/// exactly the dangling " · " the check exists to prevent.
#[test]
fn a_wide_album_name_is_measured_in_cells() {
    let mut t = song();
    t.credits = vec![credit("高橋洋子", Some("art1"))];
    t.artists = "高橋洋子".into();
    t.album = "残酷な天使のテーゼ、とても長いアルバム名".into();
    let shown = rows_in(60, 2, |s, a, p| masthead(s, a, &t, false, 56, None, false, p));
    let row = &shown.lines()[1];
    assert!(!row.trim_end().ends_with('·'), "a dangling separator survived: {row:?}");
    // The album did not fit and was dropped whole — not clipped to a
    // stump. The year is a segment of its own and may still follow the
    // artist.
    assert!(shown.at(Target::NowAlbum).is_empty(), "the album should not have fit");
    assert!(!row.contains('残'), "a clipped album survived: {row:?}");
    assert!(row.contains("· 2020"), "the year segment went too: {row:?}");
}

/// A self-titled record still prints both names: they are two links to two
/// different pages, and dropping one leaves the album with no way in.
#[test]
fn a_self_titled_album_is_still_printed() {
    let mut t = song();
    t.album = "Artist Name".into();
    let shown = rows_in(80, 2, |s, a, p| masthead(s, a, &t, false, 56, None, false, p));
    let lines = shown.lines();
    assert!(lines[1].starts_with("Artist Name · Artist Name · 2020"), "{:?}", lines[1]);
    assert_eq!(shown.at(Target::NowAlbum).x, artist_rect(&shown).right() + 3);
}

/// The progress track carries no grab handle in either view — the volume
/// slider is the one that kept its knob.
#[test]
fn the_progress_track_has_no_knob() {
    let shown = rows_in(80, 1, |s, a, _| progress(s, a, 83_000, DURATION));
    let line = &shown.lines()[0];
    assert!(!line.contains('●'), "{line:?}");
    assert!(line.starts_with("1:23 ━"), "{line:?}");
    assert!(line.trim_end().ends_with("-2:22"), "{line:?}");
}

/// Both buttons on one row, at opposite edges, with the state pill centred
/// between them — and the buttons in grey, not the accent.
#[test]
fn the_transport_pushes_its_buttons_to_the_edges() {
    let shown = rows_in(60, 1, |s, a, p| {
        transport(s, a, PlayState::Playing, Forward::Next, Wear::Acts, p)
    });
    let line = &shown.lines()[0];
    let (prev, play, next) =
        (shown.at(Target::Previous), shown.at(Target::Play), shown.at(Target::Next));
    assert!(line.contains("◂◂ previous") && line.contains("next ▸▸"));
    assert_eq!(prev.x, 0);
    assert_eq!(next.right(), 60);
    assert_eq!(prev.y, next.y);
    assert!(line.contains("■ pause"), "{line:?}");
    // Centred on the row: the same gap either side, to within the odd
    // cell an even-width pill cannot split.
    let (left, right) = (play.x, 60 - play.right());
    assert!(left.abs_diff(right) <= 1, "{left} vs {right}");
    assert_eq!(play.y, prev.y);
    // Grey buttons, so the pill is the only colour left on the row.
    let fg = |x: u16| shown.cell(x, 0).fg;
    assert_eq!(fg(prev.x + 1), rgb(theme::TEXT));
    assert_eq!(fg(next.x + 1), rgb(theme::TEXT));
    assert_ne!(fg(play.x + 1), rgb(theme::TEXT));
}

/// A play asked for and not started. The pill names what a click does, so
/// left alone it would offer `▶ play` on a track that is already starting,
/// or `■ pause` on audio nobody can hear yet. It is left out instead.
#[test]
fn the_pill_goes_away_while_a_play_is_in_flight() {
    let shown = rows_in(60, 1, |s, a, p| {
        transport(s, a, PlayState::Loading, Forward::Next, Wear::Acts, p)
    });
    let line = &shown.lines()[0];
    assert!(!line.contains("play"), "{line:?}");
    assert!(!line.contains("pause"), "{line:?}");
    assert!(
        shown.at(Target::Play).is_empty(),
        "a click must not land on a play already happening"
    );
    // The buttons either side are untouched — only the middle is waiting,
    // so the row does not shuffle around the gap.
    assert_eq!(shown.at(Target::Previous).x, 0);
    assert_eq!(shown.at(Target::Next).right(), 60);
}

const NO_STEPS: RadioSteps = RadioSteps { back: false, forward: RadioForward::Nothing };

/// A station still connecting is offered no pill, for the reason a track
/// still loading is not. With nothing behind the station and no country to
/// walk, that leaves the row empty.
#[test]
fn the_radio_pill_goes_away_while_a_station_connects() {
    let shown =
        rows_in(60, 1, |s, a, p| radio_transport(s, a, PlayState::Loading, NO_STEPS, p));
    assert!(shown.lines()[0].trim().is_empty(), "{:?}", shown.lines()[0]);
    assert!(shown.at(Target::Play).is_empty());
}

/// Connecting is exactly when you want out of a station that will not come
/// up, so the two step controls stay while the pill is away.
#[test]
fn the_step_controls_stay_while_a_station_connects() {
    let steps = RadioSteps { back: true, forward: RadioForward::Seek };
    let shown = rows_in(60, 1, |s, a, p| radio_transport(s, a, PlayState::Loading, steps, p));
    let line = &shown.lines()[0];
    assert!(shown.at(Target::Play).is_empty());
    assert_eq!(shown.at(Target::Previous).x, 0);
    assert_eq!(shown.at(Target::Next).right(), 60);
    assert!(line.contains(PREV_LABEL) && line.contains(SEEK_LABEL));
}

/// The radio twin of the record's transport: the same three controls in the
/// same places, so the row does not move under the eye when the source
/// changes.
#[test]
fn the_radio_transport_pushes_its_steps_to_the_edges() {
    let steps = RadioSteps { back: true, forward: RadioForward::Next };
    let shown = rows_in(60, 1, |s, a, p| radio_transport(s, a, PlayState::Playing, steps, p));
    let line = &shown.lines()[0];
    let (prev, play, next) =
        (shown.at(Target::Previous), shown.at(Target::Play), shown.at(Target::Next));
    assert!(line.contains(PREV_LABEL) && line.contains(NEXT_LABEL));
    assert_eq!(prev.x, 0);
    assert_eq!(next.right(), 60);
    assert_eq!(prev.y, next.y);
    assert!(line.contains("■ pause"));
    let (left, right) = (play.x, 60 - play.right());
    assert!(left.abs_diff(right) <= 1, "pill off centre: {left} vs {right}");
}

/// A station reached with nothing behind it and no country to walk offers
/// neither control, and records neither rect.
#[test]
fn a_station_with_no_path_either_side_draws_no_step_controls() {
    let shown =
        rows_in(60, 1, |s, a, p| radio_transport(s, a, PlayState::Playing, NO_STEPS, p));
    let line = &shown.lines()[0];
    assert!(!line.contains('◂') && !line.contains('▸'));
    assert!(shown.at(Target::Previous).is_empty() && shown.at(Target::Next).is_empty());
}

/// The two readings of the right-hand control are one width, so the row
/// does not jump under the cursor that just pressed it.
#[test]
fn seek_and_next_are_the_same_width() {
    assert_eq!(width(SEEK_LABEL), width(NEXT_LABEL));
}

/// The `LIVE` bar is a readout, and the row it sits on is where the record's
/// deck draws a track you can seek by clicking. A station started over a
/// track must not leave that track's rect lying under it.
#[test]
fn the_live_bar_does_not_inherit_the_seek_rect() {
    let r = radio("Adroit Jazz");
    let pen = pen_at(None);
    let area = screen_rect(60, 1);
    let mut scene = Scene::empty();
    // Frame one: a record, which arms the gauge.
    progress(&mut scene, area, 83_000, DURATION);
    let armed = Shown::new(scene.clone(), &pen, 60, 1);
    assert!(!armed.at(Target::Gauge).is_empty(), "the record's deck arms the gauge");
    // Frame two: a station on the same row.
    radio_status(&mut scene, area, &r, pen);
    let shown = Shown::new(scene, &pen, 60, 1);
    assert!(shown.at(Target::Gauge).is_empty(), "{:?}", shown.at(Target::Gauge));
}

/// A station that would not come up says so where the bar goes. Neither a
/// full meter nor an elapsed count is true of a station that is not
/// sending.
#[test]
fn a_station_that_would_not_play_says_why_instead_of_live() {
    let mut r = radio("Adroit Jazz");
    r.failure = Some("could not reach the station".into());
    r.is_playing = false;
    let shown = rows_in(60, 1, |s, a, p| radio_status(s, a, &r, p));
    let line = &shown.lines()[0];
    assert!(line.contains("OFF AIR"), "{line:?}");
    assert!(line.contains("could not reach the station"));
    assert!(!line.contains("LIVE"));
    assert!(shown.at(Target::Gauge).is_empty(), "there is no stream to seek through");
}

/// Too narrow for both, previous keeps the row and the pill goes first,
/// rather than colliding with the buttons it sits between.
#[test]
fn a_narrow_transport_keeps_previous_alone() {
    let shown = rows_in(18, 1, |s, a, p| {
        transport(s, a, PlayState::Playing, Forward::Next, Wear::Acts, p)
    });
    let line = &shown.lines()[0];
    assert!(line.contains("◂◂ previous"), "{line:?}");
    assert!(!line.contains("next"), "{line:?}");
    assert!(!line.contains("playing"), "{line:?}");
    assert!(shown.at(Target::Next).is_empty() && shown.at(Target::Play).is_empty());
}

#[test]
fn the_context_row_names_the_queue_and_is_clickable() {
    let q = Some(numbered_queue(24));
    let shown = rows_in(60, 1, |s, a, p| context_row(s, a, false, &q, None, p));
    let line = &shown.lines()[0];
    assert!(line.starts_with("My Mix · 24 tracks"), "{line:?}");
    assert!(line.contains("shuffle off"));
    assert_eq!(shown.at(Target::QueueName).x, 0);
    assert_eq!(shown.at(Target::QueueName).width as usize, "My Mix".len());
    assert_eq!(shown.at(Target::Shuffle).right(), 60);
}

/// No queue loaded yet: the shuffle control still draws, and nothing
/// claims a click on the empty half of the row.
#[test]
fn the_context_row_survives_an_empty_queue() {
    let shown = rows_in(60, 1, |s, a, p| context_row(s, a, false, &None, None, p));
    assert!(shown.lines()[0].contains("shuffle off"));
    assert!(shown.at(Target::QueueName).is_empty());
}

/// The sleeve on screen.
fn art_rect(shown: &Shown) -> Rect {
    shown
        .all(|t| matches!(t, Target::Sleeve { .. }))
        .last()
        .map_or(Rect::zero(), |(r, _)| *r)
}

/// The sleeve is square on screen: an R-row block is 2R cells wide, and
/// every cell is painted or the terminal's ground shows through the
/// half-blocks as stripes.
#[test]
fn deck_the_sleeve_is_square_and_fully_painted() {
    let t = song();
    let shown = rows_in(40, 7, |s, a, _| {
        sleeve(s, a, &t, Picture::Placeholder);
    });
    let art = art_rect(&shown);
    assert_eq!((art.width, art.height), (art_w(7), 7));
    for y in art.y..art.bottom() {
        for x in art.x..art.right() {
            let cell = shown.cell(x, y);
            assert!(matches!(cell.fg, Color::Rgb(..)), "no fg at {x},{y}");
            assert!(matches!(cell.bg, Color::Rgb(..)), "no bg at {x},{y}");
        }
    }
}

#[test]
fn every_row_degrades_without_panicking() {
    let t = song();
    let q = Some(numbered_queue(3));
    for width in 0..40u16 {
        rows_in(width.max(1), 2, |s, a, p| {
            let a = Rect { width, ..a };
            let row = Rect { height: 1, ..a };
            masthead(s, a, &t, false, 56, Some(true), false, p);
            progress(s, row, 83_000, DURATION);
            transport(s, row, PlayState::Playing, Forward::Next, Wear::Acts, p);
            context_row(s, row, false, &q, None, p);
        });
    }
}

/// A station announcing nothing, matched to nothing — the state most of
/// the directory is in.
fn radio(name: &str) -> RadioPlayback {
    RadioPlayback {
        station: Station {
            uuid: "s1".into(),
            name: name.into(),
            url: "http://stream/s1".into(),
            tags: "jazz".into(),
            country: "Germany".into(),
            countrycode: "DE".into(),
            quality: "MP3 128k".into(),
            hls: false,
        },
        is_playing: true,
        title: None,
        matched: None,
        volume_percent: 56,
        failure: None,
        off_air: false,
        elapsed_ms: 0,
        channel_label: None,
    }
}

/// The record found for what the station said.
fn matched() -> Track {
    Track {
        uri: "spotify:track:m1".into(),
        name: "Frenesi".into(),
        artists: "Peter Appleyard".into(),
        album: "The Lost 1974 Sessions".into(),
        release_year: "1974".into(),
        duration_ms: 180_000,
        track_number: 3,
        album_id: Some("alb1".into()),
        credits: vec![credit("Peter Appleyard", Some("art1"))],
        cover_url: None,
    }
}

/// Once the announced record is found, the radio deck says what the record's
/// deck says, in the same places.
#[test]
fn a_matched_record_gives_the_radio_deck_the_spotify_decks_rows() {
    let mut r = radio("Adroit Jazz");
    r.title = Some("Peter Appleyard - Frenesi".into());
    r.matched = Some(matched());
    let shown = rows_in(80, 2, |s, a, p| radio_masthead(s, a, &r, Some(false), false, p));
    let lines = shown.lines();
    // Row 0 names the record, not the station.
    assert!(lines[0].starts_with("Frenesi"), "{:?}", lines[0]);
    assert!(
        lines[1].starts_with("Peter Appleyard · The Lost 1974 Sessions · 1974"),
        "{:?}",
        lines[1]
    );
    // Laid out exactly as the other deck lays the same row out.
    assert_eq!(artist_rect(&shown).y, 1);
    assert_eq!(shown.at(Target::NowAlbum).x, artist_rect(&shown).right() + 3);
    assert!(!shown.at(Target::Like).is_empty(), "a matched record must be likeable");
    assert_eq!(shown.at(Target::Like).y, 0);
    assert!(lines[1].contains("vol ") && lines[1].contains(" 56%"));
}

/// The saved state is not in yet, so there is no honest way to draw a
/// control that has to say which way it would go.
#[test]
fn the_liked_control_waits_until_the_saved_state_is_known() {
    let mut r = radio("Adroit Jazz");
    r.matched = Some(matched());
    let shown = rows_in(80, 2, |s, a, p| radio_masthead(s, a, &r, None, false, p));
    assert!(shown.at(Target::Like).is_empty(), "{:?}", shown.at(Target::Like));
}

/// Announced, but not placed. The station's own words stand, and nothing on
/// the row pretends to lead anywhere.
#[test]
fn an_unmatched_announcement_is_drawn_with_no_links_and_no_star() {
    let mut r = radio("Adroit Jazz");
    r.title = Some("Some Band - A Song".into());
    r.matched = None;
    let shown = rows_in(80, 2, |s, a, p| radio_masthead(s, a, &r, Some(true), false, p));
    let lines = shown.lines();
    assert!(lines[0].starts_with("Some Band - A Song"), "{:?}", lines[0]);
    // Row 1 falls back to what the station says about itself.
    assert!(lines[1].starts_with("jazz"), "{:?}", lines[1]);
    // The country moved to the station row; saying it twice on one deck
    // means reading it twice to find out it was the same fact.
    assert!(!lines[1].contains("Germany"), "{:?}", lines[1]);
    assert!(shown.all(|t| matches!(t, Target::NowArtist(_))).is_empty());
    assert!(shown.at(Target::NowAlbum).is_empty());
    assert!(shown.at(Target::Like).is_empty(), "nothing to save");
}

/// Six popular stations in ten announce; this is the other four.
#[test]
fn a_station_that_says_nothing_still_names_itself() {
    let r = radio("Adroit Jazz");
    let shown = rows_in(80, 2, |s, a, p| radio_masthead(s, a, &r, Some(true), false, p));
    let lines = shown.lines();
    assert!(lines[0].starts_with("Adroit Jazz"), "{:?}", lines[0]);
    assert!(lines[1].starts_with("jazz"), "{:?}", lines[1]);
    // The country moved to the station row; saying it twice on one deck
    // means reading it twice to find out it was the same fact.
    assert!(!lines[1].contains("Germany"), "{:?}", lines[1]);
    assert!(shown.at(Target::Like).is_empty());
}

fn station_row(r: &RadioPlayback, saved: bool, width: u16) -> Shown {
    rows_in(width, 1, |s, a, p| radio_station_row(s, a, r, saved, Some(false), p))
}

/// The station's own row: what it is called, where from, how it sounds —
/// and the control that keeps it.
#[test]
fn the_station_row_names_the_station_its_country_and_its_format() {
    let r = radio("Adroit Jazz");
    let shown = station_row(&r, false, 80);
    let lines = shown.lines();
    assert!(lines[0].starts_with("▾ Adroit Jazz · Germany · MP3 128k"), "{:?}", lines[0]);
    // The row it replaced said this, about a station it could not name.
    assert!(!lines[0].contains("internet radio"), "{:?}", lines[0]);
    // The genres stay on the masthead's fallback row; this one is about the
    // station, not its programming.
    assert!(!lines[0].contains("jazz ·"), "{:?}", lines[0]);

    // The country is the link, and it covers the name and nothing else.
    let at = |rect: Rect| -> String {
        lines[0].chars().skip(rect.x as usize).take(rect.width as usize).collect()
    };
    assert_eq!(at(shown.at(Target::StationCountry)), "Germany");
    assert!(shown.at(Target::SaveStation).right() == 80);
    // The station names its own list, so the name is the fold control the
    // queue name is in the other deck — marker included.
    assert_eq!(at(shown.at(Target::QueueName)), "▾ Adroit Jazz");
    // Shuffle does not belong on a radio row.
    assert!(shown.at(Target::Shuffle).is_empty());

    // A record on the masthead changes nothing here.
    let mut playing = radio("Adroit Jazz");
    playing.title = Some("Peter Appleyard - Frenesi".into());
    playing.matched = Some(matched());
    let named = station_row(&playing, false, 80).lines();
    assert_eq!(named[0], lines[0]);
}

/// The directory reports a bitrate but never a channel count, and 128k
/// mono and 128k stereo do not sound alike. Only the live decoder knows,
/// so the row says nothing until it has decided.
#[test]
fn the_station_row_says_how_the_live_stream_is_mixed() {
    let mut r = radio("Adroit Jazz");
    let quiet = station_row(&r, false, 80).lines();
    assert!(!quiet[0].contains("stereo") && !quiet[0].contains("mono"), "{:?}", quiet[0]);

    r.channel_label = Some("stereo".into());
    let lines = station_row(&r, false, 80).lines();
    assert!(
        lines[0].starts_with("▾ Adroit Jazz · Germany · MP3 128k · stereo"),
        "{:?}",
        lines[0]
    );

    r.channel_label = Some("mono".into());
    let mono = station_row(&r, false, 80).lines();
    assert!(mono[0].contains("MP3 128k · mono"), "{:?}", mono[0]);

    // The narrow row drops it before it drops the name, the country or the
    // format.
    let tight = station_row(&r, false, 34).lines();
    assert!(tight[0].contains("Adroit Jazz"), "{:?}", tight[0]);
    assert!(!tight[0].contains("mono"), "{:?}", tight[0]);
}

/// Both states are the same width and land on the same cells, so the
/// control does not move out from under the cursor that just pressed it.
#[test]
fn the_save_control_says_which_way_it_would_go_without_moving() {
    let r = radio("Adroit Jazz");
    let saved = station_row(&r, true, 80);
    let plain = station_row(&r, false, 80);
    let (saved_lines, plain_lines) = (saved.lines(), plain.lines());
    assert!(saved_lines[0].contains(&format!("{LIKED_MARK} saved")), "{:?}", saved_lines[0]);
    assert!(plain_lines[0].contains(&format!("{LIKED_MARK} save ")), "{:?}", plain_lines[0]);
    assert_eq!(saved.at(Target::SaveStation), plain.at(Target::SaveStation));

    // Accent when kept, grey when not — the only colour on the row either
    // way is the one that reports a state.
    let x = saved.at(Target::SaveStation).x;
    assert_eq!(saved.cell(x, 0).fg, rgb(theme::ACCENT));
    assert_eq!(plain.cell(x, 0).fg, rgb(theme::DIM));
}

/// No code to ask the directory by, so the country is printed and inert —
/// the same rule an artist name without an id follows on the masthead.
#[test]
fn a_country_with_no_code_is_drawn_but_leads_nowhere() {
    let mut r = radio("Adroit Jazz");
    r.station.countrycode = String::new();
    let shown = station_row(&r, false, 80);
    assert!(shown.lines()[0].contains("Germany"), "{:?}", shown.lines()[0]);
    assert!(shown.at(Target::StationCountry).is_empty());
}

/// A station the directory knows nothing technical about: the format
/// segment goes whole rather than leaving a dangling separator.
#[test]
fn a_station_with_no_format_drops_the_segment() {
    let mut r = radio("Adroit Jazz");
    r.station.quality = String::new();
    let lines = station_row(&r, false, 80).lines();
    let text = lines[0].split('★').next().unwrap().trim_end();
    assert_eq!(text, "▾ Adroit Jazz · Germany", "{:?}", lines[0]);
}

#[test]
fn every_radio_row_degrades_without_panicking() {
    let mut r = radio("Adroit Jazz");
    r.matched = Some(matched());
    let paths = [
        NO_STEPS,
        RadioSteps { back: true, forward: RadioForward::Next },
        RadioSteps { back: false, forward: RadioForward::Seek },
        RadioSteps { back: true, forward: RadioForward::Seek },
    ];
    let mut dead = r.clone();
    dead.failure = Some("the station stopped sending, which is a long way to say so".into());
    for width in 0..40u16 {
        for saved in [false, true] {
            for steps in paths {
                let r = if saved { &r } else { &dead };
                rows_in(width.max(1), 2, |s, a, p| {
                    let a = Rect { width, ..a };
                    let row = Rect { height: 1, ..a };
                    radio_masthead(s, a, r, Some(true), false, p);
                    radio_status(s, row, r, p);
                    radio_transport(s, row, PlayState::Playing, steps, p);
                    radio_station_row(s, row, r, saved, Some(false), p);
                });
            }
        }
    }
}

/// A stream that stands down for a record off its own list offers the way
/// back to the broadcast, and a transport whose next step is the broadcast
/// says so.
#[test]
fn the_way_back_to_the_broadcast_is_named() {
    let mut r = radio("Adroit Jazz");
    r.off_air = true;
    let shown = station_row(&r, false, 80);
    assert!(!shown.at(Target::RadioLive).is_empty(), "{:?}", shown.lines()[0]);
    let shown = rows_in(60, 1, |s, a, p| {
        transport(s, a, PlayState::Playing, Forward::Live, Wear::Acts, p)
    });
    assert!(shown.lines()[0].trim_end().ends_with("live ▸▸"), "{:?}", shown.lines()[0]);
    assert_eq!(width(NEXT_LABEL), width("live ▸▸"));
}

// ---- the bottom bar ----

/// Bar height under test: the rule, the deck, and the trailing blank.
const BAR_H: u16 = 1 + DECK_H + 1;

/// Screen rows of the bar, counting the rule as 0.
const TITLE_ROW: usize = 1;
const META_ROW: usize = 2;
const TOAST_ROW: usize = 3;
const PROGRESS_ROW: usize = 4;
const TRANSPORT_ROW: usize = 5;
const CONTEXT_ROW: usize = 7;

fn bar_state() -> AppState {
    let mut st = idle();
    st.wear = Wear::Reports;
    st.deck.playback = Some(Playback {
        is_playing: true,
        is_local_device: false,
        shuffle: false,
        volume_percent: 56,
        progress_ms: 83_000,
        track: song(),
    });
    let mut q = numbered_queue(24);
    q.name = "My Mix".into();
    st.queue = Some(q);
    st
}

fn bar_with(st: &AppState, mouse: Option<Position>, width: u16, height: u16) -> Shown {
    let mut scene = Scene::empty();
    let pen = pen_at(mouse);
    now_playing::draw(&mut scene, screen_rect(width, height), st, pen);
    Shown::new(scene, &pen, width, height)
}

fn bar(st: &AppState, width: u16, height: u16) -> Shown {
    bar_with(st, None, width, height)
}

fn toast(text: &str) -> Option<Toast> {
    Some(Toast { text: text.into(), age_ms: 0 })
}

#[test]
fn renders_a_rule_a_sleeve_and_the_deck() {
    let shown = bar(&bar_state(), 120, BAR_H);
    let lines = shown.lines();
    // One rule, and it is the only box-drawing left on the bar.
    assert!(lines[0].starts_with("───"));
    assert!(!lines.iter().skip(1).any(|l| l.contains('│') || l.contains('╭')));
    assert!(lines[TITLE_ROW].contains("♫ Song Title"));
    assert!(!lines[TITLE_ROW].contains("playing"), "{:?}", lines[TITLE_ROW]);
    assert!(lines[META_ROW].contains("Artist Name · Album Name · 2020"));
    assert!(lines[META_ROW].contains(" vol "));
    assert!(lines[META_ROW].contains(" 56% "));
    assert!(lines[PROGRESS_ROW].contains("1:23 ━"));
    // No grab handle on the track — only the volume slider keeps one.
    assert!(!lines[PROGRESS_ROW].contains('●'), "{:?}", lines[PROGRESS_ROW]);
    assert!(lines[PROGRESS_ROW].contains(" -2:22"));
    // Previous and next hold opposite ends of their own row, below the
    // progress track rather than beside the queue's name, with the play
    // state centred between them.
    assert!(lines[TRANSPORT_ROW].contains("◂◂ previous"));
    assert!(lines[TRANSPORT_ROW].contains("● playing"));
    assert!(lines[TRANSPORT_ROW].trim_end().ends_with("▸▸ next"));
    // The queue's name and length, with shuffle opposite.
    assert!(lines[CONTEXT_ROW].contains("My Mix · 24 tracks"));
    assert!(lines[CONTEXT_ROW].contains("shuffle off"));
    // Repeat is pinned to all by the client, so it is not a control here.
    assert!(!lines.iter().any(|l| l.contains("repeat")));

    // The key hints, the dividers and the device readout are all gone.
    let all = lines.join("\n");
    for gone in ["(space)", "(p)revious", "(n)ext", "▣ ", "▮▮"] {
        assert!(!all.contains(gone), "{gone:?} survived:\n{all}");
    }

    // Every control recorded a live hit rect on the row it was drawn on.
    let art = art_rect(&shown);
    for rect in [
        shown.at(Target::Play),
        shown.at(Target::Previous),
        shown.at(Target::Next),
        shown.at(Target::Shuffle),
        shown.at(Target::QueueName),
        shown.at(Target::Volume),
        art,
    ] {
        assert!(!rect.is_empty());
    }
    assert_eq!(shown.at(Target::Play).y as usize, TRANSPORT_ROW);
    assert_eq!(shown.at(Target::Volume).y as usize, META_ROW);
    assert_eq!(shown.at(Target::Gauge).y as usize, PROGRESS_ROW);
    assert_eq!(shown.at(Target::Previous).y as usize, TRANSPORT_ROW);
    assert_eq!(shown.at(Target::Next).y as usize, TRANSPORT_ROW);
    assert_eq!(shown.at(Target::QueueName).y as usize, CONTEXT_ROW);
    assert_eq!(shown.at(Target::Shuffle).y as usize, CONTEXT_ROW);
    assert_eq!(shown.at(Target::Volume).width, VOL_TRACK_W);
    // The wheel adjusts volume anywhere over the bar, sleeve included —
    // wider than the two rows the masthead claims for the player.
    assert_eq!(shown.at(Target::NowPlaying).height, BAR_H);
}

/// The metadata row starts flush with the title's `♫` rather than under
/// the title's first letter, so the masthead reads as one block.
#[test]
fn now_playing_the_metadata_row_is_not_indented() {
    let lines = bar(&bar_state(), 120, BAR_H).lines();
    let col = |s: &str, c: char| s.chars().position(|x| x == c);
    assert_eq!(
        col(&lines[META_ROW], 'A'),
        col(&lines[TITLE_ROW], '♫'),
        "{:?} / {:?}",
        lines[META_ROW],
        lines[TITLE_ROW]
    );
}

/// The sleeve spans every row of the deck beside it, and is square: an
/// R-row block is 2R cells wide. Every cell of it is painted, or the
/// terminal's own ground shows through the half-blocks as stripes.
#[test]
fn now_playing_the_sleeve_is_square_and_fully_painted() {
    let shown = bar(&bar_state(), 120, BAR_H);
    let art = art_rect(&shown);
    assert_eq!((art.width, art.height), (art_w(now_playing::SLEEVE_H), now_playing::SLEEVE_H));
    assert_eq!(art.height, DECK_H, "the sleeve should span the deck");
    assert_eq!(art.y, 1, "the sleeve should start under the rule");
    // No cover in the test, so this is the placeholder swatch: half-blocks
    // everywhere, with a single `♫` in the middle saying the artwork has
    // not arrived rather than that there is none.
    let note = (art.x + art.width / 2, art.y + art.height / 2);
    for y in art.y..art.bottom() {
        for x in art.x..art.right() {
            let cell = shown.cell(x, y);
            let want = if (x, y) == note { "♫" } else { "▀" };
            assert_eq!(cell.symbol(), want, "wrong glyph at {x},{y}");
            assert!(matches!(cell.fg, Color::Rgb(..)), "no fg at {x},{y}");
            assert!(matches!(cell.bg, Color::Rgb(..)), "no bg at {x},{y}");
        }
    }
    // The text starts past the sleeve and its gap.
    assert!(shown.at(Target::Gauge).x >= art.right() + now_playing::SLEEVE_GAP);
}

/// The sleeve goes before the text does: a bar with no artwork still
/// works, and a title clipped to make room for a thumbnail does not.
#[test]
fn a_narrow_bar_drops_the_sleeve_and_keeps_the_title() {
    let shown = bar(&bar_state(), 50, BAR_H);
    let lines = shown.lines();
    assert!(art_rect(&shown).is_empty());
    assert!(lines[TITLE_ROW].contains("Song Title"));
    assert!(lines[PROGRESS_ROW].contains("1:23"));
}

#[test]
fn artist_and_album_names_record_click_rects() {
    let shown = bar(&bar_state(), 100, BAR_H);
    let lines = shown.lines();
    for (rect, text) in
        [(artist_rect(&shown), "Artist Name"), (shown.at(Target::NowAlbum), "Album Name")]
    {
        assert_eq!(rect.y as usize, META_ROW);
        assert_eq!(rect.width as usize, text.len());
        let at_rect: String =
            lines[META_ROW].chars().skip(rect.x as usize).take(rect.width as usize).collect();
        assert_eq!(at_rect, text);
    }

    // Without ids there is nothing to open, so no rects are recorded.
    let mut st = bar_state();
    let track = &mut st.deck.playback.as_mut().unwrap().track;
    track.credits = vec![credit("Artist Name", None)];
    track.album_id = None;
    let shown = bar(&st, 100, BAR_H);
    assert!(artist_rect(&shown).is_empty());
    assert!(shown.at(Target::NowAlbum).is_empty());
}

/// Nothing has loaded the playing context yet: shuffle still draws, and
/// there is no name to click.
#[test]
fn the_context_row_survives_a_missing_queue() {
    let mut st = bar_state();
    st.queue = None;
    let shown = bar(&st, 100, BAR_H);
    assert!(shown.lines()[CONTEXT_ROW].contains("shuffle off"));
    assert!(shown.at(Target::QueueName).is_empty());
}

/// The state pill is padded to a fixed width, so nothing under the cursor
/// moves when playback toggles.
#[test]
fn play_pause_toggle_keeps_the_layout_stable() {
    let playing = bar(&bar_state(), 100, BAR_H);
    let mut st = bar_state();
    st.deck.playback.as_mut().unwrap().is_playing = false;
    let paused = bar(&st, 100, BAR_H);
    assert!(paused.lines()[TRANSPORT_ROW].contains("■ paused"));
    for t in [Target::Play, Target::Previous, Target::Next, Target::Volume, Target::Gauge] {
        assert_eq!(playing.at(t.clone()), paused.at(t));
    }
}

#[test]
fn hover_paints_a_pill_on_the_hovered_button_only() {
    let st = bar_state();
    let prev = bar(&st, 100, BAR_H).at(Target::Previous);
    let shown = bar_with(&st, Some(Position { x: prev.x, y: prev.y }), 100, BAR_H);
    let bg_at = |x: u16| shown.cell(x, prev.y).bg;
    assert_eq!(bg_at(prev.x), rgb(theme::DIM));
    assert_eq!(bg_at(prev.right() - 1), rgb(theme::DIM));
    assert_eq!(bg_at(shown.at(Target::Next).x), Color::Reset);
}

/// The progress row is a readout: it seeks on a click, but it carries no
/// grab handle, and hovering it puts no mark on the row either.
#[test]
fn the_progress_track_has_no_grab_handle() {
    let st = bar_state();
    let gauge = bar(&st, 100, BAR_H).at(Target::Gauge);
    let mouse = Position { x: gauge.x + gauge.width / 2, y: gauge.y };
    let shown = bar_with(&st, Some(mouse), 100, BAR_H);
    let bright = rgb(accent_bright(theme::ACCENT));
    for x in 0..100 {
        let cell = shown.cell(x, gauge.y);
        assert!(cell.symbol() != "●");
        assert!(cell.fg != bright);
        assert!(cell.bg != rgb(theme::DIM));
    }
}

/// The toast lands on the blank row above the progress track, against the
/// same right edge the volume slider uses.
#[test]
fn a_toast_lands_above_the_progress_track() {
    let mut st = bar_state();
    st.toast = toast("added to queue");
    let lines = bar(&st, 100, BAR_H).lines();
    assert!(lines[TOAST_ROW].contains("added to queue"));
    assert!(lines[TRANSPORT_ROW].contains("◂◂ previous"), "the transport was displaced");
    assert!(!lines[TOAST_ROW].contains("◂◂"), "the toast landed on the transport");
}

/// A short toast lands against the right edge.
#[test]
fn a_short_toast_is_right_aligned() {
    let mut st = bar_state();
    st.toast = toast("added to queue");
    let lines = bar(&st, 120, BAR_H).lines();
    assert!(!lines[TOAST_ROW].contains('…'), "a fitting toast should not be clipped");
    // Right-aligned: only the reserved edge cell follows it.
    let end = lines[TOAST_ROW].rfind("added to queue").unwrap() + "added to queue".len();
    assert!(lines[TOAST_ROW][end..].trim().is_empty());
}

/// A message longer than its row is clipped rather than dropped — a
/// truncated error beats a silent one.
#[test]
fn a_long_toast_is_clipped() {
    let mut st = bar_state();
    st.toast = toast("load failed: request timed out contacting api.spotify.com");
    let lines = bar(&st, 70, BAR_H).lines();
    let row = &lines[TOAST_ROW];
    assert!(row.contains("load failed"), "the toast vanished: {row:?}");
    assert!(row.contains('…'), "the toast was not clipped: {row:?}");
}

/// Below the minimum there is not enough of a message left to be worth
/// reading, so it is dropped whole.
#[test]
fn a_toast_gives_way_on_a_row_with_no_room() {
    let mut st = bar_state();
    st.toast = toast("added to queue");
    let lines = bar(&st, now_playing::TOAST_MIN_W, BAR_H).lines();
    assert!(
        !lines[TOAST_ROW].contains("added"),
        "a squeezed toast should go: {:?}",
        lines[TOAST_ROW]
    );
}

/// The volume track is click-mapped, so it draws the handle whose position
/// matches that mapping — in both views, and unlike the progress track.
#[test]
fn the_volume_slider_shows_its_grab_handle() {
    let shown = bar(&bar_state(), 120, BAR_H);
    let track = shown.text_in(shown.at(Target::Volume));
    assert!(track.contains('●'), "no knob on the volume track: {track:?}");
}

#[test]
fn nothing_playing_shows_a_hint() {
    let shown = bar(&idle(), 100, BAR_H);
    assert!(shown.lines()[1].contains("nothing playing"));
    assert!(shown.at(Target::Play).is_empty());
}

#[test]
fn short_bar_degrades_without_panicking() {
    for height in 0..BAR_H + 2 {
        bar(&bar_state(), 100, height);
    }
    for width in 0..30 {
        bar(&bar_state(), width, BAR_H);
    }
}

// ---- the player ----

/// A cell of padding on each side of the player view.
const PANE_INSET: u16 = 1;
/// At 80x26 the tall art tier applies: a three-row masthead, then a
/// twelve-row cover with twelve LED rows beside it.
const VIZ_TOP: u16 = HEADER_H;
const VIZ_BOTTOM: u16 = HEADER_H + ART_TALL_H - 1;

fn player_state() -> AppState {
    let mut st = idle();
    st.wear = Wear::Reports;
    st.show_player = true;
    st.deck.playback = Some(Playback {
        is_playing: true,
        is_local_device: false,
        shuffle: false,
        volume_percent: 50,
        progress_ms: 10_000,
        track: plain_track("Beta", "Bob"),
    });
    st.queue = Some(queue_of(
        "My Mix",
        vec![plain_track("Alpha", "Ann"), plain_track("Beta", "Bob"), plain_track("Gamma", "Cyd")],
    ));
    st
}

/// The whole screen, mark included.
fn player_raw(st: &AppState, cover: Cover, width: u16, height: u16) -> Shown {
    let mut scene = Scene::empty();
    let pen = pen_at(None);
    player::draw(&mut scene, screen_rect(width, height), st, pen);
    Shown::with_cover(scene, &pen, cover, width, height)
}

/// `height` rows of the player itself, under the mark's two.
fn player_shown(st: &AppState, width: u16, height: u16) -> Shown {
    player_raw(st, None, width, height + BRAND_H)
}

fn player_lines(st: &AppState, width: u16, height: u16) -> Vec<String> {
    player_shown(st, width, height).lines().split_off(BRAND_H as usize)
}

fn track_mut(st: &mut AppState) -> &mut Track {
    &mut st.deck.playback.as_mut().unwrap().track
}

/// The player is an overlay rather than a page, so it borrows the trail of
/// what is behind it, pinned opposite the mark. Its head is the way out —
/// unlike the browse screen's.
#[test]
fn the_mark_row_carries_the_browse_screens_own_path() {
    let mut st = player_state();
    st.main_index = 2;
    st.trail =
        vec![step("Home", CrumbTarget::Depth(0)), step("Black Holes", CrumbTarget::Current)];
    let shown = player_raw(&st, None, 80, 26);
    let lines = shown.lines();
    assert!(lines[0].starts_with(" ♫ spot"), "{:?}", lines[0]);
    assert!(lines[0].trim_end().ends_with("HOME  ›  BLACK HOLES"), "{:?}", lines[0]);
    // The head closes the view; the step before it is a crumb like any
    // other, and clicking it closes the view *and* goes there.
    let close = shown.at(Target::ClosePlayer);
    let crumbs = shown.crumbs();
    assert!(!close.is_empty());
    assert_eq!(crumbs.len(), 1);
    assert_eq!(crumbs[0].1, CrumbTarget::Depth(0));
    assert!(crumbs[0].0.right() < close.x);
    // And it keeps clear of the mark rather than crowding it.
    assert!(crumbs[0].0.x > shown.at(Target::Home).right());
}

/// A row with no space for the whole path drops it rather than clipping
/// it, like everything else pinned to this edge — and then the view has no
/// labelled way out but the mark, which is why the mark is claimed first.
#[test]
fn a_narrow_mark_row_drops_the_path_and_keeps_the_mark() {
    let mut st = player_state();
    st.trail =
        vec![step("Home", CrumbTarget::Depth(0)), step("Black Holes", CrumbTarget::Current)];
    let shown = player_raw(&st, None, 22, 26);
    let lines = shown.lines();
    assert!(lines[0].starts_with(" ♫ spot"), "{:?}", lines[0]);
    assert!(!lines[0].contains('›'), "{:?}", lines[0]);
    assert!(shown.at(Target::ClosePlayer).is_empty());
    assert!(shown.crumbs().is_empty());
    assert!(!shown.at(Target::Home).is_empty());
}

#[test]
fn renders_block_viz_and_queue_with_markers() {
    let st = player_state();
    let shown = player_shown(&st, 80, 26);
    let lines = player_lines(&st, 80, 26);
    // No pane frame: the view starts at the very first row.
    assert!(!lines[0].contains(" Player "));
    // The masthead spans the pane above the cover: the title, then
    // artists · album · year with the volume opposite. The play state is
    // not up here — it is centred under the progress bar.
    // The title wears no `♫` here — the mark two rows above owns the note
    // and the column.
    assert!(lines[0].trim_start().starts_with("Beta"), "{:?}", lines[0]);
    assert!(!lines[0].contains("♫"), "{:?}", lines[0]);
    assert!(!lines[0].contains("playing"), "{:?}", lines[0]);
    assert!(lines[1].contains("Bob · Album Name · 2020"), "{:?}", lines[1]);
    assert!(lines[1].contains("50%"), "{:?}", lines[1]);
    assert!(lines[2].trim().is_empty(), "{:?}", lines[2]);
    assert!(!lines.iter().any(|l| l.contains("playing from")));
    // Stale tap and no signal: the field rests dark. There is no baseline
    // row, so the floor paints no LEDs — only the sleeve's own `▀` cells
    // are on this line.
    assert!(
        !lines[VIZ_BOTTOM as usize].contains('▄'),
        "{:?}",
        lines[VIZ_BOTTOM as usize]
    );
    // A blank row above the progress bar, and blanks either side of the
    // row naming the queue.
    assert!(lines[15].trim().is_empty(), "{:?}", lines[15]);
    assert!(lines[16].contains("0:10 ━") && lines[16].contains(" -1:1"), "{:?}", lines[16]);
    // The transport sits directly under the bar, at both edges of it —
    // inside the pane's one-cell inset — with the play state centred
    // between the two buttons.
    assert!(lines[17].trim_start().starts_with("◂◂ previous"), "{:?}", lines[17]);
    assert!(lines[17].contains("● playing"), "{:?}", lines[17]);
    assert!(lines[17].trim_end().ends_with("▸▸ next"), "{:?}", lines[17]);
    assert!(lines[18].trim().is_empty() && lines[20].trim().is_empty());
    // Then one row heads the list: name on the left, shuffle opposite.
    assert!(lines[19].contains("My Mix · 3 tracks"), "{:?}", lines[19]);
    assert!(lines[19].contains("shuffle off"), "{:?}", lines[19]);
    assert!(!lines.iter().any(|l| l.contains("repeat")));
    // Queue rows: numbered, and only the playing one is marked.
    assert!(lines[21].contains(" 1   Alpha"), "{:?}", lines[21]);
    assert!(lines[22].contains("▶  2   Beta"), "{:?}", lines[22]);
    assert!(lines[23].contains(" 3   Gamma"), "{:?}", lines[23]);
    assert!(!lines.iter().any(|l| l.contains("→")));
    let queue = shown.at(Target::PlayerQueue);
    assert!(!queue.is_empty());
    assert_eq!(queue.y, BRAND_H + 21);
}

/// The field matches the sleeve top and bottom, so the block reads as one
/// object rather than as a picture with a chart next to it.
#[test]
fn the_field_fills_the_column_beside_the_cover() {
    let shown = player_shown(&player_state(), 80, 26);
    let (art, field) = (art_rect(&shown), shown.at(Target::Visualizer));
    assert_eq!(field.y, BRAND_H + VIZ_TOP);
    assert_eq!(field.bottom(), BRAND_H + VIZ_BOTTOM + 1);
    assert_eq!(field.y, art.y, "field and sleeve are out of line");
    assert_eq!(field.bottom(), art.bottom(), "field and sleeve are out of line");
    assert_eq!(field.height, ART_TALL_H, "the field lost rows to something");
    assert_eq!(field.x, art.right() + COVER_GAP);
    assert_eq!(field.right(), 80 - PANE_INSET, "field stops short of the pane edge");
}

/// The masthead spans the pane above the cover, so a long title has the
/// whole width to be read in rather than a column beside the sleeve.
#[test]
fn the_masthead_spans_the_pane_above_the_cover() {
    let mut st = player_state();
    track_mut(&mut st).name =
        "A Title Long Enough To Have Been Clipped By The Old Column".into();
    let shown = player_shown(&st, 80, 26);
    let lines = player_lines(&st, 80, 26);
    assert!(lines[0].contains("Been Clipped By The Old Column"), "{:?}", lines[0]);
    // The title has row 0 to itself; metadata and volume share row 1, both
    // above the art.
    let (title, meta) = (&lines[0], &lines[1]);
    assert!(title.trim_end().ends_with("Old Column"), "{title:?}");
    assert!(meta.trim_end().ends_with('%'), "{meta:?}");
    assert!(meta.contains("Bob · Album Name · 2020"), "{meta:?}");
    // The metadata starts flush with the title, not indented past it.
    // Cell columns, not byte offsets — the `·` separators are multi-byte.
    let col = |s: &str, c: char| s.chars().position(|x| x == c);
    assert_eq!(col(meta, 'B'), col(title, 'A'), "{meta:?} / {title:?}");
    // Row 2 separates the masthead from the block; the art starts on row 3.
    assert!(lines[2].trim().is_empty(), "{:?}", lines[2]);
    assert_eq!(art_rect(&shown).y, BRAND_H + HEADER_H);
}

/// Past the cap the field stops widening, which is what keeps a very wide
/// pane from slicing the spectrum into a horizon line.
#[test]
fn a_very_wide_pane_caps_the_band_count() {
    let (n, used) = band_layout(500);
    assert_eq!(n, MAX_BANDS as usize, "{n} bands");
    assert_eq!(used, MAX_BANDS * BAND_STRIDE - 1, "field kept growing past the cap");
}

/// The player lays itself out in a centred column, so a wide terminal does
/// not pin the block, the progress bar and the queue to opposite edges.
#[test]
fn a_wide_terminal_centres_a_capped_column() {
    let width = 200;
    let shown = player_shown(&player_state(), width, 30);
    let inner_w = width - 2 * PANE_INSET;
    let left = PANE_INSET + (inner_w - MAX_PLAYER_W) / 2;
    let column = Rect { x: left, y: 0, width: MAX_PLAYER_W, height: 30 };
    for (name, r) in [
        ("art", art_rect(&shown)),
        ("viz", shown.at(Target::Visualizer)),
        ("gauge", shown.at(Target::Gauge)),
        ("next", shown.at(Target::Next)),
    ] {
        assert!(!r.is_empty(), "{name} was not drawn");
        assert_eq!(r.intersection(column), r, "{name} escapes the centred column");
    }
    assert_eq!(art_rect(&shown).x, left, "the block does not start at the column's edge");
}

#[test]
fn no_queue_shows_hint() {
    let mut st = player_state();
    st.queue = None;
    let shown = player_shown(&st, 80, 26);
    assert!(shown.lines().iter().any(|l| l.contains("no queue — play a playlist or album")));
    assert!(shown.at(Target::PlayerQueue).is_empty());
}

#[test]
fn nothing_playing_shows_hint() {
    let mut st = player_state();
    st.deck.playback = None;
    let shown = player_shown(&st, 80, 26);
    assert!(player_lines(&st, 80, 26)[0].contains("nothing playing"));
    // Nothing to control, so no control records a hit rect.
    for t in [Target::Play, Target::Volume, Target::Gauge, Target::Previous] {
        assert!(shown.at(t.clone()).is_empty(), "{t:?}");
    }
}

#[test]
fn list_header_names_the_queue() {
    let mut st = player_state();
    st.queue = Some(queue_of("Search results", vec![plain_track("Alpha", "Ann")]));
    let lines = player_lines(&st, 80, 26);
    assert!(lines[19].contains("Search results · 1 tracks"), "{:?}", lines[19]);
    assert!(!lines.iter().any(|l| l.contains("Up Next")));
}

/// Selection is weight and brightness now, not a filled accent bar, so it
/// never outshouts the accent-colored playing row.
#[test]
fn selection_brightens_the_selected_row() {
    let mut st = player_state();
    st.queue_index = 0;
    let shown = player_shown(&st, 80, 26);
    let y = shown.at(Target::PlayerQueue).y;
    let row: Vec<_> = (1..79u16).map(|x| shown.cell(x, y)).collect();
    assert!(row.iter().all(|c| c.bg != rgb(theme::ACCENT)), "selection still paints a bar");
    assert!(
        row.iter()
            .any(|c| c.fg == rgb(theme::BRIGHT) && c.modifier.contains(Modifier::BOLD))
    );
}

/// Every control of the bottom bar records the same hit rect from the player
/// view.
#[test]
fn controls_record_hits_on_their_rows() {
    let shown = player_shown(&player_state(), 100, 26);
    // The masthead owns rows 0..2 — the title, metadata and volume, blank
    // — then the cover and the field beside it, then the progress bar, the
    // transport, the list header and the queue.
    let block = HEADER_H;
    let bar = block + ART_TALL_H + ART_PROGRESS_H - 1;
    let art = art_rect(&shown);
    for (rect, y) in [
        (shown.at(Target::Volume), 1),
        (art, block),
        (shown.at(Target::Visualizer), block),
        (shown.at(Target::Gauge), bar),
        (shown.at(Target::Previous), bar + 1),
        (shown.at(Target::Play), bar + 1),
        (shown.at(Target::Next), bar + 1),
        (shown.at(Target::Shuffle), bar + 1 + TRANSPORT_H),
        (shown.at(Target::QueueName), bar + 1 + TRANSPORT_H),
    ] {
        assert!(!rect.is_empty(), "{rect:?}");
        assert_eq!(rect.y, BRAND_H + y, "{rect:?}");
    }
    assert_eq!(shown.at(Target::Volume).width, VOL_TRACK_W);
    // Wheel-over-metadata adjusts volume, the way the bottom bar did — but
    // only over the two written rows, not the blank one below them.
    assert_eq!(shown.at(Target::NowPlaying).height, 2);
    assert_eq!(
        shown.at(Target::Visualizer).bottom(),
        art.bottom(),
        "field and sleeve are out of line"
    );
}

/// The progress row runs the pane's full inner width, on the same grid as
/// the block above it and the queue below.
#[test]
fn progress_row_spans_the_pane() {
    let shown = player_shown(&player_state(), 100, 26);
    let inner_w = 100 - 2 * PANE_INSET;
    assert_eq!(shown.at(Target::Gauge).x, PANE_INSET + 5, "elapsed label is 5 cells");
    assert_eq!(shown.at(Target::Gauge).width, inner_w - TIME_W);
}

/// A dot while audio runs, a faded square when it does not — and the same
/// width either way, so the word does not shift under the cursor. It sits on
/// the transport row, centred under the progress bar.
#[test]
fn play_state_marker_reports_running_or_stopped() {
    let state_row = (HEADER_H + ART_TALL_H + ART_PROGRESS_H) as usize;
    let playing = player_state();
    let lines = player_lines(&playing, 80, 26);
    assert!(lines[state_row].contains("● playing"), "{:?}", lines[state_row]);

    let mut paused = player_state();
    paused.deck.playback.as_mut().unwrap().is_playing = false;
    let lines = player_lines(&paused, 80, 26);
    assert!(lines[state_row].contains("■ paused"), "{:?}", lines[state_row]);
    assert_eq!(
        player_shown(&playing, 80, 26).at(Target::Play),
        player_shown(&paused, 80, 26).at(Target::Play)
    );

    let marker = |is_playing: bool| {
        let mut st = player_state();
        st.deck.playback.as_mut().unwrap().is_playing = is_playing;
        let shown = player_shown(&st, 80, 26);
        // The pill leads with a space, so the marker is its second cell.
        let play = shown.at(Target::Play);
        let cell = shown.cell(play.x + 1, play.y);
        (cell.symbol().to_string(), cell.fg)
    };
    let paused_fg = rgb(theme::stopped_dim(theme::ACCENT).fg.unwrap());
    assert_eq!(marker(false), ("■".to_string(), paused_fg));
    // Faded rather than a full signal lamp: a resting state.
    let Color::Rgb(r, g, b) = paused_fg else {
        panic!("{paused_fg:?} is not truecolor")
    };
    assert!(r > g && r > b, "{paused_fg:?} is not red");
    assert!(r < 0xCF, "{paused_fg:?} is not faded");
    assert_eq!(marker(true).0, "●");
    assert_ne!(marker(true).1, paused_fg);
}

/// The number is the row's position on screen. The display order is a
/// permutation of the tracks, so a track's own number would drift out of
/// step with it.
#[test]
fn queue_numbers_follow_display_order() {
    let mut st = player_state();
    st.queue.as_mut().unwrap().rows.display.reverse();
    let lines = player_lines(&st, 80, 26);
    assert!(lines[21].contains(" 1   Gamma"), "{:?}", lines[21]);
    assert!(lines[23].contains(" 3   Alpha"), "{:?}", lines[23]);
}

#[test]
fn player_short_pane_degrades_without_panicking() {
    // Widths sweep the early return, the remainder distribution, and well
    // past the width cap.
    for width in [8u16, 9, 11, 40, 41, 79, 80, 101, 102, 160, 240] {
        for height in 0..27 {
            let mut st = player_state();
            st.deck.tap_fresh = true;
            player_shown(&st, width, height);
            let mut st = player_state();
            st.queue = None;
            st.deck.playback = None;
            player_shown(&st, width, height);
        }
    }
}

/// Every art cell must carry *both* a foreground and a background: an
/// unset background lets the terminal's own paint through the bottom half
/// of `▀`, and the cover renders as stripes.
#[test]
fn art_paints_half_blocks_with_fg_and_bg() {
    let px = |x: u32, y: u32| x << 16 | y << 8 | 128;
    let shown = player_raw(&player_state(), Some(&px), 80, 26 + BRAND_H);
    let art = art_rect(&shown);
    assert!(!art.is_empty());
    for y in art.y..art.bottom() {
        for x in art.x..art.right() {
            let cell = shown.cell(x, y);
            assert_eq!(cell.symbol(), "▀", "at {x},{y}");
            assert!(matches!(cell.fg, Color::Rgb(..)), "no fg at {x},{y}");
            assert!(matches!(cell.bg, Color::Rgb(..)), "no bg at {x},{y}");
        }
    }
}

/// Two vertically stacked pixels per cell is the whole point of the
/// half-block trick, and nothing else exercises it.
#[test]
fn art_top_and_bottom_pixels_land_in_one_cell() {
    let st = player_state();
    let art = art_rect(&player_shown(&st, 80, 26));

    // Put the colour change on an *odd* pixel row, so one cell straddles
    // it: an even row would leave both halves of every cell the same
    // colour and the test would pass on a renderer that ignored `bg`.
    let px_rows = art.height as u32 * 2;
    let split_row = (px_rows / 2) | 1;
    let boundary = split_row * COVER_PX / px_rows;
    let px = move |_: u32, y: u32| if y < boundary { 0xDC0000 } else { 0x0000DC };
    let shown = player_raw(&st, Some(&px), 80, 26 + BRAND_H);
    let cell = shown.cell(art.x, art.y + (split_row / 2) as u16);
    let (Color::Rgb(fr, _, fb), Color::Rgb(br, _, bb)) = (cell.fg, cell.bg) else {
        panic!("art cell is not truecolor: {cell:?}");
    };
    assert!(fr > fb, "upper pixel is not red: {:?}", cell.fg);
    assert!(bb > br, "lower pixel is not blue: {:?}", cell.bg);
}

/// Catches transposed or mirrored indexing, which a solid-colour cover
/// would sail straight past.
#[test]
fn art_maps_source_left_to_pane_left() {
    let half = COVER_PX / 2;
    let px = move |x: u32, _: u32| if x < half { 0xDC0000 } else { 0x0000DC };
    let shown = player_raw(&player_state(), Some(&px), 80, 26 + BRAND_H);
    let art = art_rect(&shown);
    let fg_at = |frac: u16| shown.cell(art.x + art.width * frac / 4, art.y).fg;
    let Color::Rgb(lr, _, lb) = fg_at(1) else {
        panic!("not truecolor")
    };
    let Color::Rgb(rr, _, rb) = fg_at(3) else {
        panic!("not truecolor")
    };
    assert!(lr > lb, "left quarter is not red");
    assert!(rb > rr, "right quarter is not blue");
}

/// Half-block pixels are square only when the block is twice as wide as
/// it is tall, so this is what keeps a square sleeve looking square.
#[test]
fn art_block_is_square_in_cells() {
    for (w, h) in [(80u16, 26u16), (94, 36), (100, 30)] {
        let art = art_rect(&player_shown(&player_state(), w, h));
        assert!(!art.is_empty(), "{w}x{h}: no art");
        assert_eq!(art.width, 2 * art.height, "{w}x{h}: {art:?}");
    }
}

/// The decoded cover is held at a fixed resolution and resampled to the
/// pane every frame, so a resize re-fits it without a re-fetch.
#[test]
fn art_resamples_to_the_pane() {
    let px = |x: u32, y: u32| x << 16 | y << 8 | 128;
    let rect_at = |w, h: u16| art_rect(&player_raw(&player_state(), Some(&px), w, h + BRAND_H));
    let small = rect_at(55, 24);
    let large = rect_at(120, 40);
    assert_eq!(small.height, ART_SHORT_H);
    assert_eq!(large.height, ART_TALL_H);
    assert_ne!(small, large);
}

/// With no art the block keeps its exact footprint, so nothing reflows
/// when the real cover lands — and it reads as artwork pending rather
/// than as a hole.
#[test]
fn placeholder_fills_the_block_when_there_is_no_cover() {
    let shown = player_shown(&player_state(), 80, 26);
    let art = art_rect(&shown);
    let mut note = 0;
    for y in art.y..art.bottom() {
        for x in art.x..art.right() {
            let cell = shown.cell(x, y);
            assert!(matches!(cell.bg, Color::Rgb(..)), "no bg at {x},{y}");
            if cell.symbol() == "♫" {
                note += 1;
            }
        }
    }
    assert_eq!(note, 1, "expected exactly one note glyph");
}

/// Seeded on the album, so a record's swatch does not reshuffle between
/// its own tracks — or between frames.
#[test]
fn placeholder_is_stable_for_an_album() {
    let swatch = |album_id: Option<&str>| {
        let mut st = player_state();
        track_mut(&mut st).album_id = album_id.map(Into::into);
        let shown = player_shown(&st, 80, 26);
        let art = art_rect(&shown);
        (art.y..art.bottom())
            .flat_map(|y| (art.x..art.right()).map(move |x| (x, y)))
            .map(|(x, y)| shown.cell(x, y).bg)
            .collect::<Vec<_>>()
    };
    assert_eq!(swatch(Some("alb1")), swatch(Some("alb1")));
    // Six palette entries, so a couple of ids could collide; two that do
    // not are enough to show the seed is actually used.
    assert!(
        (0..8).any(|i| swatch(Some("alb1")) != swatch(Some(&format!("other{i}")))),
        "every album got the same swatch"
    );
}

/// The row budget, pinned per tier. Every band's height is a constant, so
/// a change to one of them should fail here rather than quietly eat the
/// queue.
#[test]
fn the_row_budget_leaves_the_queue_usable() {
    // With a cover the field rides beside the sleeve, so `viz` — the
    // *stacked* tier's band — is zero in the art tiers.
    for (w, h, art, viz, queue) in [
        (94u16, 36u16, ART_TALL_H, 0u16, 15u16),
        (100, 30, ART_TALL_H, 0, 9),
        (80, 26, ART_TALL_H, 0, 5),
        (55, 24, ART_SHORT_H, 0, 7),
        (44, 30, 0, VIZ_H, 11),
    ] {
        let rows = Rows::new(w - 2 * PANE_INSET, h);
        assert_eq!(rows.art, art, "{w}x{h} cover");
        assert_eq!(rows.viz, viz, "{w}x{h} field");
        assert_eq!(rows.queue, queue, "{w}x{h} queue");
        assert_eq!(
            rows.art
                + rows.header
                + rows.progress
                + rows.viz
                + rows.transport
                + rows.list_head
                + rows.queue,
            h,
            "{w}x{h} does not add up"
        );
    }
}

/// Art is the first thing shed: the stacked fallback still has a
/// spectrum, a progress bar and a title, so it costs the least.
#[test]
fn a_narrow_pane_drops_art_before_the_visualizer() {
    let shown = player_shown(&player_state(), 44, 30);
    assert!(art_rect(&shown).is_empty(), "{:?}", art_rect(&shown));
    let viz = shown.at(Target::Visualizer);
    assert!(!viz.is_empty(), "the visualizer went first");
    assert_eq!(viz.x, PANE_INSET);
}

#[test]
fn a_short_pane_drops_art() {
    let shown = player_shown(&player_state(), 100, 17);
    assert!(art_rect(&shown).is_empty(), "{:?}", art_rect(&shown));
    assert!(!shown.at(Target::Visualizer).is_empty());
}

/// The artist and album lines are click targets, the way the bottom bar's
/// are — but only when there is an id to open.
#[test]
fn metadata_lines_are_links_when_their_ids_are_known() {
    let shown = player_shown(&player_state(), 100, 26);
    assert!(artist_rect(&shown).is_empty(), "linked without an artist id");
    assert!(shown.at(Target::NowAlbum).is_empty(), "linked without an album id");

    let mut st = player_state();
    let track = track_mut(&mut st);
    track.credits = vec![credit("Bob", Some("art1"))];
    track.album_id = Some("alb1".into());
    let shown = player_shown(&st, 100, 26);
    let (artist, album) = (artist_rect(&shown), shown.at(Target::NowAlbum));
    // Both sit on the one metadata row, the album after the separator.
    assert_eq!(artist.y, BRAND_H + 1);
    assert_eq!(album.y, BRAND_H + 1);
    // The rects stop at the text rather than running to the pane edge.
    assert_eq!(artist.width, "Bob".len() as u16);
    assert_eq!(album.x, artist.right() + 3, "separator is 3 cells");
    assert_eq!(album.width, "Album Name".len() as u16);
}

/// A self-titled release renders as "Beta · Beta": both names are links,
/// to the artist and to the record, so neither is dropped for repeating
/// the other.
#[test]
fn the_album_line_keeps_a_name_that_repeats_the_track() {
    let mut st = player_state();
    let track = track_mut(&mut st);
    track.album = "Beta".into();
    track.album_id = Some("alb1".into());
    let lines = player_lines(&st, 80, 26);
    assert!(lines[1].contains("Bob · Beta · 2020"), "{:?}", lines[1]);
    assert!(
        !player_shown(&st, 80, 26).at(Target::NowAlbum).is_empty(),
        "the album lost its link"
    );
}

/// The metadata row runs out at the volume slider. A segment that will not
/// fit is dropped whole, rather than clipped to a dangling separator.
#[test]
fn the_metadata_row_drops_segments_it_cannot_fit() {
    let st = player_state();
    let lines = player_lines(&st, 50, 30);
    assert!(lines[1].contains("Bob · Album Name"), "{:?}", lines[1]);
    assert!(!lines[1].contains("Album Name ·"), "dangling separator: {:?}", lines[1]);
    assert!(!lines[1].contains("2020"), "{:?}", lines[1]);
    // Wider, and the year comes back.
    let lines = player_lines(&st, 80, 26);
    assert!(lines[1].contains("Bob · Album Name · 2020"), "{:?}", lines[1]);
}

#[test]
fn band_layout_fills_its_rect_up_to_the_cap() {
    for width in 5..=300u16 {
        let (n, used) = band_layout(width);
        let n = n as u16;
        assert!((MIN_BANDS..=MAX_BANDS).contains(&n), "width {width} gave {n} bands");
        // A bar and a gap per band, less the gap after the last one.
        assert_eq!(used, n * BAND_STRIDE - 1, "width {width}");
        // It never overruns the rect it was given, except at the minimum
        // band count where the pane is simply too narrow to draw at all.
        assert!(used <= width || n == MIN_BANDS, "width {width} overrun by {used}");
        // And it leaves nothing unused — at most the one odd cell a
        // two-cell stride cannot fill — until the cap bites.
        assert!(
            width.saturating_sub(used) <= 1 || n == MAX_BANDS,
            "width {width} only used {used}"
        );
    }
}

// ---- the visualizer ----

/// A band whose bar and afterglow reach so many rows.
fn band(bar: f32, glow: f32) -> Band {
    Band {
        full: (bar * 2.0).floor() as u32,
        part: (bar * 2.0).ceil() as u32,
        glow: (glow * 2.0).floor() as u32,
    }
}

/// The glyph of a light and its brightness.
fn light(band: Band, slot: u16) -> (char, Option<u32>) {
    match viz_cell(band, slot) {
        Some(led) => ('▄', Some(led_percent(led))),
        None => (' ', None),
    }
}

#[test]
fn viz_cell_lights_leds_under_a_fading_trail() {
    let rows = 8;
    // Bar at 3 rows, glow still up at 6 from where the bar just fell.
    let col = band(3.0, 6.0);
    let glyphs: Vec<char> = (1..=rows).rev().map(|slot| light(col, slot).0).collect();
    assert_eq!(glyphs, [' ', ' ', '▄', '▄', '▄', '▄', '▄', '▄']);
    // Every cell is the same half-height glyph, so nothing can hang outside
    // the LED row it belongs to; lit, half-lit and trail differ by brightness.
    assert_ne!(light(col, 3).1, light(col, 5).1, "trail is not dimmer than the bar");
    assert_ne!(
        light(col, 4).1,
        light(band(4.0, 4.0), 4).1,
        "trail matches a fully lit LED at the same height"
    );

    // A cell the bar only reaches into lights at half brightness; less
    // than half a row of signal leaves it dark.
    assert_ne!(light(band(2.7, 2.7), 3).1, light(band(3.0, 3.0), 3).1);
    assert_eq!(light(band(2.2, 2.2), 3).0, ' ');
}

/// Silence leaves the field empty — there is no dim baseline row along the
/// floor for the bars to sit on.
#[test]
fn viz_cell_paints_nothing_when_silent() {
    assert_eq!(light(band(0.0, 0.0), 1), (' ', None));
    assert_eq!(light(band(0.0, 0.0), 2).0, ' ');
}

/// A light is lit as the bar's height compares with its own row, whatever the
/// height.
#[test]
fn lights_follow_the_height_of_the_bar() {
    for i in 0..400 {
        for j in 0..40 {
            let (bar, glow) = (i as f32 * 0.03, j as f32 * 0.31);
            for slot in 1..=12u16 {
                let s = slot as f32;
                let want = if bar >= s {
                    Some(Led::Lit)
                } else if bar > s - 0.5 {
                    Some(Led::Half)
                } else if glow >= s - 0.5 {
                    Some(Led::Trail)
                } else {
                    None
                };
                assert_eq!(viz_cell(band(bar, glow), slot), want, "{bar} {glow} {slot}");
            }
        }
    }
}

/// Bars are one cell wide on a two-cell stride — a blank column between
/// every pair — and the run ends on a bar rather than a trailing gap, at
/// every width the layout produces.
#[test]
fn bars_are_gapped_and_fill_the_field_at_every_width() {
    for width in [40u16, 80, 94, 200] {
        let field = player_shown(&player_state(), width, 26).at(Target::Visualizer);
        let (n, used) = band_layout(field.width);
        // Every band is lit, so the painted columns are exactly the bar
        // columns — and the unpainted ones exactly the gaps.
        let bands = vec![band(field.height as f32, field.height as f32); n];
        let floor = field.bottom() - 1;
        let painted: Vec<u16> = draw_visualizer(field, &bands)
            .into_iter()
            .filter(|led| led.at.y == floor && led.led.is_some())
            .map(|led| led.at.x)
            .collect();
        assert!(n <= MAX_BANDS as usize, "{width}: {n} bands");
        assert_eq!(used, n as u16 * BAND_STRIDE - 1, "{width}: wrong field width");
        assert!(used <= field.width, "{width}: the field overflows its rect");
        assert_eq!(painted.len(), n, "{width}: bands lost");
        let expected: Vec<u16> = (0..n as u16).map(|i| field.x + i * BAND_STRIDE).collect();
        assert_eq!(painted, expected, "{width}: bars are not gapped on the stride");
    }
    let narrow = Rect { x: 0, y: 0, width: 5, height: 4 };
    assert!(draw_visualizer(narrow, &vec![band(4.0, 4.0); 4]).is_empty());
}

/// With a station on the bar is about the station, and a record kept under it
/// shows nowhere: its gauge least of all, which would lie under the live bar.
#[test]
fn a_station_takes_the_bar_from_the_record_kept_under_it() {
    let mut st = bar_state();
    st.deck.radio = Some(radio("Adroit Jazz"));
    st.deck.tap_fresh = true;
    st.radio_steps = RadioSteps { back: true, forward: RadioForward::Seek };
    st.toast = toast("saved");
    let shown = bar(&st, 120, BAR_H);
    let lines = shown.lines();
    // No record is known, so there is no sleeve and the text has the bar.
    assert!(lines[TITLE_ROW].starts_with("Adroit Jazz"), "{:?}", lines[TITLE_ROW]);
    assert!(lines[META_ROW].starts_with("jazz"), "{:?}", lines[META_ROW]);
    assert!(lines[TOAST_ROW].contains("saved"), "{:?}", lines[TOAST_ROW]);
    assert!(lines[PROGRESS_ROW].starts_with("LIVE ━"), "{:?}", lines[PROGRESS_ROW]);
    assert!(lines[TRANSPORT_ROW].starts_with(PREV_LABEL), "{:?}", lines[TRANSPORT_ROW]);
    assert!(lines[TRANSPORT_ROW].contains("pause"), "{:?}", lines[TRANSPORT_ROW]);
    assert!(lines[TRANSPORT_ROW].trim_end().ends_with(SEEK_LABEL), "{:?}", lines[TRANSPORT_ROW]);
    assert!(lines[CONTEXT_ROW].contains("Adroit Jazz · Germany · MP3 128k"));
    assert!(lines[CONTEXT_ROW].contains("★ save "), "{:?}", lines[CONTEXT_ROW]);
    assert!(!lines.iter().any(|l| l.contains("Song Title") || l.contains("My Mix")));
    assert!(shown.at(Target::Gauge).is_empty());
    assert_eq!(shown.at(Target::NowPlaying), screen_rect(120, BAR_H));

    // And the same with nothing kept under it.
    st.deck.playback = None;
    assert!(now_playing::has_subject(&st));
    assert_eq!(bar(&st, 120, BAR_H).lines(), lines);

    // A station of yours says so.
    st.favorites = vec![radio("Adroit Jazz").station];
    assert!(bar(&st, 120, BAR_H).lines()[CONTEXT_ROW].contains("★ saved"));
}

/// Once the announced record was found the bar has its sleeve, and says of it
/// what it says of any record.
#[test]
fn a_matched_record_hangs_its_sleeve_in_the_bar() {
    let mut st = idle();
    let mut r = radio("Adroit Jazz");
    r.matched = Some(matched());
    st.deck.radio = Some(r);
    st.liked.entries.push(("spotify:track:m1".into(), true));
    let shown = bar(&st, 120, BAR_H);
    let lines = shown.lines();
    assert!(lines[TITLE_ROW].contains("Frenesi"), "{:?}", lines[TITLE_ROW]);
    assert!(lines[TITLE_ROW].contains("★ liked"), "{:?}", lines[TITLE_ROW]);
    assert!(lines[META_ROW].contains("Peter Appleyard · The Lost 1974 Sessions · 1974"));
    assert_eq!(
        shown.at(Target::Sleeve { seed: "alb1".into() }),
        Rect { x: 0, y: 1, width: art_w(DECK_H), height: DECK_H }
    );
}

/// A short bar keeps as many of a station's rows as it has, from the top.
#[test]
fn a_short_bar_drops_a_stations_rows_from_the_bottom() {
    let mut st = idle();
    st.deck.radio = Some(radio("Adroit Jazz"));
    for height in 0..=BAR_H {
        let lines = bar(&st, 80, height.max(1)).lines();
        let has = |text: &str| lines.iter().any(|l| l.contains(text));
        if height > 1 {
            assert!(has("Adroit Jazz"), "{height}");
        }
        assert_eq!(has("LIVE"), height >= 5, "{height}");
        assert_eq!(has("MP3 128k"), height >= 8, "{height}");
    }
}

/// The player draws the station's rows where it draws a record's.
#[test]
fn a_station_takes_the_player_from_the_record_kept_under_it() {
    let mut st = player_state();
    st.deck.radio = Some(radio("Adroit Jazz"));
    let lines = player_lines(&st, 80, 26);
    assert!(lines[0].trim_start().starts_with("Adroit Jazz"), "{:?}", lines[0]);
    assert!(lines[1].contains("jazz"), "{:?}", lines[1]);
    assert!(lines.iter().any(|l| l.contains("LIVE ━")));
    assert!(lines.iter().any(|l| l.contains("Adroit Jazz · Germany · MP3 128k")));
    assert!(!lines.iter().any(|l| l.contains("Beta")), "{lines:?}");
    let shown = player_shown(&st, 80, 26);
    assert!(shown.at(Target::Gauge).is_empty());
    assert!(!shown.at(Target::Visualizer).is_empty());

    // And the sleeve of the record it announced, once that was found.
    st.deck.radio.as_mut().unwrap().matched = Some(matched());
    let shown = player_shown(&st, 80, 26);
    assert!(!shown.at(Target::Sleeve { seed: "alb1".into() }).is_empty());
}

/// In the player the queue hangs from its name, which says whether the list is
/// folded away; folding it takes the list and moves nothing above it.
#[test]
fn the_players_heading_folds_its_list() {
    let mut st = player_state();
    let open = player_lines(&st, 80, 26);
    let at = open.iter().position(|l| l.contains("▾ My Mix · 3 tracks")).unwrap();
    assert!(open.iter().skip(at + 1).any(|l| l.contains("Beta")));
    let shown = player_shown(&st, 80, 26);
    assert_eq!(shown.at(Target::QueueName).width as usize, width("▾ My Mix"));

    st.list_folded = true;
    let folded = player_lines(&st, 80, 26);
    assert!(folded[at].contains("▸ My Mix · 3 tracks"), "{:?}", folded[at]);
    assert!(folded.iter().skip(at + 1).all(|l| l.trim().is_empty()), "{folded:?}");
    assert_eq!(folded[..at], open[..at]);
    assert!(player_shown(&st, 80, 26).at(Target::PlayerQueue).is_empty());
}

/// A station's name in the player folds as a queue's does, and the bar's names
/// carry no mark whatever is folded.
#[test]
fn only_the_player_marks_what_folds() {
    let mut st = bar_state();
    for folded in [false, true] {
        st.list_folded = folded;
        st.deck.radio = None;
        let bar_row = bar(&st, 120, BAR_H).lines()[CONTEXT_ROW].clone();
        assert!(!bar_row.contains('▾') && !bar_row.contains("▸ "), "{bar_row:?}");
        st.deck.radio = Some(radio("Adroit Jazz"));
        let bar_row = bar(&st, 120, BAR_H).lines()[CONTEXT_ROW].clone();
        assert!(bar_row.starts_with("Adroit Jazz"), "{bar_row:?}");
        let want = if folded { "▸ Adroit Jazz" } else { "▾ Adroit Jazz" };
        assert!(player_lines(&st, 80, 26).iter().any(|l| l.contains(want)), "{want}");
    }
}
