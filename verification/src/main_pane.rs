//! The browse pane: whichever page is open.

use vstd::prelude::*;
use vstd::string::*;

use crate::artist_body::{artist_body, artist_body_drawn};
use crate::artist_page::{artist_band, below_portrait, portrait_drawn};
use crate::band::{band_drawn, below_band, controls_of, header_band, header_controls};
use crate::columns::GUTTER;
use crate::geometry::Rect;
use crate::home::{draw_home, home_drawn};
use crate::message::{list_nothing, nothing_listed};
use crate::scene::{Canvas, Scene};
use crate::search_page::{awaited, draw_search, search_page_drawn};
use crate::state::{
    copy_text, AppState, ArtistView, MainView, PageHeader, PageNote, Pen, RadioRow, RadioTab,
    RadioView, SearchTab, Station, TrackList, TrackListKind,
};
use crate::tables::{
    all_rows, facet_table_drawn, playlist_table_drawn, render_facet_table,
    render_playlist_table, render_station_table, render_track_table, rows_present,
    station_table_drawn, track_table_drawn, NowBoard,
};
use crate::tabs::{draw_tabs, tabs_drawn, Tab};
use crate::text::{a_number_reads_back, dec, decimal, digits_alone, joined, number_in};

verus! {

/// What marks the playing row of a page: the playing track, and the source the
/// playing queue came out of.
pub struct PlayMarks {
    pub uri: Option<String>,
    pub context: Option<String>,
}

/// What marks the playing row. A queue marks nothing while nothing is on.
pub open spec fn marks_of(st: AppState) -> PlayMarks {
    match (st.deck.playback, st.queue) {
        (Some(_), Some(q)) => PlayMarks { uri: q.current, context: q.source_key },
        _ => PlayMarks { uri: None, context: None },
    }
}

pub fn play_marks(st: &AppState) -> (r: PlayMarks)
    ensures
        r == marks_of(*st),
{
    match (&st.deck.playback, &st.queue) {
        (Some(_), Some(q)) => PlayMarks {
            uri: copy_text(&q.current),
            context: copy_text(&q.source_key),
        },
        _ => PlayMarks { uri: None, context: None },
    }
}

/// The address of the station on the deck.
pub open spec fn station_url(st: AppState) -> Option<String> {
    match st.deck.radio {
        Some(r) => Some(r.station.url),
        None => None,
    }
}

pub fn playing_station(st: &AppState) -> (r: Option<String>)
    ensures
        r == station_url(*st),
{
    match &st.deck.radio {
        Some(r) => Some(r.station.url.clone()),
        None => None,
    }
}

/// The station on the deck and what it is announcing.
pub open spec fn live_of(st: AppState) -> Option<(String, Option<String>)> {
    match st.deck.radio {
        Some(r) => Some((r.station.uuid, r.title)),
        None => None,
    }
}

pub fn live_now(st: &AppState) -> (r: Option<(String, Option<String>)>)
    ensures
        r == live_of(*st),
{
    match &st.deck.radio {
        Some(r) => Some((r.station.uuid.clone(), copy_text(&r.title))),
        None => None,
    }
}

/// The pane's content: everything but the column the scrollbar rides in.
#[verifier::allow_in_spec]
pub fn body_area(area: Rect) -> Rect
    returns
        area.wide(area.width.saturating_sub(GUTTER)),
{
    area.wide(area.width.saturating_sub(GUTTER))
}

/// A number of things, in words.
pub open spec fn plural_text(n: nat, one: Seq<char>, many: Seq<char>) -> Seq<char> {
    if n == 1 {
        "1 "@ + one
    } else {
        decimal(n) + " "@ + many
    }
}

fn plural(n: usize, one: &str, many: &str) -> (r: String)
    ensures
        r@ == plural_text(n as nat, one@, many@),
{
    if n == 1 {
        joined("1 ", one)
    } else {
        let count = dec(n as u64);
        let head = joined(count.as_str(), " ");
        joined(head.as_str(), many)
    }
}

/// Whether a radio page lists countries or genres: its first row says which.
pub open spec fn lists_facets(v: RadioView) -> bool {
    v.rows.display@.len() > 0 && v.rows.row(0) is Facet
}

fn has_facets(v: &RadioView) -> (r: bool)
    requires
        v.rows.wf(),
    ensures
        r == lists_facets(*v),
{
    v.rows.len() > 0 && match v.rows.at(0) {
        RadioRow::Facet { .. } => true,
        RadioRow::Station(_) => false,
    }
}

/// The total a page pins opposite its path.
pub open spec fn count_of(st: AppState) -> Option<Seq<char>> {
    match st.main {
        MainView::Playlists => if st.playlists.items@.len() > 0 {
            Some(plural_text(st.playlists.items@.len(), "playlist"@, "playlists"@))
        } else {
            None
        },
        MainView::Radio(v) => if v.rows.display@.len() > 0 {
            if lists_facets(v) {
                Some(plural_text(v.rows.display@.len(), "entry"@, "entries"@))
            } else {
                Some(plural_text(v.rows.display@.len(), "station"@, "stations"@))
            }
        } else {
            None
        },
        _ => None,
    }
}

/// Whether the head of the path says that the page is still coming in.
pub open spec fn head_loading(st: AppState) -> bool {
    match st.main {
        MainView::Home => false,
        MainView::Playlists => st.loading && st.playlists.items@.len() == 0,
        MainView::Tracks(list) => st.loading || list.loading,
        MainView::Search(_) => st.loading,
        MainView::Artist(v) => v.loading,
        MainView::Radio(_) => false,
    }
}

/// What the open page shows is there: every row of every list on it names an
/// item of that list.
pub open spec fn view_wf(view: MainView) -> bool {
    match view {
        MainView::Home | MainView::Playlists => true,
        MainView::Tracks(list) => list.rows.wf(),
        MainView::Search(s) => s.tracks.wf() && s.albums.wf() && s.artists.wf()
            && s.playlists.wf() && s.stations.wf(),
        MainView::Artist(v) => v.top.wf() && v.albums.wf(),
        MainView::Radio(v) => v.rows.wf(),
    }
}

/// Whether every row of every list of a page shows an item there is.
pub fn is_whole(view: &MainView) -> (r: bool)
    ensures
        r == view_wf(*view),
{
    match view {
        MainView::Home | MainView::Playlists => true,
        MainView::Tracks(list) => list.rows.is_whole(),
        MainView::Search(s) => s.tracks.is_whole() && s.albums.is_whole() && s.artists.is_whole()
            && s.playlists.is_whole() && s.stations.is_whole(),
        MainView::Artist(v) => v.top.is_whole() && v.albums.is_whole(),
        MainView::Radio(v) => v.rows.is_whole(),
    }
}

/// What the open page contributes to the header above it.
pub open spec fn page_note(st: AppState) -> PageNote {
    PageNote { loading: head_loading(st), count: count_of(st) }
}

/// What the open page contributes to the header above it: the row it goes on is
/// not the pane's to draw.
pub fn page_header(st: &AppState) -> (r: PageHeader)
    requires
        view_wf(st.main),
    ensures
        r@ == page_note(*st),
{
    match &st.main {
        MainView::Home => PageHeader { loading: false, count: None },
        MainView::Playlists => {
            let n: usize = st.playlists.items.len();
            PageHeader {
                loading: st.loading && n == 0,
                count: if n > 0 { Some(plural(n, "playlist", "playlists")) } else { None },
            }
        },
        MainView::Tracks(list) => PageHeader { loading: st.loading || list.loading, count: None },
        MainView::Search(_) => PageHeader { loading: st.loading, count: None },
        MainView::Artist(v) => PageHeader { loading: v.loading, count: None },
        MainView::Radio(v) => {
            let n: usize = v.rows.len();
            let count = if n == 0 {
                None
            } else if has_facets(v) {
                Some(plural(n, "entry", "entries"))
            } else {
                Some(plural(n, "station", "stations"))
            };
            PageHeader { loading: false, count }
        },
    }
}

/// The canvas with the page of playlists on it.
pub open spec fn playlists_page_drawn(c: Canvas, inner: Rect, st: AppState, pen: Pen) -> Canvas {
    let none = st.playlists.items@.len() == 0;
    if inner.width == 0 || inner.height == 0 {
        c
    } else if none && (st.playlists_error is Some || st.loading) {
        nothing_listed(
            c,
            inner,
            st.playlists_error,
            true,
            "loading playlists…"@,
            ""@,
            st.retries,
            pen,
        )
    } else {
        playlist_table_drawn(
            c,
            inner,
            all_rows(&st.playlists),
            st.playlists.sort,
            st.me_id,
            marks_of(st).context,
            st.main_index,
            st.main_offset,
            pen,
        )
    }
}

/// The playlists, one row each. A page that is still asking, or that was
/// refused, has nothing to put columns over.
pub fn draw_playlists(scene: &mut Scene, inner: Rect, st: &AppState, pen: Pen)
    ensures
        final(scene)@ == playlists_page_drawn(old(scene)@, inner, *st, pen),
{
    if inner.width == 0 || inner.height == 0 {
        return;
    }
    if st.playlists.items.len() == 0 && (st.playlists_error.is_some() || st.loading) {
        list_nothing(
            scene,
            inner,
            &st.playlists_error,
            true,
            "loading playlists…",
            "",
            st.retries,
            pen,
        );
        return;
    }
    let rows = rows_present(&st.playlists);
    let marks = play_marks(st);
    render_playlist_table(
        scene,
        inner,
        &rows,
        st.playlists.sort,
        &st.me_id,
        &marks.context,
        st.main_index,
        st.main_offset,
        pen,
    );
}

/// The tabs of the radio directory.
pub open spec fn radio_tabs() -> Seq<Tab> {
    seq![
        Tab::Radio(RadioTab::Popular),
        Tab::Radio(RadioTab::Countries),
        Tab::Radio(RadioTab::Genres),
        Tab::Radio(RadioTab::Saved),
    ]
}

fn all_radio_tabs() -> (r: Vec<Tab>)
    ensures
        r@ == radio_tabs(),
{
    let r = vec![
        Tab::Radio(RadioTab::Popular),
        Tab::Radio(RadioTab::Countries),
        Tab::Radio(RadioTab::Genres),
        Tab::Radio(RadioTab::Saved),
    ];
    assert(r@ =~= radio_tabs());
    r
}

/// The stations among the first `n` rows of a directory page.
pub open spec fn stations_upto(rows: Seq<&RadioRow>, n: nat) -> Seq<&Station>
    decreases n,
{
    if n == 0 {
        Seq::empty()
    } else {
        let before = stations_upto(rows, (n - 1) as nat);
        match rows[n - 1] {
            RadioRow::Station(s) => before.push(s),
            RadioRow::Facet { .. } => before,
        }
    }
}

fn stations_of<'a>(rows: &Vec<&'a RadioRow>) -> (r: Vec<&'a Station>)
    ensures
        r@ == stations_upto(rows@, rows@.len()),
{
    let mut r: Vec<&'a Station> = Vec::new();
    let mut i: usize = 0;
    while i < rows.len()
        invariant
            i <= rows@.len(),
            r@ == stations_upto(rows@, i as nat),
        decreases rows@.len() - i,
    {
        let row: &'a RadioRow = rows[i];
        match row {
            RadioRow::Station(s) => r.push(s),
            RadioRow::Facet { .. } => {},
        }
        i = i + 1;
    }
    r
}

/// What a radio page with nothing on it says.
#[verifier::allow_in_spec]
pub fn radio_empty_hint(favorites: bool) -> &'static str
    returns
        (if favorites {
            "no saved stations yet — press L on one to keep it"
        } else {
            "nothing here"
        }),
{
    if favorites {
        "no saved stations yet — press L on one to keep it"
    } else {
        "nothing here"
    }
}

/// What is below a strip of tabs and the blank under it, where there is room
/// for one.
#[verifier::allow_in_spec]
pub fn below_tabs(inner: Rect) -> Rect
    returns
        (if inner.height >= 4 {
            inner.band(2, (inner.height - 2) as u16)
        } else {
            inner
        }),
{
    if inner.height >= 4 {
        inner.band(2, inner.height - 2)
    } else {
        inner
    }
}

/// The canvas with a page of the radio directory below its tabs.
pub open spec fn radio_listed(
    c: Canvas,
    body: Rect,
    v: RadioView,
    board: NowBoard,
    st: AppState,
    pen: Pen,
) -> Canvas {
    let rows = all_rows(&v.rows);
    if v.rows.display@.len() == 0 {
        nothing_listed(
            c,
            body,
            v.error,
            v.loading,
            "loading stations…"@,
            radio_empty_hint(v.favorites)@,
            st.retries,
            pen,
        )
    } else if lists_facets(v) {
        facet_table_drawn(
            c,
            body,
            rows,
            v.tab == RadioTab::Genres,
            v.rows.sort,
            st.main_index,
            st.main_offset,
            pen,
        )
    } else {
        station_table_drawn(
            c,
            body,
            stations_upto(rows, rows.len()),
            st.favorites@,
            station_url(st),
            if v.favorites {
                Some(&board)
            } else {
                None
            },
            v.rows.sort,
            st.main_index,
            st.main_offset,
            pen,
        )
    }
}

/// What is known of what every station is announcing.
pub open spec fn board_of(st: AppState) -> NowBoard<'static> {
    NowBoard { probed: &st.radio_now, live: live_of(st) }
}

/// The canvas with a page of the radio directory on it.
pub open spec fn radio_page_drawn(
    c: Canvas,
    inner: Rect,
    v: RadioView,
    st: AppState,
    pen: Pen,
) -> Canvas {
    if inner.width == 0 || inner.height == 0 {
        c
    } else {
        let c = if inner.height >= 4 {
            tabs_drawn(c, inner.tall(1), radio_tabs(), Tab::Radio(v.tab), pen)
        } else {
            c
        };
        radio_listed(c, below_tabs(inner), v, board_of(st), st, pen)
    }
}

/// The radio directory: a strip of tabs over one table. The chart, a country's
/// stations and the ones you keep are all the same table. Only the page of kept
/// stations asks what they are playing.
pub fn draw_radio(scene: &mut Scene, inner: Rect, v: &RadioView, st: &AppState, pen: Pen)
    requires
        v.rows.wf(),
    ensures
        final(scene)@ == radio_page_drawn(old(scene)@, inner, *v, *st, pen),
{
    if inner.width == 0 || inner.height == 0 {
        return;
    }
    if inner.height >= 4 {
        let tabs = all_radio_tabs();
        draw_tabs(scene, inner.tall(1), &tabs, Tab::Radio(v.tab), pen);
    }
    let body = below_tabs(inner);
    if v.rows.len() == 0 {
        list_nothing(
            scene,
            body,
            &v.error,
            v.loading,
            "loading stations…",
            radio_empty_hint(v.favorites),
            st.retries,
            pen,
        );
        return;
    }
    let rows = rows_present(&v.rows);
    if has_facets(v) {
        render_facet_table(
            scene,
            body,
            &rows,
            v.tab == RadioTab::Genres,
            v.rows.sort,
            st.main_index,
            st.main_offset,
            pen,
        );
        return;
    }
    let stations = stations_of(&rows);
    let url = playing_station(st);
    let board = NowBoard { probed: &st.radio_now, live: live_now(st) };
    render_station_table(
        scene,
        body,
        &stations,
        &st.favorites,
        &url,
        if v.favorites { Some(&board) } else { None },
        v.rows.sort,
        st.main_index,
        st.main_offset,
        pen,
    );
}

/// The canvas with a track page on it.
pub open spec fn tracks_page_drawn(
    c: Canvas,
    inner: Rect,
    list: TrackList,
    st: AppState,
    pen: Pen,
) -> Canvas {
    let loading = list.loading || st.loading;
    let c = band_drawn(c, inner, list, st.view_cover, loading, controls_of(st), pen);
    let body = below_band(inner, list.header);
    if list.rows.display@.len() == 0 {
        nothing_listed(
            c,
            body,
            list.error,
            loading,
            "loading…"@,
            "this playlist is empty"@,
            st.retries,
            pen,
        )
    } else {
        track_table_drawn(
            c,
            body,
            list.rows,
            st.main_index,
            st.main_offset,
            marks_of(st).uri,
            st.liked,
            list.kind == TrackListKind::Album,
            pen,
        )
    }
}

/// A page of tracks. One that failed before its first row says why; one that
/// failed part-way keeps the rows it got.
pub fn draw_tracks(scene: &mut Scene, inner: Rect, list: &TrackList, st: &AppState, pen: Pen)
    requires
        list.rows.wf(),
    ensures
        final(scene)@ == tracks_page_drawn(old(scene)@, inner, *list, *st, pen),
{
    let loading: bool = list.loading || st.loading;
    let controls = header_controls(st);
    let body = header_band(scene, inner, list, &st.view_cover, loading, controls, pen);
    if list.rows.len() == 0 {
        list_nothing(
            scene,
            body,
            &list.error,
            loading,
            "loading…",
            "this playlist is empty",
            st.retries,
            pen,
        );
        return;
    }
    let marks = play_marks(st);
    render_track_table(
        scene,
        body,
        &list.rows,
        st.main_index,
        st.main_offset,
        &marks.uri,
        &st.liked,
        list.kind == TrackListKind::Album,
        pen,
    );
}

/// The canvas with an artist's page on it.
pub open spec fn artist_page_drawn(
    c: Canvas,
    inner: Rect,
    v: ArtistView,
    st: AppState,
    pen: Pen,
) -> Canvas {
    let c = portrait_drawn(c, inner, v, pen);
    let body = below_portrait(inner, v);
    if v.top.display@.len() == 0 && v.albums.display@.len() == 0 {
        nothing_listed(
            c,
            body,
            v.error,
            v.loading,
            "loading…"@,
            "nothing to show for this artist"@,
            st.retries,
            pen,
        )
    } else {
        artist_body_drawn(
            c,
            body,
            v,
            st.main_index,
            st.main_offset,
            marks_of(st).uri,
            st.liked,
            pen,
        )
    }
}

/// An artist's page.
pub fn draw_artist(scene: &mut Scene, inner: Rect, v: &ArtistView, st: &AppState, pen: Pen)
    requires
        v.top.wf(),
        v.albums.wf(),
    ensures
        final(scene)@ == artist_page_drawn(old(scene)@, inner, *v, *st, pen),
{
    let body = artist_band(scene, inner, v, pen);
    if v.top.len() == 0 && v.albums.len() == 0 {
        list_nothing(
            scene,
            body,
            &v.error,
            v.loading,
            "loading…",
            "nothing to show for this artist",
            st.retries,
            pen,
        );
        return;
    }
    let marks = play_marks(st);
    artist_body(
        scene,
        body,
        v,
        st.main_index,
        st.main_offset,
        &marks.uri,
        &st.liked,
        pen,
    );
}

/// Whether the open page, or the tab open on it, is still being fetched.
pub open spec fn fetching(st: AppState) -> bool {
    match st.main {
        MainView::Home => false,
        MainView::Playlists => st.loading && st.playlists.items@.len() == 0,
        MainView::Tracks(list) => st.loading || list.loading,
        MainView::Search(r) => awaited(r, st.search_tab, st.loading),
        MainView::Artist(v) => v.loading,
        MainView::Radio(v) => v.loading,
    }
}

/// Whether the open page, or the tab open on it, is still being fetched.
pub fn main_loading(st: &AppState) -> (r: bool)
    ensures
        r == fetching(*st),
{
    match &st.main {
        MainView::Home => false,
        MainView::Playlists => st.loading && st.playlists.items.len() == 0,
        MainView::Tracks(list) => st.loading || list.loading,
        MainView::Search(r) => if st.search_tab == SearchTab::Stations {
            r.stations_loading
        } else {
            st.loading
        },
        MainView::Artist(v) => v.loading,
        MainView::Radio(v) => v.loading,
    }
}

/// The canvas with the open page on it.
pub open spec fn pane_drawn(c: Canvas, area: Rect, st: AppState, pen: Pen) -> Canvas {
    let inner = body_area(area);
    match st.main {
        MainView::Home => home_drawn(
            c,
            inner,
            st.home@,
            st.main_index,
            st.main_offset,
            pen.mouse,
        ),
        MainView::Playlists => playlists_page_drawn(c, inner, st, pen),
        MainView::Tracks(list) => tracks_page_drawn(c, inner, list, st, pen),
        MainView::Search(r) => search_page_drawn(c, inner, r, st, pen),
        MainView::Artist(v) => artist_page_drawn(c, inner, v, st, pen),
        MainView::Radio(v) => radio_page_drawn(c, inner, v, st, pen),
    }
}

/// Draw the open page.
pub fn draw(scene: &mut Scene, area: Rect, st: &AppState, pen: Pen)
    requires
        view_wf(st.main),
    ensures
        final(scene)@ == pane_drawn(old(scene)@, area, *st, pen),
{
    let inner = body_area(area);
    match &st.main {
        MainView::Home => draw_home(
            scene,
            inner,
            &st.home,
            st.main_index,
            st.main_offset,
            pen.mouse,
        ),
        MainView::Playlists => draw_playlists(scene, inner, st, pen),
        MainView::Tracks(list) => draw_tracks(scene, inner, list, st, pen),
        MainView::Search(r) => draw_search(scene, inner, r, st, pen),
        MainView::Artist(v) => draw_artist(scene, inner, v, st, pen),
        MainView::Radio(v) => draw_radio(scene, inner, v, st, pen),
    }
}

/// A count reads as the number it is, of one thing or of many.
pub proof fn a_count_is_of_one_or_of_many(n: nat, one: Seq<char>, many: Seq<char>)
    ensures
        exists|number: Seq<char>|
            {
                &&& #[trigger] digits_alone(number)
                &&& number_in(number) == n
                &&& plural_text(n, one, many) == number + seq![' '] + (if n == 1 {
                    one
                } else {
                    many
                })
            },
{
    reveal_strlit("1 ");
    reveal_strlit(" ");
    a_number_reads_back(n);
    let number = decimal(n);
    assert(digits_alone(number));
    assert(" "@ =~= seq![' ']);
    if n == 1 {
        assert("1 "@ + one =~= number + seq![' '] + one);
    }
}

/// What a page counts: playlists, stations, or the countries or genres there
/// are; no other page counts anything, nor one with nothing on it.
pub proof fn a_page_counts_what_it_lists(st: AppState)
    ensures
        st.main is Home || st.main is Tracks || st.main is Search || st.main is Artist
            ==> count_of(st) is None,
        st.main is Playlists ==> (match count_of(st) {
            None => st.playlists.items@.len() == 0,
            Some(t) => st.playlists.items@.len() > 0 && t == plural_text(
                st.playlists.items@.len(),
                "playlist"@,
                "playlists"@,
            ),
        }),
        st.main matches MainView::Radio(v) ==> (match count_of(st) {
            None => v.rows.display@.len() == 0,
            Some(t) => v.rows.display@.len() > 0 && t == (if v.rows.items@[v.rows.display@[0] as int]
                is Facet {
                plural_text(v.rows.display@.len(), "entry"@, "entries"@)
            } else {
                plural_text(v.rows.display@.len(), "station"@, "stations"@)
            }),
        }),
{
}

/// What plays is marked only while a record is on the deck and there is a queue:
/// the track the queue has come to, and where the queue came from. A station is
/// marked while it is on.
pub proof fn what_plays_is_marked(st: AppState)
    ensures
        st.deck.playback is Some ==> (st.queue matches Some(q) ==> marks_of(st).uri == q.current
            && marks_of(st).context == q.source_key),
        st.deck.playback is None || st.queue is None ==> marks_of(st).uri is None && marks_of(
            st,
        ).context is None,
        st.deck.radio matches Some(r) ==> station_url(st) == Some(r.station.url) && live_of(st)
            == Some((r.station.uuid, r.title)),
        st.deck.radio is None ==> station_url(st) is None && live_of(st) is None,
{
}

/// A directory page lists the stations among its rows, every one, in order.
pub proof fn every_station_is_listed(rows: Seq<&RadioRow>, n: nat)
    requires
        n < rows.len(),
    ensures
        stations_upto(rows, 0).len() == 0,
        *rows[n as int] matches RadioRow::Station(s) ==> stations_upto(rows, n + 1).len()
            == stations_upto(rows, n).len() + 1 && *stations_upto(rows, n + 1).last() == s
            && stations_upto(rows, n + 1).drop_last() == stations_upto(rows, n),
        *rows[n as int] is Facet ==> stations_upto(rows, n + 1) == stations_upto(rows, n),
{
    let before = stations_upto(rows, n);
    if let RadioRow::Station(s) = rows[n as int] {
        assert(before.push(s).drop_last() =~= before);
    }
}

/// A page that is being fetched says so; the home page never is.
pub proof fn a_page_says_it_is_fetched(st: AppState)
    ensures
        st.main is Home ==> !fetching(st) && !head_loading(st),
        st.main matches MainView::Tracks(list) ==> (fetching(st) <==> st.loading || list.loading)
            && (head_loading(st) <==> st.loading || list.loading),
        st.main matches MainView::Artist(v) ==> (fetching(st) <==> v.loading) && (head_loading(st)
            <==> v.loading),
        st.main matches MainView::Radio(v) ==> (fetching(st) <==> v.loading) && !head_loading(st),
        st.main is Playlists ==> (fetching(st) <==> st.loading && st.playlists.items@.len() == 0),
        st.main is Search ==> (head_loading(st) <==> st.loading),
        page_note(st).loading == head_loading(st),
        page_note(st).count == count_of(st),
{
}

/// A saved list of stations says how to fill it; any other that is empty says
/// only that it is.
pub proof fn an_empty_directory_says_what_to_do(favorites: bool)
    ensures
        favorites ==> radio_empty_hint(favorites)@
            == "no saved stations yet — press L on one to keep it"@,
        !favorites ==> radio_empty_hint(favorites)@ == "nothing here"@,
{
}

/// The tabs of the directory, in order.
pub proof fn the_directory_has_four_tabs()
    ensures
        radio_tabs().len() == 4,
        radio_tabs()[0] == Tab::Radio(RadioTab::Popular),
        radio_tabs()[1] == Tab::Radio(RadioTab::Countries),
        radio_tabs()[2] == Tab::Radio(RadioTab::Genres),
        radio_tabs()[3] == Tab::Radio(RadioTab::Saved),
{
}

/// What a page lists is under its tabs, a blank row between the two, where there
/// is room for them; and the pane leaves two cells for its scrollbar.
pub proof fn a_page_is_under_its_tabs(area: Rect, inner: Rect)
    requires
        inner.y + inner.height <= u16::MAX,
        area.width >= 2,
    ensures
        inner.height >= 4 ==> below_tabs(inner).y == inner.y + 2,
        inner.height < 4 ==> below_tabs(inner) == inner,
        below_tabs(inner).y + below_tabs(inner).height == inner.y + inner.height,
        body_area(area).width + 2 == area.width && body_area(area).x == area.x,
        body_area(area).y == area.y && body_area(area).height == area.height,
{
}

} // verus!
