//! The answers to a search: a tab for each kind of answer.

use vstd::prelude::*;
use vstd::string::*;

use crate::band::{name_area, note_area, note_w, note_width};
use crate::geometry::Rect;
use crate::main_pane::{below_tabs, marks_of, play_marks, playing_station, station_url};
use crate::message::{list_nothing, nothing_listed};
use crate::rows::one;
use crate::scene::{put_text, Canvas, Line, OpView, Scene};
use crate::state::{AppState, LoadError, Pen, SearchResults, SearchTab};
use crate::table::{lemma_prints_alone, printed};
use crate::tables::{
    album_table_drawn, all_rows, artist_table_drawn, playlist_table_drawn, render_album_table,
    render_artist_table, render_playlist_table, render_station_table, render_track_table,
    rows_present, station_table_drawn, track_table_drawn,
};
use crate::tabs::{draw_tabs, tabbed, tabs_are_printed_in_order, tabs_drawn, titles, Tab};
use crate::text::{
    a_number_reads_back, dec, decimal, digits_alone, joined, lower_case, number_in, to_lower,
};
use crate::theme;

verus! {

/// How many answers a tab has.
pub open spec fn answers(r: SearchResults, tab: SearchTab) -> nat {
    match tab {
        SearchTab::Tracks => r.tracks.display@.len(),
        SearchTab::Albums => r.albums.display@.len(),
        SearchTab::Artists => r.artists.display@.len(),
        SearchTab::Playlists => r.playlists.display@.len(),
        SearchTab::Stations => r.stations.display@.len(),
    }
}

fn tab_len(r: &SearchResults, tab: SearchTab) -> (n: usize)
    ensures
        n == answers(*r, tab),
{
    match tab {
        SearchTab::Tracks => r.tracks.len(),
        SearchTab::Albums => r.albums.len(),
        SearchTab::Artists => r.artists.len(),
        SearchTab::Playlists => r.playlists.len(),
        SearchTab::Stations => r.stations.len(),
    }
}

/// Whether a tab still waits for its own half of the answer: the stations come
/// from one host, and everything else from another.
pub open spec fn awaited(r: SearchResults, tab: SearchTab, loading: bool) -> bool {
    if tab == SearchTab::Stations {
        r.stations_loading
    } else {
        loading
    }
}

/// Why a tab has no answers: each half speaks for its own tabs.
pub open spec fn refused(r: SearchResults, tab: SearchTab) -> Option<LoadError> {
    if tab == SearchTab::Stations {
        r.stations_error
    } else {
        r.error
    }
}

/// What the page says of how much a tab holds.
pub open spec fn results_text(r: SearchResults, tab: SearchTab, loading: bool) -> Seq<char> {
    if awaited(r, tab, loading) && answers(r, tab) == 0 {
        "searching…"@
    } else {
        decimal(answers(r, tab)) + " results"@
    }
}

/// The tabs of a search.
pub open spec fn search_tabs_of(tabs: Seq<SearchTab>) -> Seq<Tab> {
    Seq::new(tabs.len(), |i: int| Tab::Search(tabs[i]))
}

fn tabs_from(tabs: &Vec<SearchTab>) -> (r: Vec<Tab>)
    ensures
        r@ == search_tabs_of(tabs@),
{
    let mut r: Vec<Tab> = Vec::new();
    let mut i: usize = 0;
    while i < tabs.len()
        invariant
            i <= tabs@.len(),
            r@.len() == i,
            forall|j: int| 0 <= j < i ==> #[trigger] r@[j] == Tab::Search(tabs@[j]),
        decreases tabs@.len() - i,
    {
        r.push(Tab::Search(tabs[i]));
        i = i + 1;
    }
    assert(r@ =~= search_tabs_of(tabs@));
    r
}

/// What is left below the query and the tabs. On a short pane the tabs keep a
/// row and the query goes.
#[verifier::allow_in_spec]
pub fn below_query(inner: Rect) -> Rect
    returns
        (if inner.height >= 8 {
            inner.band(3, (inner.height - 3) as u16)
        } else {
            below_tabs(inner)
        }),
{
    if inner.height >= 8 {
        inner.band(3, inner.height - 3)
    } else {
        below_tabs(inner)
    }
}

/// The canvas with the query, its count and the tabs on it.
pub open spec fn asked_drawn(
    c: Canvas,
    inner: Rect,
    r: SearchResults,
    st: AppState,
    pen: Pen,
) -> Canvas {
    let tabs = search_tabs_of(st.search_tabs@);
    let active = Tab::Search(st.search_tab);
    if inner.height >= 8 {
        let note = results_text(r, st.search_tab, st.loading);
        let w = note_w(note, inner, false);
        let c = put_text(c, name_area(inner, w), one(r.query@, theme::bright().bold()));
        let c = put_text(c, note_area(inner, w), one(note, theme::dim()));
        tabs_drawn(c, inner.band(1, 1), tabs, active, pen)
    } else if inner.height >= 4 {
        tabs_drawn(c, inner.tall(1), tabs, active, pen)
    } else {
        c
    }
}

fn draw_query(scene: &mut Scene, inner: Rect, r: &SearchResults, st: &AppState, pen: Pen)
    ensures
        final(scene)@ == asked_drawn(old(scene)@, inner, *r, *st, pen),
{
    let active = Tab::Search(st.search_tab);
    if inner.height >= 8 {
        let n: usize = tab_len(r, st.search_tab);
        let pending: bool = if st.search_tab == SearchTab::Stations {
            r.stations_loading
        } else {
            st.loading
        };
        let note = if pending && n == 0 {
            "searching…".to_owned()
        } else {
            let count = dec(n as u64);
            joined(count.as_str(), " results")
        };
        let w: u16 = note_width(&note, inner, false);
        scene.text(name_area(inner, w), Line::of(r.query.clone(), theme::bright().bold()));
        scene.text(note_area(inner, w), Line::of(note, theme::dim()));
        let tabs = tabs_from(&st.search_tabs);
        draw_tabs(scene, inner.band(1, 1), &tabs, active, pen);
    } else if inner.height >= 4 {
        let tabs = tabs_from(&st.search_tabs);
        draw_tabs(scene, inner.tall(1), &tabs, active, pen);
    }
}

/// What a tab with no answers says.
pub open spec fn no_answers(query: Seq<char>, tab: SearchTab) -> Seq<char> {
    if tab == SearchTab::Stations {
        "no stations for \""@ + query + "\""@
    } else {
        "no "@ + lower_case(tab.title()@) + " results for \""@ + query + "\""@
    }
}

fn no_answers_text(query: &String, tab: SearchTab) -> (r: String)
    ensures
        r@ == no_answers(query@, tab),
{
    if tab == SearchTab::Stations {
        let head = joined("no stations for \"", query.as_str());
        joined(head.as_str(), "\"")
    } else {
        let kind = to_lower(tab.title());
        let head = joined("no ", kind.as_str());
        let head = joined(head.as_str(), " results for \"");
        let head = joined(head.as_str(), query.as_str());
        joined(head.as_str(), "\"")
    }
}

/// The canvas with the answers of the open tab on it.
pub open spec fn answers_drawn(
    c: Canvas,
    body: Rect,
    r: SearchResults,
    st: AppState,
    pen: Pen,
) -> Canvas {
    let index = st.main_index;
    let offset = st.main_offset;
    match st.search_tab {
        SearchTab::Stations => station_table_drawn(
            c,
            body,
            all_rows(&r.stations),
            st.favorites@,
            station_url(st),
            None,
            r.stations.sort,
            index,
            offset,
            pen,
        ),
        SearchTab::Tracks => track_table_drawn(
            c,
            body,
            r.tracks,
            index,
            offset,
            marks_of(st).uri,
            st.liked,
            false,
            pen,
        ),
        SearchTab::Albums => album_table_drawn(
            c,
            body,
            r.albums,
            marks_of(st).context,
            index,
            offset,
            pen,
        ),
        SearchTab::Artists => artist_table_drawn(
            c,
            body,
            all_rows(&r.artists),
            r.artists.sort,
            index,
            offset,
            pen,
        ),
        SearchTab::Playlists => playlist_table_drawn(
            c,
            body,
            all_rows(&r.playlists),
            r.playlists.sort,
            None,
            marks_of(st).context,
            index,
            offset,
            pen,
        ),
    }
}

fn draw_answers(scene: &mut Scene, body: Rect, r: &SearchResults, st: &AppState, pen: Pen)
    requires
        r.tracks.wf(),
        r.albums.wf(),
    ensures
        final(scene)@ == answers_drawn(old(scene)@, body, *r, *st, pen),
{
    let index: usize = st.main_index;
    let offset: usize = st.main_offset;
    let marks = play_marks(st);
    match st.search_tab {
        SearchTab::Stations => {
            let rows = rows_present(&r.stations);
            let url = playing_station(st);
            render_station_table(
                scene,
                body,
                &rows,
                &st.favorites,
                &url,
                None,
                r.stations.sort,
                index,
                offset,
                pen,
            );
        },
        SearchTab::Tracks => {
            render_track_table(
                scene,
                body,
                &r.tracks,
                index,
                offset,
                &marks.uri,
                &st.liked,
                false,
                pen,
            );
        },
        SearchTab::Albums => {
            render_album_table(scene, body, &r.albums, &marks.context, index, offset, pen);
        },
        SearchTab::Artists => {
            let rows = rows_present(&r.artists);
            render_artist_table(scene, body, &rows, r.artists.sort, index, offset, pen);
        },
        SearchTab::Playlists => {
            let rows = rows_present(&r.playlists);
            render_playlist_table(
                scene,
                body,
                &rows,
                r.playlists.sort,
                &None,
                &marks.context,
                index,
                offset,
                pen,
            );
        },
    }
}

/// The canvas with the answers to a search on it.
pub open spec fn search_page_drawn(
    c: Canvas,
    inner: Rect,
    r: SearchResults,
    st: AppState,
    pen: Pen,
) -> Canvas {
    let c = asked_drawn(c, inner, r, st, pen);
    let body = below_query(inner);
    if answers(r, st.search_tab) == 0 {
        nothing_listed(
            c,
            body,
            refused(r, st.search_tab),
            awaited(r, st.search_tab, st.loading),
            "searching…"@,
            no_answers(r.query@, st.search_tab),
            st.retries,
            pen,
        )
    } else {
        answers_drawn(c, body, r, st, pen)
    }
}

/// What the host of the stations answers, or fails to, changes nothing on the
/// tabs of the other one: neither half speaks for the other.
pub proof fn each_half_speaks_for_itself(
    c: Canvas,
    inner: Rect,
    a: SearchResults,
    b: SearchResults,
    st: AppState,
    pen: Pen,
)
    requires
        st.search_tab != SearchTab::Stations,
        b == (SearchResults {
            stations: b.stations,
            stations_loading: b.stations_loading,
            stations_error: b.stations_error,
            ..a
        }),
    ensures
        search_page_drawn(c, inner, a, st, pen) == search_page_drawn(c, inner, b, st, pen),
{
}

/// Nor the other way round: what the other host answers, fails to, or is still
/// asked for changes nothing on the tab of the stations.
pub proof fn the_stations_speak_for_themselves(
    c: Canvas,
    inner: Rect,
    a: SearchResults,
    b: SearchResults,
    st: AppState,
    loading: bool,
    pen: Pen,
)
    requires
        st.search_tab == SearchTab::Stations,
        b == (SearchResults {
            tracks: b.tracks,
            albums: b.albums,
            artists: b.artists,
            playlists: b.playlists,
            error: b.error,
            ..a
        }),
    ensures
        search_page_drawn(c, inner, a, st, pen) == search_page_drawn(
            c,
            inner,
            b,
            AppState { loading, ..st },
            pen,
        ),
{
}

/// The answers to a search.
pub fn draw_search(scene: &mut Scene, inner: Rect, r: &SearchResults, st: &AppState, pen: Pen)
    requires
        r.tracks.wf(),
        r.albums.wf(),
    ensures
        final(scene)@ == search_page_drawn(old(scene)@, inner, *r, *st, pen),
{
    draw_query(scene, inner, r, st, pen);
    let body = below_query(inner);
    if tab_len(r, st.search_tab) == 0 {
        let stations: bool = st.search_tab == SearchTab::Stations;
        let empty = no_answers_text(&r.query, st.search_tab);
        list_nothing(
            scene,
            body,
            if stations { &r.stations_error } else { &r.error },
            if stations { r.stations_loading } else { st.loading },
            "searching…",
            empty.as_str(),
            st.retries,
            pen,
        );
        return;
    }
    draw_answers(scene, body, r, st, pen);
}

/// What a search says of the open tab: how many answers it has, or that it still
/// waits for the first, or that there are none.
pub proof fn a_search_counts_its_answers(r: SearchResults, tab: SearchTab, loading: bool)
    ensures
        ({
            let n = match tab {
                SearchTab::Tracks => r.tracks.display@.len(),
                SearchTab::Albums => r.albums.display@.len(),
                SearchTab::Artists => r.artists.display@.len(),
                SearchTab::Playlists => r.playlists.display@.len(),
                SearchTab::Stations => r.stations.display@.len(),
            };
            let waits = if tab == SearchTab::Stations {
                r.stations_loading
            } else {
                loading
            };
            &&& answers(r, tab) == n
            &&& n == 0 && waits ==> results_text(r, tab, loading) == "searching…"@
            &&& n > 0 || !waits ==> exists|number: Seq<char>|
                {
                    &&& #[trigger] digits_alone(number)
                    &&& number_in(number) == n
                    &&& results_text(r, tab, loading) == number + " results"@
                }
            &&& tab == SearchTab::Stations ==> refused(r, tab) == r.stations_error
            &&& tab != SearchTab::Stations ==> refused(r, tab) == r.error
        }),
{
    a_number_reads_back(answers(r, tab));
    assert(digits_alone(decimal(answers(r, tab))));
}

/// A tab without answers names what was asked.
pub proof fn a_tab_without_answers_names_the_query(query: Seq<char>, tab: SearchTab)
    ensures
        tab == SearchTab::Stations ==> no_answers(query, tab) == "no stations for \""@ + query + "\""@,
        tab != SearchTab::Stations ==> no_answers(query, tab) == "no "@ + lower_case(tab.title()@)
            + " results for \""@ + query + "\""@,
{
}

/// The head of a search says what was asked and how it stands.
pub proof fn a_search_says_what_was_asked(
    c: Canvas,
    inner: Rect,
    r: SearchResults,
    st: AppState,
    pen: Pen,
)
    requires
        inner.height >= 8,
    ensures
        ({
            let d = asked_drawn(c, inner, r, st, pen);
            &&& d.len() > c.len() + 2
            &&& d[c.len() as int] matches OpView::Text { area, place, line } && printed(line) == r.query@
                && area.x == inner.x && area.y == inner.y
            &&& d[(c.len() + 1) as int] matches OpView::Text { area, place, line } && printed(line)
                == results_text(r, st.search_tab, st.loading) && area.y == inner.y
            &&& d.last() matches OpView::Text { area, place, line } && area.y == inner.y.saturating_add(
                1,
            ) && printed(line) == titles(search_tabs_of(st.search_tabs@), st.search_tabs@.len())
        }),
{
    let note = results_text(r, st.search_tab, st.loading);
    lemma_prints_alone(one(r.query@, theme::bright().bold()));
    lemma_prints_alone(one(note, theme::dim()));
    let w = note_w(note, inner, false);
    let c1 = put_text(c, name_area(inner, w), one(r.query@, theme::bright().bold()));
    let c2 = put_text(c1, note_area(inner, w), one(note, theme::dim()));
    let tabs = search_tabs_of(st.search_tabs@);
    let active = Tab::Search(st.search_tab);
    tabs_are_printed_in_order(c2, inner.band(1, 1), tabs, tabs.len(), active, pen);
    let s = tabbed(c2, inner.band(1, 1), tabs, tabs.len(), active, pen);
    assert(s.canvas[c.len() as int] == s.canvas.take(c2.len() as int)[c.len() as int]);
    assert(s.canvas[(c.len() + 1) as int] == s.canvas.take(c2.len() as int)[(c.len() + 1) as int]);
}

/// The answers are under the query and the tabs, down to the foot of the pane.
pub proof fn answers_are_under_the_query(inner: Rect)
    requires
        inner.y + inner.height <= u16::MAX,
    ensures
        inner.height >= 8 ==> below_query(inner).y == inner.y + 3,
        4 <= inner.height < 8 ==> below_query(inner).y == inner.y + 2,
        below_query(inner).y + below_query(inner).height == inner.y + inner.height,
        below_query(inner).x == inner.x && below_query(inner).width == inner.width,
{
}

} // verus!
