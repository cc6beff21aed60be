//! A whole frame.

use vstd::prelude::*;
use vstd::string::*;

use crate::art_zoom;
use crate::art_zoom::zoom_drawn;
use crate::band::controls_of;
use crate::bio;
use crate::bio::{bio_drawn, close_swapped, kept_bio};
use crate::geometry::Rect;
use crate::help;
use crate::help::help_drawn;
use crate::main_pane;
use crate::main_pane::{
    artist_page_drawn, below_tabs, board_of, body_area, fetching, main_loading, marks_of,
    page_header, page_note, pane_drawn, playlists_page_drawn, radio_listed, radio_page_drawn,
    radio_tabs, station_url, tracks_page_drawn, view_wf,
};
use crate::now_playing;
use crate::now_playing::{
    bar_drawn, bar_ruled, draw_toast, has_subject, record_bar_drawn, station_bar_drawn,
    toast_drawn,
};
use crate::play_state;
use crate::play_state::PlayState;
use crate::player;
use crate::player::player_drawn;
use crate::playlist_edit;
use crate::playlist_edit::edit_drawn;
use crate::playlist_picker;
use crate::playlist_picker::{awaits, picker_drawn, unanswered};
use crate::scene::{listed_at, Canvas, ListId, OpView, RowView, Scene};
use crate::search_page::{answers_drawn, asked_drawn, awaited, below_query, search_page_drawn};
use crate::state::{
    AppState, ArtistView, BioPopup, MainView, Pen, Playback, RadioPlayback, RadioView,
    SearchResults, Toast, TrackList,
};
use crate::table::{cut, ends_of, inset, side_of, split_area, Part};
use crate::tabs::{tabs_drawn, Tab};
use crate::top_row;
use crate::top_row::{top_drawn, HEAD_H};

verus! {

/// How long a message is up, in milliseconds.
pub const TOAST_TTL: u64 = 4_000;

/// Rows the bottom bar takes when it has a subject: a rule, the deck beside the
/// sleeve, then a blank.
pub const BAR_H: u16 = 9;

/// The message that is still up.
pub open spec fn standing(toast: Option<Toast>) -> Option<Toast> {
    match toast {
        Some(t) if t.age_ms > TOAST_TTL => None,
        _ => toast,
    }
}

/// The state with a message that has been up long enough taken down, and an
/// article whose page was swapped underneath it closed.
pub open spec fn settled(st: AppState) -> AppState {
    AppState { toast: standing(st.toast), bio: kept_bio(st), ..st }
}

/// Rows the bottom bar takes: none, with nothing playing.
#[verifier::allow_in_spec]
pub fn bar_h(st: &AppState) -> u16
    returns
        (if has_subject(st) {
            BAR_H
        } else {
            0
        }),
{
    if has_subject(st) {
        BAR_H
    } else {
        0
    }
}

/// What a browse screen is laid out in: a cell is left on either side, as in the
/// player, so that going between the two shifts nothing sideways.
pub open spec fn browse_body(screen: Rect) -> Rect {
    inset(screen, 1)
}

/// The three parts of a browse screen: the header over the page, and the bar
/// under it.
///
/// A screen too short for them keeps a row for the page and one for the header
/// while there are that many, gives the rest to the bar until that is whole, and
/// what is left then to the header.
pub open spec fn browse_parts(screen: Rect, bar: u16) -> (Rect, Rect, Rect) {
    let body = browse_body(screen);
    let rows = cut(true, body, ends_of(side_of(true, body), HEAD_H as int, 1, bar as int));
    (rows[0], rows[1], rows[2])
}

fn browse_areas(screen: Rect, bar: u16) -> (r: (Rect, Rect, Rect))
    ensures
        r == browse_parts(screen, bar),
{
    let mut parts: Vec<Part> = Vec::new();
    parts.push(Part::Length(HEAD_H));
    parts.push(Part::Min(1));
    parts.push(Part::Length(bar));
    let rects = split_area(true, 1, screen, &parts);
    (rects[0], rects[1], rects[2])
}

/// On a screen with the rows for it the header keeps the top four, a bar the
/// last nine, and the page every row between them.
pub proof fn the_header_and_the_bar_keep_their_rows(screen: Rect, st: AppState)
    requires
        screen.x + screen.width <= u16::MAX,
        screen.y + screen.height <= u16::MAX,
        screen.width >= 2,
        screen.height >= 14,
    ensures
        ({
            let (head, pane, bar) = browse_parts(screen, bar_h(&st));
            &&& head == screen.strip(1, (screen.width - 2) as u16).tall(4)
            &&& pane.y == screen.y + 4
            &&& pane.y + pane.height == bar.y
            &&& bar.y + bar.height == screen.y + screen.height
            &&& bar.height == if has_subject(&st) {
                9u16
            } else {
                0
            }
            &&& pane.x == head.x == bar.x
            &&& pane.width == head.width == bar.width
        }),
{
}

/// On every screen the header, the page and the bar lie one under the other and
/// fill it, and the page has a row of it wherever there is one.
pub proof fn a_short_screen_keeps_a_row_of_the_page(screen: Rect, st: AppState)
    requires
        screen.y + screen.height <= u16::MAX,
        screen.width >= 2,
        screen.height >= 1,
    ensures
        ({
            let (head, pane, bar) = browse_parts(screen, bar_h(&st));
            &&& head.y == screen.y
            &&& head.y + head.height == pane.y
            &&& pane.y + pane.height == bar.y
            &&& bar.y + bar.height == screen.y + screen.height
            &&& pane.height >= 1
            &&& head.height <= 4
            &&& bar.height <= bar_h(&st)
        }),
{
}

/// The canvas of a browse screen laid out in three parts.
pub open spec fn browse_drawn(
    c: Canvas,
    head: Rect,
    pane: Rect,
    bar: Rect,
    st: AppState,
    pen: Pen,
) -> Canvas {
    bar_drawn(
        pane_drawn(top_drawn(c, head, st, page_note(st), pen), pane, st, pen),
        bar,
        st,
        pen,
    )
}

/// Draw a browse screen laid out in three parts: the header, the open page, and
/// the bar.
pub fn draw_browse(scene: &mut Scene, head: Rect, pane: Rect, bar: Rect, st: &AppState, pen: Pen)
    requires
        view_wf(st.main),
    ensures
        final(scene)@ == browse_drawn(old(scene)@, head, pane, bar, *st, pen),
{
    let page = page_header(st);
    top_row::draw(scene, head, st, &page, pen);
    main_pane::draw(scene, pane, st, pen);
    now_playing::draw(scene, bar, st, pen);
}

/// The last row of the screen.
#[verifier::allow_in_spec]
pub fn last_row(screen: Rect) -> Rect
    returns
        (Rect {
            x: screen.x,
            y: screen.bottom().saturating_sub(1),
            width: screen.width,
            height: 1,
        }),
{
    Rect { x: screen.x, y: screen.bottom().saturating_sub(1), width: screen.width, height: 1 }
}

/// Whether the bar takes the message: it is the one surface that carries one,
/// and it is not there in the player or with nothing playing.
pub open spec fn bar_takes_toast(st: AppState) -> bool {
    !st.show_player && has_subject(&st)
}

/// The canvas with a message on it that the bar could not take.
pub open spec fn loose_toast(c: Canvas, screen: Rect, st: AppState) -> Canvas {
    match st.toast {
        Some(t) => if bar_takes_toast(st) {
            c
        } else {
            toast_drawn(c, last_row(screen), t.text@)
        },
        None => c,
    }
}

/// The canvas with whatever lies over the screen: the expanded sleeve lowest,
/// then the boxes, and help over all of them.
pub open spec fn covered(c: Canvas, screen: Rect, st: AppState, pen: Pen) -> Canvas {
    let c = match st.art_zoom {
        Some(zoom) => zoom_drawn(c, screen, zoom, st.toast),
        None => c,
    };
    let c = match st.picker {
        Some(p) => picker_drawn(c, screen, p, pen),
        None => c,
    };
    let c = match st.edit {
        Some(e) => edit_drawn(c, screen, e, pen),
        None => c,
    };
    let c = match st.bio {
        Some(b) => bio_drawn(c, screen, st, b, pen),
        None => c,
    };
    if st.show_help {
        help_drawn(c, screen, st.version@, st.update, pen)
    } else {
        c
    }
}

/// A whole frame, once the messages have been settled.
pub open spec fn frame_drawn(c: Canvas, screen: Rect, st: AppState, pen: Pen) -> Canvas {
    let c = if st.show_player {
        player_drawn(c, screen, st, pen)
    } else {
        let (head, pane, bar) = browse_parts(screen, bar_h(&st));
        browse_drawn(c, head, pane, bar, st, pen)
    };
    covered(loose_toast(c, screen, st), screen, st, pen)
}

/// Draw whatever lies over the screen.
fn cover(scene: &mut Scene, screen: Rect, st: &AppState, pen: Pen)
    ensures
        final(scene)@ == covered(old(scene)@, screen, *st, pen),
{
    if let Some(zoom) = &st.art_zoom {
        art_zoom::draw(scene, screen, zoom, &st.toast);
    }
    if let Some(p) = &st.picker {
        playlist_picker::draw(scene, screen, p, pen);
    }
    if let Some(e) = &st.edit {
        playlist_edit::draw(scene, screen, e, pen);
    }
    if let Some(b) = &st.bio {
        bio::draw(scene, screen, st, b, pen);
    }
    if st.show_help {
        help::draw(scene, screen, st.version.as_str(), &st.update, pen);
    }
}

/// Take down a message that has been up long enough.
pub fn expire_toast(st: &mut AppState)
    ensures
        *final(st) == (AppState { toast: standing(old(st).toast), ..*old(st) }),
{
    let stale: bool = match &st.toast {
        Some(t) => t.age_ms > TOAST_TTL,
        None => false,
    };
    if stale {
        st.toast = None;
    }
}

/// Whether a state can be drawn: every row of the open page and of the queue
/// shows an item there is.
pub open spec fn drawable(st: AppState) -> bool {
    view_wf(st.main) && (st.queue matches Some(q) ==> q.rows.wf())
}

pub fn is_drawable(st: &AppState) -> (r: bool)
    ensures
        r == drawable(*st),
{
    main_pane::is_whole(&st.main) && match &st.queue {
        Some(q) => q.rows.is_whole(),
        None => true,
    }
}

/// The offset a list scrolls to after a frame: what it was drawn at, where it
/// was drawn.
pub open spec fn scroll(c: Canvas, id: ListId, offset: usize) -> usize {
    match listed_at(c, id) {
        Some(at) => at,
        None => offset,
    }
}

/// The state with every offset held to the content a frame showed.
pub open spec fn scrolled(st: AppState, c: Canvas) -> AppState {
    AppState {
        main_offset: scroll(c, ListId::Main, st.main_offset),
        queue_offset: scroll(c, ListId::Queue, st.queue_offset),
        bio: match st.bio {
            Some(b) => Some(BioPopup { offset: scroll(c, ListId::Bio, b.offset), ..b }),
            None => None,
        },
        ..st
    }
}

fn keep_offsets(scene: &Scene, st: &mut AppState)
    ensures
        *final(st) == scrolled(*old(st), scene@),
{
    if let Some(at) = scene.offset_of(ListId::Main) {
        st.main_offset = at;
    }
    if let Some(at) = scene.offset_of(ListId::Queue) {
        st.queue_offset = at;
    }
    let at = scene.offset_of(ListId::Bio);
    if let Some(b) = &mut st.bio {
        if let Some(at) = at {
            b.offset = at;
        }
    }
}

/// Draw a whole frame. The state changes in three things: a message that has
/// been up long enough is taken down, an article whose page was swapped
/// underneath it is closed, and scroll offsets are held to the content.
pub fn draw(scene: &mut Scene, screen: Rect, st: &mut AppState, pen: Pen)
    requires
        drawable(*old(st)),
    ensures
        final(scene)@ == frame_drawn(old(scene)@, screen, settled(*old(st)), pen),
        *final(st) == scrolled(settled(*old(st)), final(scene)@),
{
    expire_toast(st);
    close_swapped(st);
    if st.show_player {
        player::draw(scene, screen, st, pen);
    } else {
        let (head, pane, foot) = browse_areas(screen, bar_h(st));
        draw_browse(scene, head, pane, foot, st, pen);
    }
    if let Some(t) = &st.toast {
        if st.show_player || !has_subject(st) {
            draw_toast(scene, last_row(screen), t.text.as_str());
        }
    }
    cover(scene, screen, st, pen);
    keep_offsets(scene, st);
}

/// Whether anything on screen is mid-animation and needs the next frame.
pub open spec fn animating(st: AppState) -> bool {
    ||| (st.deck.radio is Some || st.deck.playback is Some) && play_state::play_state(st.deck)
        == PlayState::Loading
    ||| fetching(st)
    ||| (st.picker matches Some(p) && awaits(p))
}

/// Whether anything on screen is mid-animation: what is on the deck is coming
/// up, the open page is being fetched, or a mark in the box is still out.
pub fn is_animating(st: &AppState) -> (r: bool)
    ensures
        r == animating(*st),
{
    if let Some(s) = play_state::status(&st.deck) {
        if s.state == PlayState::Loading {
            return true;
        }
    }
    if main_loading(st) {
        return true;
    }
    match &st.picker {
        Some(p) => unanswered(p),
        None => false,
    }
}

/// Whatever on screen turns is kept turning: a page that waits, a status that
/// waits, and a box with a mark still out.
pub proof fn what_turns_is_kept_turning(st: AppState)
    ensures
        (st.deck.radio is Some || st.deck.playback is Some) && play_state::play_state(st.deck)
            == PlayState::Loading ==> animating(st),
        st.main matches MainView::Playlists ==> (st.playlists.items@.len() == 0 && st.loading
            ==> animating(st)),
        st.main matches MainView::Tracks(list) ==> (list.loading || st.loading ==> animating(st)),
        st.main matches MainView::Search(r) ==> (awaited(r, st.search_tab, st.loading)
            ==> animating(st)),
        st.main matches MainView::Artist(v) ==> (v.loading ==> animating(st)),
        st.main matches MainView::Radio(v) ==> (v.loading ==> animating(st)),
        st.picker matches Some(p) ==> (awaits(p) ==> animating(st)),
{
}

/// Whether two states differ in nothing but what is being typed.
pub open spec fn but_for_typing(a: AppState, b: AppState) -> bool {
    b == (AppState { input_mode: b.input_mode, input_buffer: b.input_buffer, ..a })
}

proof fn lemma_lists_ignore_typing(c: Canvas, inner: Rect, a: AppState, b: AppState, pen: Pen)
    requires
        but_for_typing(a, b),
    ensures
        marks_of(a) == marks_of(b),
        controls_of(a) == controls_of(b),
        station_url(a) == station_url(b),
        board_of(a) == board_of(b),
        playlists_page_drawn(c, inner, a, pen) == playlists_page_drawn(c, inner, b, pen),
{
}

proof fn lemma_tracks_ignore_typing(
    c: Canvas,
    inner: Rect,
    list: TrackList,
    a: AppState,
    b: AppState,
    pen: Pen,
)
    requires
        but_for_typing(a, b),
    ensures
        tracks_page_drawn(c, inner, list, a, pen) == tracks_page_drawn(c, inner, list, b, pen),
{
    lemma_lists_ignore_typing(c, inner, a, b, pen);
}

proof fn lemma_search_ignores_typing(
    c: Canvas,
    inner: Rect,
    r: SearchResults,
    a: AppState,
    b: AppState,
    pen: Pen,
)
    requires
        but_for_typing(a, b),
    ensures
        search_page_drawn(c, inner, r, a, pen) == search_page_drawn(c, inner, r, b, pen),
{
    lemma_lists_ignore_typing(c, inner, a, b, pen);
    assert(asked_drawn(c, inner, r, a, pen) == asked_drawn(c, inner, r, b, pen));
    let d = asked_drawn(c, inner, r, a, pen);
    let body = below_query(inner);
    assert(answers_drawn(d, body, r, a, pen) == answers_drawn(d, body, r, b, pen));
}

proof fn lemma_artist_ignores_typing(
    c: Canvas,
    inner: Rect,
    v: ArtistView,
    a: AppState,
    b: AppState,
    pen: Pen,
)
    requires
        but_for_typing(a, b),
    ensures
        artist_page_drawn(c, inner, v, a, pen) == artist_page_drawn(c, inner, v, b, pen),
{
    lemma_lists_ignore_typing(c, inner, a, b, pen);
}

proof fn lemma_radio_ignores_typing(
    c: Canvas,
    inner: Rect,
    v: RadioView,
    a: AppState,
    b: AppState,
    pen: Pen,
)
    requires
        but_for_typing(a, b),
    ensures
        radio_page_drawn(c, inner, v, a, pen) == radio_page_drawn(c, inner, v, b, pen),
{
    lemma_lists_ignore_typing(c, inner, a, b, pen);
    let d = tabs_drawn(c, inner.tall(1), radio_tabs(), Tab::Radio(v.tab), pen);
    let body = below_tabs(inner);
    assert(radio_listed(d, body, v, board_of(a), a, pen) == radio_listed(
        d,
        body,
        v,
        board_of(b),
        b,
        pen,
    ));
    assert(radio_listed(c, body, v, board_of(a), a, pen) == radio_listed(
        c,
        body,
        v,
        board_of(b),
        b,
        pen,
    ));
}

proof fn lemma_pane_ignores_typing(c: Canvas, pane: Rect, a: AppState, b: AppState, pen: Pen)
    requires
        but_for_typing(a, b),
    ensures
        pane_drawn(c, pane, a, pen) == pane_drawn(c, pane, b, pen),
{
    let inner = body_area(pane);
    match a.main {
        MainView::Home => {},
        MainView::Playlists => {
            lemma_lists_ignore_typing(c, inner, a, b, pen);
        },
        MainView::Tracks(list) => {
            lemma_tracks_ignore_typing(c, inner, list, a, b, pen);
        },
        MainView::Search(r) => {
            lemma_search_ignores_typing(c, inner, r, a, b, pen);
        },
        MainView::Artist(v) => {
            lemma_artist_ignores_typing(c, inner, v, a, b, pen);
        },
        MainView::Radio(v) => {
            lemma_radio_ignores_typing(c, inner, v, a, b, pen);
        },
    }
}

proof fn lemma_station_ignores_typing(
    c: Canvas,
    area: Rect,
    body: Rect,
    radio: RadioPlayback,
    a: AppState,
    b: AppState,
    pen: Pen,
)
    requires
        but_for_typing(a, b),
    ensures
        station_bar_drawn(c, area, body, radio, a, pen) == station_bar_drawn(
            c,
            area,
            body,
            radio,
            b,
            pen,
        ),
{
}

proof fn lemma_record_ignores_typing(
    c: Canvas,
    area: Rect,
    body: Rect,
    pb: Playback,
    a: AppState,
    b: AppState,
    pen: Pen,
)
    requires
        but_for_typing(a, b),
    ensures
        record_bar_drawn(c, area, body, pb, a, pen) == record_bar_drawn(c, area, body, pb, b, pen),
{
}

proof fn lemma_bar_ignores_typing(c: Canvas, bar: Rect, a: AppState, b: AppState, pen: Pen)
    requires
        but_for_typing(a, b),
    ensures
        bar_drawn(c, bar, a, pen) == bar_drawn(c, bar, b, pen),
{
    let d = bar_ruled(c, bar, a.wear);
    let body = bar.band(1, (bar.height - 1) as u16);
    match (a.deck.radio, a.deck.playback) {
        (Some(radio), _) => lemma_station_ignores_typing(d, bar, body, radio, a, b, pen),
        (None, Some(pb)) => lemma_record_ignores_typing(d, bar, body, pb, a, b, pen),
        (None, None) => {},
    }
}

/// Typing a query moves nothing below the prompt: the page and the bar are the
/// same to the cell.
pub proof fn a_query_moves_nothing_below(
    c: Canvas,
    pane: Rect,
    bar: Rect,
    a: AppState,
    b: AppState,
    pen: Pen,
)
    requires
        but_for_typing(a, b),
    ensures
        bar_h(&a) == bar_h(&b),
        page_note(a) == page_note(b),
        pane_drawn(c, pane, a, pen) == pane_drawn(c, pane, b, pen),
        bar_drawn(c, bar, a, pen) == bar_drawn(c, bar, b, pen),
{
    lemma_pane_ignores_typing(c, pane, a, b, pen);
    lemma_bar_ignores_typing(c, bar, a, b, pen);
}

/// Drawing a frame twice settles nothing further: what is down stays down, and
/// nothing else of the state is touched.
pub proof fn settling_is_done_at_once(st: AppState)
    ensures
        settled(settled(st)) == settled(st),
        settled(st).toast is Some ==> settled(st).toast == st.toast,
        settled(st).bio is Some ==> settled(st).bio == st.bio,
{
}

/// A message that is up lands somewhere on every screen: what the bar does not
/// take is on the last row, in the player and with nothing playing.
pub proof fn a_message_lands_somewhere(c: Canvas, screen: Rect, st: AppState)
    requires
        st.toast is Some,
    ensures
        st.show_player || !has_subject(&st) ==> loose_toast(c, screen, st) == toast_drawn(
            c,
            last_row(screen),
            st.toast->0.text@,
        ),
        !st.show_player && has_subject(&st) ==> bar_takes_toast(st) && loose_toast(
            c,
            screen,
            st,
        ) == c,
{
}

/// A message is up for four seconds, and no longer.
pub proof fn a_message_is_up_for_four_seconds(toast: Option<Toast>)
    ensures
        toast is None ==> standing(toast) is None,
        toast matches Some(t) ==> (t.age_ms <= 4_000 ==> standing(toast) == toast) && (t.age_ms
            > 4_000 ==> standing(toast) is None),
{
}

/// Drawing leaves everything of the state as it was but the message, the article
/// and how far lists are scrolled; and those only to where they were drawn.
pub proof fn drawing_keeps_the_state(st: AppState, c: Canvas)
    ensures
        ({
            let s = scrolled(settled(st), c);
            &&& s.main_index == st.main_index && s.queue_index == st.queue_index
            &&& s.main == st.main && s.deck == st.deck && s.queue == st.queue
            &&& s.liked == st.liked && s.picker == st.picker && s.edit == st.edit
            &&& s.show_player == st.show_player && s.show_help == st.show_help
            &&& listed_at(c, ListId::Main) is None ==> s.main_offset == st.main_offset
            &&& listed_at(c, ListId::Main) matches Some(at) ==> s.main_offset == at
            &&& listed_at(c, ListId::Queue) is None ==> s.queue_offset == st.queue_offset
            &&& listed_at(c, ListId::Queue) matches Some(at) ==> s.queue_offset == at
            &&& s.bio matches Some(b) ==> (listed_at(c, ListId::Bio) matches Some(at) ==> b.offset
                == at)
        }),
{
}

/// The offset a list is kept at is the one it was drawn at last.
pub proof fn the_last_list_drawn_counts(
    c: Canvas,
    id: ListId,
    area: Rect,
    offset: usize,
    rows: Seq<RowView>,
    op: OpView,
)
    ensures
        listed_at(Seq::empty(), id) is None,
        listed_at(c.push(OpView::List { id, area, offset, rows }), id) == Some(offset),
        !(op matches OpView::List { id: other, area: a, offset: o, rows: r } && other == id)
            ==> listed_at(c.push(op), id) == listed_at(c, id),
{
    assert(c.push(OpView::List { id, area, offset, rows }).drop_last() =~= c);
    assert(c.push(op).drop_last() =~= c);
}

/// What lies over the screen, from the lowest up: the sleeve, the picker, the
/// editor, the article, and help over all of them. With none of them up the
/// screen is as it was.
#[verifier::rlimit(60)]
pub proof fn boxes_lie_in_order(c: Canvas, screen: Rect, st: AppState, pen: Pen)
    ensures
        ({
            let d = covered(c, screen, st, pen);
            let none = st.art_zoom is None && st.picker is None && st.edit is None && st.bio is None;
            &&& none && !st.show_help ==> d == c
            &&& none && st.show_help ==> d == help_drawn(c, screen, st.version@, st.update, pen)
            &&& st.show_help ==> d == help_drawn(
                covered(c, screen, AppState { show_help: false, ..st }, pen),
                screen,
                st.version@,
                st.update,
                pen,
            )
            &&& !st.show_help ==> (st.bio matches Some(b) ==> d == bio_drawn(
                covered(c, screen, AppState { bio: None, ..st }, pen),
                screen,
                st,
                b,
                pen,
            ))
            &&& !st.show_help && st.bio is None ==> (st.edit matches Some(e) ==> d == edit_drawn(
                covered(c, screen, AppState { edit: None, ..st }, pen),
                screen,
                e,
                pen,
            ))
            &&& !st.show_help && st.bio is None && st.edit is None ==> (st.picker matches Some(p)
                ==> d == picker_drawn(
                covered(c, screen, AppState { picker: None, ..st }, pen),
                screen,
                p,
                pen,
            ))
        }),
{
}

/// A browse screen is the header, the open page and the bar, drawn in that
/// order; the player takes the screen in their place.
#[verifier::rlimit(60)]
pub proof fn a_screen_is_a_page_or_the_player(c: Canvas, screen: Rect, st: AppState, pen: Pen)
    requires
        st.art_zoom is None,
        st.picker is None,
        st.edit is None,
        st.bio is None,
        !st.show_help,
        st.toast is None,
    ensures
        ({
            let (head, pane, bar) = browse_parts(screen, if st.deck.radio is Some
                || st.deck.playback is Some {
                9
            } else {
                0
            });
            &&& st.show_player ==> frame_drawn(c, screen, st, pen) == player_drawn(
                c,
                screen,
                st,
                pen,
            )
            &&& !st.show_player ==> frame_drawn(c, screen, st, pen) == bar_drawn(
                pane_drawn(top_drawn(c, head, st, page_note(st), pen), pane, st, pen),
                bar,
                st,
                pen,
            )
        }),
{
}

/// Nothing keeps turning on a screen that waits for nothing.
pub proof fn a_still_screen_is_still(st: AppState)
    requires
        play_state::play_state(st.deck) != PlayState::Loading || (st.deck.radio is None
            && st.deck.playback is None),
        !fetching(st),
        st.picker matches Some(p) ==> !awaits(p),
    ensures
        !animating(st),
{
}

/// A message the bar cannot take is on the last row of the screen.
pub proof fn a_loose_message_is_on_the_last_row(screen: Rect)
    requires
        screen.height > 0,
        screen.y + screen.height <= u16::MAX,
    ensures
        last_row(screen).y + 1 == screen.y + screen.height,
        last_row(screen).height == 1,
        last_row(screen).x == screen.x && last_row(screen).width == screen.width,
{
}

} // verus!
