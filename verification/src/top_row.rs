//! The header both views wear: the mark and the search prompt on the top row,
//! the path on the row two under it.

use vstd::prelude::*;
use vstd::string::*;

use crate::geometry::{min16, over, Rect};
use crate::play_state;
use crate::play_state::{play_state, PlayState};
use crate::scene::{line_w, put_hit, put_text, run, Canvas, Line, Op, OpView, Run, Scene, Target};
use crate::state::{AppState, Deck, InputMode, MainView, PageHeader, PageNote, Pen, Wear};
use crate::table::{
    a_right_row_prints_its_groups, brand, brand_rect, branded, groups_of, groups_w,
    lemma_prints_alone, lemma_prints_first, printed, right_drawn, right_rects, right_row,
    spaced_out, spinner,
};
use crate::text::{joined, low16, low_half, text_cells, text_width};
use crate::theme;
use crate::theme::Style;
use crate::trail::{draw_trail, fit_trail, fitted_path, path_drawn, trail_drawn, HEAD_W};

verus! {

/// Rows the identity row takes: the mark and what shares its row, then a blank.
pub const NAV_H: u16 = 2;

/// Rows above the path on a browse page: the prompt, then a blank.
pub const SEARCH_H: u16 = 2;

/// The header both views wear.
pub const HEAD_H: u16 = 4;

/// Shown when the box is empty, in place of the query.
pub const PLACEHOLDER: &'static str = "search Spotify and radio…";

/// Cells between the mark and whatever shares its row.
pub const MARK_GAP: u16 = 3;

/// Cells between the path and a count pinned opposite it.
pub const COUNT_GAP: u16 = 3;

/// Cells between the status and whatever is to its left.
pub const STATUS_GAP: u16 = 4;

/// The narrowest search field worth keeping. Below it the status goes instead.
pub const MIN_QUERY_W: u16 = 24;

/// The widest the field grows.
pub const MAX_QUERY_W: u16 = 56;

/// What stands before the word while a sound is waited for: a mark that turns,
/// or the dot the status always has.
pub open spec fn wait_mark(wear: Wear, pen: Pen) -> Seq<char> {
    match wear {
        Wear::Acts => spinner(pen.elapsed_ms)@ + " "@,
        Wear::Reports => "● "@,
    }
}

/// The status word and its dot, or nothing with nothing on the deck.
pub open spec fn status_runs(deck: Deck, wear: Wear, pen: Pen) -> Seq<Run> {
    let word = if deck.radio is Some {
        "RADIO"@
    } else {
        "STREAMING"@
    };
    let none = Seq::<Run>::empty();
    if deck.radio is None && deck.playback is None {
        none
    } else {
        match play_state(deck) {
            PlayState::Loading => none.push(run(wait_mark(wear, pen), theme::warn())).push(
                run("LOADING"@, theme::warn()),
            ),
            PlayState::Paused => none.push(run("● "@, theme::dim())).push(run(word, theme::dim())),
            PlayState::Playing => none.push(run("● "@, Style::ink(pen.pulse))).push(
                run(word, theme::accent(pen.accent)),
            ),
        }
    }
}

/// The playback status pinned opposite the mark: what is making sound, and
/// whether it is.
pub fn status_spans(deck: &Deck, wear: Wear, pen: Pen) -> (line: Line)
    ensures
        line@ == status_runs(*deck, wear, pen),
{
    let mut line = Line::empty();
    let s = match play_state::status(deck) {
        Some(s) => s,
        None => return line,
    };
    match s.state {
        PlayState::Loading => {
            let mark = match wear {
                Wear::Acts => joined(spinner(pen.elapsed_ms), " "),
                Wear::Reports => "● ".to_owned(),
            };
            line.put(mark, theme::warn());
            line.print("LOADING", theme::warn());
        },
        PlayState::Paused => {
            line.print("● ", theme::dim());
            line.print(s.word, theme::dim());
        },
        PlayState::Playing => {
            line.print("● ", Style::ink(pen.pulse));
            line.print(s.word, theme::accent(pen.accent));
        },
    }
    line
}

/// The cells the mark takes with the gap after it; none on a row too narrow for
/// it.
#[verifier::allow_in_spec]
pub fn mark_room(mark: Rect) -> u16
    returns
        (if mark.is_empty() {
            0u16
        } else {
            mark.width.saturating_add(MARK_GAP)
        }),
{
    if mark.is_empty() {
        0
    } else {
        mark.width.saturating_add(MARK_GAP)
    }
}

/// The cells a status takes with the gap before it, where it is kept: it goes
/// whole when the field would fall under `min_field`.
pub open spec fn status_slot(row: Rect, taken: u16, status: Seq<Run>, min_field: u16) -> u16 {
    let w = line_w(status);
    let slot = if w == 0 {
        0
    } else {
        w.saturating_add(STATUS_GAP)
    };
    if slot > 0 && row.width.saturating_sub(taken.saturating_add(slot)) < min_field {
        0
    } else {
        slot
    }
}

/// Whether a status survives the slot it was given.
pub open spec fn status_kept(row: Rect, taken: u16, status: Seq<Run>, min_field: u16) -> bool {
    status.len() > 0 && (line_w(status) == 0 || status_slot(row, taken, status, min_field) > 0)
}

/// The canvas with the mark and the status on a row.
pub open spec fn head_drawn(
    c: Canvas,
    row: Rect,
    deck: Deck,
    wear: Wear,
    min_field: u16,
    pen: Pen,
) -> Canvas {
    let mark = brand_rect(row, pen.accent);
    let c = put_hit(branded(c, row, pen), mark, Target::Home);
    let status = status_runs(deck, wear, pen);
    if status_kept(row, mark_room(mark), status, min_field) {
        put_hit(
            right_drawn(c, row, pen.mouse, seq![status]),
            right_rects(row, pen.mouse, seq![status])[0],
            Target::Status,
        )
    } else {
        put_hit(c, Rect::zero(), Target::Status)
    }
}

/// The field left between the mark and the status.
pub open spec fn head_field(row: Rect, deck: Deck, wear: Wear, min_field: u16, pen: Pen) -> Rect {
    let taken = mark_room(brand_rect(row, pen.accent));
    let slot = status_slot(row, taken, status_runs(deck, wear, pen), min_field);
    row.strip(taken, row.width.saturating_sub(taken.saturating_add(slot)))
}

/// The mark at the left of `row`, the playback status pinned opposite it, and
/// the field left between the two.
fn head_row(
    scene: &mut Scene,
    row: Rect,
    deck: &Deck,
    wear: Wear,
    min_field: u16,
    pen: Pen,
) -> (r: Rect)
    ensures
        final(scene)@ == head_drawn(old(scene)@, row, *deck, wear, min_field, pen),
        r == head_field(row, *deck, wear, min_field, pen),
{
    let mark = brand(scene, row, pen);
    scene.hit(mark, Target::Home);
    let taken: u16 = mark_room(mark);
    let status = status_spans(deck, wear, pen);
    let w: u16 = status.width();
    let some: bool = status.len() > 0;
    let mut slot: u16 = if w == 0 { 0 } else { w.saturating_add(STATUS_GAP) };
    let mut kept: bool = some;
    if slot > 0 && row.width.saturating_sub(taken.saturating_add(slot)) < min_field {
        kept = false;
        slot = 0;
    }
    if kept {
        let ghost sv = status@;
        let mut groups: Vec<Line> = Vec::new();
        groups.push(status);
        assert(groups_of(groups@) =~= seq![sv]);
        let rects = right_row(scene, row, pen.mouse, groups);
        scene.hit(rects[0], Target::Status);
    } else {
        scene.hit(Rect::zero(), Target::Status);
    }
    row.strip(taken, row.width.saturating_sub(taken.saturating_add(slot)))
}

/// The one dim run of a page's count.
pub open spec fn count_runs(count: Seq<char>) -> Seq<Run> {
    Seq::empty().push(run(count, theme::dim()))
}

/// What a page's count leaves of the row the path is on.
pub open spec fn trail_room(field: Rect, count: Option<Seq<char>>) -> Rect {
    match count {
        Some(t) => field.wide(
            field.width.saturating_sub(
                low16(text_cells(t) as int).saturating_add(COUNT_GAP),
            ),
        ),
        None => field,
    }
}

/// The canvas with the path across a field, and where its head answers.
pub open spec fn steps_on(
    c: Canvas,
    trail: Rect,
    st: AppState,
    page: PageNote,
    pen: Pen,
) -> Canvas {
    if trail.width > 0 {
        let (shown, ellipsis) = fitted_path(st.trail@, page.loading, trail.width, pen.accent);
        put_hit(
            trail_drawn(c, trail, shown, page.loading, ellipsis, st.show_player, pen),
            path_drawn(c, trail, shown, page.loading, ellipsis, st.show_player, pen).head,
            Target::ClosePlayer,
        )
    } else {
        c
    }
}

/// The canvas with the path's row on it. `top` is whether it is the identity
/// row, where the path shares with the mark and the status.
pub open spec fn path_row_drawn(
    c: Canvas,
    row: Rect,
    st: AppState,
    page: PageNote,
    top: bool,
    pen: Pen,
) -> Canvas {
    let c = if top {
        head_drawn(c, row, st.deck, st.wear, HEAD_W as u16, pen)
    } else {
        c
    };
    let field = if top {
        head_field(row, st.deck, st.wear, HEAD_W as u16, pen)
    } else {
        row
    };
    let c = steps_on(c, trail_room(field, page.count), st, page, pen);
    match page.count {
        Some(t) => right_drawn(c, field, None, seq![count_runs(t)]),
        None => c,
    }
}

/// The path, and the page's count pinned opposite it. The path shortens on a
/// tight row; the count does not.
fn path_row(scene: &mut Scene, row: Rect, st: &AppState, page: &PageHeader, top: bool, pen: Pen)
    ensures
        final(scene)@ == path_row_drawn(old(scene)@, row, *st, page@, top, pen),
{
    let field = if top { head_row(scene, row, &st.deck, st.wear, HEAD_W as u16, pen) } else { row };
    let trail = match &page.count {
        Some(t) => {
            let w: u16 = low_half(text_width(t.as_str()));
            field.wide(field.width.saturating_sub(w.saturating_add(COUNT_GAP)))
        },
        None => field,
    };
    if trail.width > 0 {
        let (shown, ellipsis) = fit_trail(&st.trail, page.loading, trail.width, pen.accent);
        let head = draw_trail(
            scene,
            trail,
            &shown,
            page.loading,
            ellipsis,
            st.show_player,
            pen,
        );
        scene.hit(head, Target::ClosePlayer);
    }
    match &page.count {
        Some(t) => {
            let mut groups: Vec<Line> = Vec::new();
            groups.push(Line::of(t.clone(), theme::dim()));
            assert(groups_of(groups@) =~= seq![count_runs(t@)]);
            let _r = right_row(scene, field, None, groups);
        },
        None => {},
    }
}

/// What the search box says: what is being typed, else the query of the page
/// that answers one, else the prompt.
pub open spec fn query_text(st: AppState) -> Seq<char> {
    if st.input_mode == InputMode::Search {
        st.input_buffer@ + "▏"@
    } else {
        match st.main {
            MainView::Search(r) => if r.query@.len() > 0 {
                r.query@
            } else {
                PLACEHOLDER@
            },
            _ => PLACEHOLDER@,
        }
    }
}

fn query_label(st: &AppState) -> (r: String)
    ensures
        r@ == query_text(*st),
{
    if st.input_mode == InputMode::Search {
        return joined(st.input_buffer.as_str(), "▏");
    }
    match &st.main {
        MainView::Search(r) => if r.query.as_str().unicode_len() > 0 {
            r.query.clone()
        } else {
            PLACEHOLDER.to_owned()
        },
        _ => PLACEHOLDER.to_owned(),
    }
}

/// The hint inside the search box while typing.
pub open spec fn hint_runs() -> Seq<Run> {
    Seq::empty().push(run("enter · esc"@, theme::dim()))
}

/// The cells the hint takes from the query, with its inset and one of daylight.
pub open spec fn hint_room(field: Rect) -> u16 {
    let w = right_rects(
        field.wide(field.width.saturating_sub(1)),
        None,
        seq![hint_runs()],
    )[0].width;
    if w == 0 {
        0
    } else {
        w.saturating_add(2)
    }
}

/// The search field: what the mark and the status leave, up to the widest it
/// grows.
pub open spec fn search_field(row: Rect, st: AppState, pen: Pen) -> Rect {
    let field = head_field(row, st.deck, st.wear, MIN_QUERY_W, pen);
    field.wide(min16(field.width, MAX_QUERY_W))
}

/// The canvas with the search row on it.
pub open spec fn search_row_drawn(c: Canvas, row: Rect, st: AppState, pen: Pen) -> Canvas {
    let c = head_drawn(c, row, st.deck, st.wear, MIN_QUERY_W, pen);
    let field = search_field(row, st, pen);
    if field.width == 0 {
        put_hit(c, Rect::zero(), Target::SearchBox)
    } else {
        let typing = st.input_mode == InputMode::Search;
        let ground = theme::field(over(pen.mouse, field));
        let c = put_hit(
            c.push(OpView::Fill { area: field, style: ground }),
            field,
            Target::SearchBox,
        );
        let c = if typing {
            right_drawn(c, field.wide(field.width.saturating_sub(1)), None, seq![hint_runs()])
        } else {
            c
        };
        let room = if typing {
            hint_room(field)
        } else {
            0
        };
        let area = field.wide(field.width.saturating_sub(room));
        put_text(
            c.push(OpView::Fill { area, style: ground }),
            area,
            Seq::empty().push(run(" /  "@, theme::warn())).push(
                run(
                    query_text(st),
                    if typing {
                        theme::warn()
                    } else {
                        theme::dim()
                    },
                ),
            ),
        )
    }
}

/// The search prompt, in the field beside the mark. The whole field answers,
/// not only the text in it.
fn search_row(scene: &mut Scene, row: Rect, st: &AppState, pen: Pen)
    ensures
        final(scene)@ == search_row_drawn(old(scene)@, row, *st, pen),
{
    let typing: bool = st.input_mode == InputMode::Search;
    let field = head_row(scene, row, &st.deck, st.wear, MIN_QUERY_W, pen);
    let field = field.wide(min16(field.width, MAX_QUERY_W));
    if field.width == 0 {
        scene.hit(Rect::zero(), Target::SearchBox);
        return;
    }
    let ground = theme::field(over(pen.mouse, field));
    scene.put(Op::Fill { area: field, style: ground });
    scene.hit(field, Target::SearchBox);
    let mut room: u16 = 0;
    if typing {
        let mut groups: Vec<Line> = Vec::new();
        groups.push(Line::of("enter · esc".to_owned(), theme::dim()));
        assert(groups_of(groups@) =~= seq![hint_runs()]);
        let rects = right_row(scene, field.wide(field.width.saturating_sub(1)), None, groups);
        room = if rects[0].width == 0 { 0 } else { rects[0].width.saturating_add(2) };
    }
    let area = field.wide(field.width.saturating_sub(room));
    let mut line = Line::empty();
    line.print(" /  ", theme::warn());
    line.put(query_label(st), if typing { theme::warn() } else { theme::dim() });
    scene.put(Op::Fill { area, style: ground });
    scene.text(area, line);
}

/// The canvas with the header on it.
pub open spec fn top_drawn(
    c: Canvas,
    area: Rect,
    st: AppState,
    page: PageNote,
    pen: Pen,
) -> Canvas {
    if area.height == 0 || area.width == 0 {
        c
    } else if st.show_player || area.height <= NAV_H {
        path_row_drawn(c, area.tall(1), st, page, true, pen)
    } else {
        path_row_drawn(
            search_row_drawn(c, area.tall(1), st, pen),
            area.band(SEARCH_H, 1),
            st,
            page,
            false,
            pen,
        )
    }
}

/// Draw the header into `area`: what fits in it is what is drawn.
///
/// The player has no prompt at any height, and a browse band with room for one
/// row keeps the one that says where you are.
pub fn draw(scene: &mut Scene, area: Rect, st: &AppState, page: &PageHeader, pen: Pen)
    ensures
        final(scene)@ == top_drawn(old(scene)@, area, *st, page@, pen),
{
    if area.height == 0 || area.width == 0 {
        return;
    }
    if st.show_player || area.height <= NAV_H {
        path_row(scene, area.tall(1), st, page, true, pen);
        return;
    }
    search_row(scene, area.tall(1), st, pen);
    path_row(scene, area.band(SEARCH_H, 1), st, page, false, pen);
}

/// Typing a query moves nothing on a browse page: the header draws the same
/// rows at the same places, and the field it types into stays where it is.
pub proof fn typing_moves_nothing(
    c: Canvas,
    row: Rect,
    a: AppState,
    b: AppState,
    page: PageNote,
    top: bool,
    pen: Pen,
)
    requires
        b == (AppState { input_mode: b.input_mode, input_buffer: b.input_buffer, ..a }),
    ensures
        search_field(row, a, pen) == search_field(row, b, pen),
        path_row_drawn(c, row, a, page, top, pen) == path_row_drawn(c, row, b, page, top, pen),
{
}

/// The mark and the status are drawn alike over a browse page and over the
/// player: what shares their row is no reason for either of them to move.
pub proof fn both_views_lead_alike(c: Canvas, row: Rect, deck: Deck, wear: Wear, pen: Pen)
    ensures
        head_drawn(c, row, deck, wear, HEAD_W as u16, pen) == head_drawn(
            c,
            row,
            deck,
            wear,
            MIN_QUERY_W,
            pen,
        ),
        head_field(row, deck, wear, HEAD_W as u16, pen) == head_field(
            row,
            deck,
            wear,
            MIN_QUERY_W,
            pen,
        ),
{
}

/// A tight row gives up its status before the field beside it: a status that is
/// drawn has left the field its least width.
pub proof fn the_status_goes_before_the_field(
    row: Rect,
    deck: Deck,
    wear: Wear,
    min_field: u16,
    pen: Pen,
)
    requires
        line_w(status_runs(deck, wear, pen)) > 0,
        status_kept(
            row,
            mark_room(brand_rect(row, pen.accent)),
            status_runs(deck, wear, pen),
            min_field,
        ),
    ensures
        head_field(row, deck, wear, min_field, pen).width >= min_field,
{
}

/// The status says what is on and what it is doing: nothing with nothing on, that
/// it loads while it does, and otherwise the source, in the accent while it
/// plays.
pub proof fn the_status_says_what_is_on(deck: Deck, wear: Wear, pen: Pen)
    ensures
        ({
            let r = status_runs(deck, wear, pen);
            let on = deck.radio is Some || deck.playback is Some;
            let word = if deck.radio is Some {
                "RADIO"@
            } else {
                "STREAMING"@
            };
            let loads = play_state(deck) == PlayState::Loading;
            &&& !on ==> r.len() == 0
            &&& on && !loads ==> printed(r) == seq!['●', ' '] + word
            &&& on && loads && wear == Wear::Reports ==> printed(r) == "● LOADING"@
            &&& on && loads && wear == Wear::Acts ==> printed(r) == spinner(pen.elapsed_ms)@
                + " LOADING"@
            &&& on && play_state(deck) == PlayState::Playing ==> r[1].style.fg == Some(pen.accent)
            &&& on && play_state(deck) == PlayState::Paused ==> r[1].style == theme::dim()
            &&& on && loads ==> r[1].style == theme::warn()
        }),
{
    reveal_strlit("● ");
    reveal_strlit(" ");
    reveal_strlit("LOADING");
    reveal_strlit("● LOADING");
    reveal_strlit(" LOADING");
    let r = status_runs(deck, wear, pen);
    if r.len() > 0 {
        lemma_prints_first(r, 2);
        lemma_prints_first(r, 1);
        assert(printed(r.take(0)) =~= Seq::<char>::empty());
        assert(r.take(2) =~= r);
        assert("● "@ =~= seq!['●', ' ']);
        if play_state(deck) == PlayState::Loading {
            assert(printed(r) =~= if wear == Wear::Acts {
                spinner(pen.elapsed_ms)@ + " LOADING"@
            } else {
                "● LOADING"@
            });
        } else {
            assert(printed(r) =~= seq!['●', ' '] + r[1].text);
        }
    }
}

/// The prompt shows what is being typed, with the caret behind it; else the query
/// the open answers are to; else what it is for.
pub proof fn the_prompt_shows_the_query(st: AppState)
    ensures
        st.input_mode == InputMode::Search ==> query_text(st) == st.input_buffer@ + seq!['▏'],
        st.input_mode != InputMode::Search ==> (match st.main {
            MainView::Search(r) => query_text(st) == (if r.query@.len() > 0 {
                r.query@
            } else {
                "search Spotify and radio…"@
            }),
            _ => query_text(st) == "search Spotify and radio…"@,
        }),
{
    reveal_strlit("▏");
    assert("▏"@ =~= seq!['▏']);
}

/// The prompt's row ends with the prompt: a slash, and what it shows.
pub proof fn the_prompt_is_drawn(c: Canvas, row: Rect, st: AppState, pen: Pen)
    requires
        search_field(row, st, pen).width > 0,
    ensures
        search_row_drawn(c, row, st, pen).last() matches OpView::Text { area, place, line } && area.x
            == search_field(row, st, pen).x && area.y == row.y && printed(line) == " /  "@
            + query_text(st),
{
    let style = if st.input_mode == InputMode::Search {
        theme::warn()
    } else {
        theme::dim()
    };
    let line = Seq::<Run>::empty().push(run(" /  "@, theme::warn())).push(
        run(query_text(st), style),
    );
    lemma_prints_first(line, 2);
    lemma_prints_first(line, 1);
    assert(printed(line.take(0)) =~= Seq::<char>::empty());
    assert(line.take(2) =~= line);
    assert(printed(line) =~= " /  "@ + query_text(st));
}

/// A page's count is printed at the right of the path's row, where there is room
/// for it.
pub proof fn the_count_is_at_the_right(
    c: Canvas,
    row: Rect,
    st: AppState,
    page: PageNote,
    top: bool,
    pen: Pen,
)
    ensures
        ({
            let field = if top {
                head_field(row, st.deck, st.wear, HEAD_W as u16, pen)
            } else {
                row
            };
            page.count matches Some(t) ==> (groups_w(seq![count_runs(t)]) <= field.width ==> (
            path_row_drawn(c, row, st, page, top, pen).last() matches OpView::Text {
                area,
                place,
                line,
            } && printed(line) == t && area.right() == field.right()))
        }),
{
    if let Some(t) = page.count {
        let field = if top {
            head_field(row, st.deck, st.wear, HEAD_W as u16, pen)
        } else {
            row
        };
        let c1 = if top {
            head_drawn(c, row, st.deck, st.wear, HEAD_W as u16, pen)
        } else {
            c
        };
        let c2 = steps_on(c1, trail_room(field, page.count), st, page, pen);
        let groups = seq![count_runs(t)];
        a_right_row_prints_its_groups(c2, field, None, groups);
        lemma_prints_alone(count_runs(t));
        assert(spaced_out(groups, 0) =~= Seq::<char>::empty());
        assert(spaced_out(groups, 1) =~= t);
    }
}

} // verus!
