//! The bottom bar on a browse page: the deck, with a sleeve on the left and a
//! message tucked into the blank row above the progress track.

use vstd::prelude::*;
use vstd::string::*;

use crate::deck::{
    announced_like, context_drawn, context_row, idle_text, like_of, mast_drawn, masthead,
    no_playback_hint, progress, progress_drawn, radio_mast_drawn, radio_masthead,
    radio_station_row, radio_status, radio_status_drawn, radio_transport, radio_transport_drawn,
    sleeve, sleeve_rect, sleeved, station_row_drawn, transport, transport_drawn, Forward,
    DECK_H,
};
use crate::geometry::Rect;
use crate::play_state;
use crate::play_state::{or_paused, play_state};
use crate::scene::{put_hit, put_text, run, Canvas, Line, Op, OpView, Picture, Place, Scene, Target};
use crate::state::{AppState, Deck, Pen, Playback, RadioPlayback, Wear};
use crate::table::art_w;
use crate::tables::{is_kept, kept_station};
use crate::text::{clipped, copies, fitted, repeated, trimmed};
use crate::theme;

verus! {

/// Rows the sleeve spans: every row of the deck beside it.
pub const SLEEVE_H: u16 = 7;

/// Cells between the sleeve and the text.
pub const SLEEVE_GAP: u16 = 3;

/// Narrowest text column worth keeping the sleeve for.
pub const MIN_TEXT_W: u16 = 44;

/// Narrowest a message may be squeezed to before it is dropped.
pub const TOAST_MIN_W: u16 = 14;

/// Whether there is anything for the bar to be about: a station or a record.
#[verifier::allow_in_spec]
pub fn has_subject(st: &AppState) -> bool
    returns
        st.deck.radio is Some || st.deck.playback is Some,
{
    st.deck.radio.is_some() || st.deck.playback.is_some()
}

/// The canvas with a message against the right of a row, where it has room.
pub open spec fn toast_drawn(c: Canvas, row: Rect, msg: Seq<char>) -> Canvas {
    if row.width > TOAST_MIN_W {
        let w = (row.width - 1) as u16;
        c.push(
            OpView::Text {
                area: row.wide(w),
                place: Place::Right,
                line: Seq::empty().push(run(trimmed(fitted(msg, w as nat)), theme::warn())),
            },
        )
    } else {
        c
    }
}

/// A message against the right edge of `row`.
pub fn draw_toast(scene: &mut Scene, row: Rect, msg: &str)
    ensures
        final(scene)@ == toast_drawn(old(scene)@, row, msg@),
{
    if row.width > TOAST_MIN_W {
        let w: u16 = row.width - 1;
        let text = clipped(msg, w as usize);
        scene.put(
            Op::Text {
                area: row.wide(w),
                place: Place::Right,
                line: Line::of(text, theme::warn()),
            },
        );
    }
}

/// Whether the bar has rows and cells to spare for a sleeve.
#[verifier::allow_in_spec]
pub fn bar_has_sleeve(body: Rect) -> bool
    returns
        body.height >= SLEEVE_H && body.width >= art_w(SLEEVE_H) + SLEEVE_GAP + MIN_TEXT_W,
{
    body.height >= SLEEVE_H && body.width >= art_w(SLEEVE_H) + SLEEVE_GAP + MIN_TEXT_W
}

/// Where the bar's sleeve goes.
#[verifier::allow_in_spec]
pub fn bar_sleeve(body: Rect) -> Rect
    returns
        body.tall(SLEEVE_H).wide(art_w(SLEEVE_H)),
{
    body.tall(SLEEVE_H).wide(art_w(SLEEVE_H))
}

/// Where the bar's text goes: beside the sleeve, where there is room for one.
#[verifier::allow_in_spec]
pub fn bar_text(body: Rect) -> Rect
    returns
        (if bar_has_sleeve(body) {
            let art = sleeve_rect(bar_sleeve(body));
            Rect {
                x: art.right().saturating_add(SLEEVE_GAP),
                y: body.y,
                width: body.width.saturating_sub(art.width.saturating_add(SLEEVE_GAP)),
                height: body.height,
            }
        } else {
            body
        }),
{
    if bar_has_sleeve(body) {
        let art = sleeve_rect(bar_sleeve(body));
        Rect {
            x: art.right().saturating_add(SLEEVE_GAP),
            y: body.y,
            width: body.width.saturating_sub(art.width.saturating_add(SLEEVE_GAP)),
            height: body.height,
        }
    } else {
        body
    }
}

/// The canvas with the message that is up on the bar's third row.
pub open spec fn bar_toasted(c: Canvas, text: Rect, st: AppState) -> Canvas {
    match st.toast {
        Some(t) => if text.height >= 3 {
            toast_drawn(c, text.band(2, 1), t.text@)
        } else {
            c
        },
        None => c,
    }
}

fn draw_bar_toast(scene: &mut Scene, text: Rect, st: &AppState)
    ensures
        final(scene)@ == bar_toasted(old(scene)@, text, *st),
{
    match &st.toast {
        Some(t) => if text.height >= 3 {
            draw_toast(scene, text.band(2, 1), t.text.as_str());
        },
        None => {},
    }
}

/// The canvas with the deck's rows down a column, as many as it has room for.
pub open spec fn deck_rows_drawn(
    c: Canvas,
    text: Rect,
    pb: Playback,
    st: AppState,
    pen: Pen,
) -> Canvas {
    let c = bar_toasted(c, text, st);
    let c = if text.height >= 4 {
        progress_drawn(c, text.band(3, 1), pb.progress_ms, pb.track.duration_ms)
    } else {
        c
    };
    let c = if text.height >= 5 {
        transport_drawn(c, text.band(4, 1), play_state(st.deck), Forward::Next, st.wear, pen)
    } else {
        c
    };
    if text.height >= DECK_H {
        context_drawn(c, text.band(6, 1), pb.shuffle, st.queue, None, pen)
    } else {
        c
    }
}

/// The canvas with a record in the bar: the deck beside its sleeve.
pub open spec fn record_bar_drawn(
    c: Canvas,
    area: Rect,
    body: Rect,
    pb: Playback,
    st: AppState,
    pen: Pen,
) -> Canvas {
    let c = if bar_has_sleeve(body) {
        sleeved(c, bar_sleeve(body), pb.track, Picture::Playing)
    } else {
        c
    };
    let text = bar_text(body);
    let c = mast_drawn(
        c,
        text,
        pb.track,
        true,
        pb.volume_percent,
        st.liked.of(pb.track.uri@),
        st.spotify_ready,
        pen,
    );
    deck_rows_drawn(put_hit(c, area, Target::NowPlaying), text, pb, st, pen)
}

fn draw_record_bar(
    scene: &mut Scene,
    area: Rect,
    body: Rect,
    pb: &Playback,
    st: &AppState,
    pen: Pen,
)
    ensures
        final(scene)@ == record_bar_drawn(old(scene)@, area, body, *pb, *st, pen),
{
    if bar_has_sleeve(body) {
        let _r = sleeve(scene, bar_sleeve(body), &pb.track, Picture::Playing);
    }
    let text = bar_text(body);
    let like = st.liked.get(&pb.track.uri);
    masthead(scene, text, &pb.track, true, pb.volume_percent, like, st.spotify_ready, pen);
    scene.hit(area, Target::NowPlaying);
    draw_bar_toast(scene, text, st);
    if text.height < 4 {
        return;
    }
    progress(scene, text.band(3, 1), pb.progress_ms, pb.track.duration_ms);
    if text.height < 5 {
        return;
    }
    let play = or_paused(play_state::status(&st.deck));
    transport(scene, text.band(4, 1), play, Forward::Next, st.wear, pen);
    if text.height < DECK_H {
        return;
    }
    context_row(scene, text.band(6, 1), pb.shuffle, &st.queue, None, pen);
}

/// The canvas with a station's rows down a column, as many as it has room for.
pub open spec fn station_rows_drawn(
    c: Canvas,
    text: Rect,
    radio: RadioPlayback,
    st: AppState,
    pen: Pen,
) -> Canvas {
    let c = bar_toasted(c, text, st);
    let c = if text.height >= 4 {
        radio_status_drawn(c, text.band(3, 1), radio, pen)
    } else {
        c
    };
    let c = if text.height >= 5 {
        radio_transport_drawn(c, text.band(4, 1), play_state(st.deck), st.radio_steps, pen)
    } else {
        c
    };
    if text.height >= DECK_H {
        let saved = kept_station(st.favorites@, radio.station.uuid@);
        station_row_drawn(c, text.band(6, 1), radio, saved, None, pen)
    } else {
        c
    }
}

/// Where the text of a station's bar goes: beside the sleeve of the record it
/// announced, once that was found.
pub open spec fn station_text(body: Rect, radio: RadioPlayback) -> Rect {
    if radio.matched is Some {
        bar_text(body)
    } else {
        body
    }
}

/// The canvas with a station in the bar, beside the sleeve of the record it
/// announced, once that was found.
pub open spec fn station_bar_drawn(
    c: Canvas,
    area: Rect,
    body: Rect,
    radio: RadioPlayback,
    st: AppState,
    pen: Pen,
) -> Canvas {
    let c = match radio.matched {
        Some(t) => if bar_has_sleeve(body) {
            sleeved(c, bar_sleeve(body), t, Picture::Playing)
        } else {
            c
        },
        None => c,
    };
    let text = station_text(body, radio);
    let c = radio_mast_drawn(c, text, radio, announced_like(radio, st.liked), st.spotify_ready, pen);
    station_rows_drawn(put_hit(c, area, Target::NowPlaying), text, radio, st, pen)
}

fn draw_station_bar(
    scene: &mut Scene,
    area: Rect,
    body: Rect,
    radio: &RadioPlayback,
    st: &AppState,
    pen: Pen,
)
    ensures
        final(scene)@ == station_bar_drawn(old(scene)@, area, body, *radio, *st, pen),
{
    let text = match &radio.matched {
        Some(t) => {
            if bar_has_sleeve(body) {
                let _r = sleeve(scene, bar_sleeve(body), t, Picture::Playing);
            }
            bar_text(body)
        },
        None => body,
    };
    radio_masthead(scene, text, radio, like_of(radio, &st.liked), st.spotify_ready, pen);
    scene.hit(area, Target::NowPlaying);
    draw_bar_toast(scene, text, st);
    if text.height < 4 {
        return;
    }
    radio_status(scene, text.band(3, 1), radio, pen);
    if text.height < 5 {
        return;
    }
    let play = or_paused(play_state::status(&st.deck));
    radio_transport(scene, text.band(4, 1), play, st.radio_steps, pen);
    if text.height < DECK_H {
        return;
    }
    let saved: bool = is_kept(&st.favorites, &radio.station.uuid);
    radio_station_row(scene, text.band(6, 1), radio, saved, None, pen);
}

/// The canvas with the row over the bar on it: a rule, or a blank.
pub open spec fn bar_ruled(c: Canvas, area: Rect, wear: Wear) -> Canvas {
    match wear {
        Wear::Acts => c,
        Wear::Reports => put_text(
            c,
            area.tall(1),
            Seq::empty().push(run(copies('─', area.width as nat), theme::rule())),
        ),
    }
}

/// The canvas with the bottom bar on it: a rule or a blank, then the deck, or
/// the hint with nothing playing. A station goes before a record, which is kept
/// under it only to come back.
pub open spec fn bar_drawn(c: Canvas, area: Rect, st: AppState, pen: Pen) -> Canvas {
    if area.height == 0 || area.width == 0 {
        c
    } else {
        let c = bar_ruled(c, area, st.wear);
        let body = area.band(1, (area.height - 1) as u16);
        if body.height == 0 {
            c
        } else {
            match (st.deck.radio, st.deck.playback) {
                (Some(radio), _) => station_bar_drawn(c, area, body, radio, st, pen),
                (None, Some(pb)) => record_bar_drawn(c, area, body, pb, st, pen),
                (None, None) => put_text(
                    c,
                    body.tall(1),
                    Seq::empty().push(run(idle_text(st.spotify_ready), theme::dim())),
                ),
            }
        }
    }
}

/// The bottom bar. The sleeve is the first thing shed; then the rows go from
/// the bottom up. The whole bar is where the wheel turns the volume.
pub fn draw(scene: &mut Scene, area: Rect, st: &AppState, pen: Pen)
    ensures
        final(scene)@ == bar_drawn(old(scene)@, area, *st, pen),
{
    if area.height == 0 || area.width == 0 {
        return;
    }
    if st.wear == Wear::Reports {
        scene.text(area.tall(1), Line::of(repeated('─', area.width as usize), theme::rule()));
    }
    let body = area.band(1, area.height - 1);
    if body.height == 0 {
        return;
    }
    match (&st.deck.radio, &st.deck.playback) {
        (Some(radio), _) => draw_station_bar(scene, area, body, radio, st, pen),
        (None, Some(pb)) => draw_record_bar(scene, area, body, pb, st, pen),
        (None, None) => no_playback_hint(scene, body, st.spotify_ready),
    }
}

/// While a station is on, the bar is about it, and is the same whatever record
/// is kept under it.
pub proof fn a_station_goes_before_a_record(
    c: Canvas,
    area: Rect,
    st: AppState,
    kept: Option<Playback>,
    pen: Pen,
)
    requires
        st.deck.radio is Some,
    ensures
        has_subject(&st),
        bar_drawn(c, area, st, pen) == bar_drawn(
            c,
            area,
            AppState { deck: Deck { playback: kept, ..st.deck }, ..st },
            pen,
        ),
{
}

/// The bar sheds its sleeve before its text is squeezed: beside a sleeve the
/// text keeps its least width, and without one it has the whole bar.
pub proof fn the_bars_text_outlives_its_sleeve(body: Rect)
    ensures
        bar_has_sleeve(body) ==> bar_text(body).width >= MIN_TEXT_W,
        !bar_has_sleeve(body) ==> bar_text(body) == body,
        bar_text(body).height == body.height,
{
}

} // verus!
