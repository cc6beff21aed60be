//! What a frame says, whatever is drawn after it.

use vstd::prelude::*;
use vstd::string::*;

use crate::artist_body::{
    artist_body_drawn, body_recorded, groups_laid, line_rows, lines_in, sheet_of, sleeves_hung,
    table_head, top_cells, top_under, Drawing, Sheet,
};
use crate::artist_page::{below_portrait, page_lines, portrait_drawn};
use crate::band::{
    a_band_says_the_page, a_page_offers_its_controls, art_area, band_drawn, band_picture,
    below_band, blurb_row, controls_at, controls_of, controls_row, metadata_drawn, name_area,
    name_runs, names_area, note_w, pills_drawn, stacked_in, text_area, totals_text,
    wears_sleeve, HeaderControls,
};
use crate::bio::{bio_area, bio_drawn, bio_title, bio_w, prose_rows};
use crate::columns::{
    album_columns, artist_columns, below_header, facet_columns, headed, header_drawn, plan,
    playlist_columns, station_columns, track_columns, Cell,
};
use crate::deck::{
    a_segment_is_whole_or_left_out, announced_like, back_drawn, button, clip_text,
    context_drawn, control_room, controls_say_their_state, credit_cells, credit_parts,
    fold_mark, forward_labels_are_of_one_width, idle_text, link_segment, mast_drawn, meta_room,
    note_segment, pill_drawn, pill_rect, progress_drawn, radio_edges, radio_label,
    radio_mast_drawn, radio_status_drawn, radio_title, radio_transport_drawn, record_drawn,
    record_strip, save_text, second_row, sep_fits, separated, sleeved, station_controls,
    station_groups, station_row_drawn, station_strip, strip,
    the_context_row_says_what_is_shuffled, the_save_control_keeps_its_width, title_drawn,
    title_groups, title_room, title_settled, title_text, title_w, titled, transport_drawn,
    transport_edges, Forward, DECK_H, LIVE_LABEL, PREV_LABEL,
};
use crate::geometry::{Position, Rect};
use crate::home::{home_drawn, home_page};
use crate::main_pane::{
    board_of, live_of, marks_of, pane_drawn, radio_page_drawn, radio_tabs, station_url,
    stations_upto,
};
use crate::now_playing::{
    bar_drawn, bar_has_sleeve, bar_ruled, bar_sleeve, bar_text, bar_toasted, record_bar_drawn,
    station_bar_drawn, station_text, toast_drawn,
};
use crate::play_state::{play_state, PlayState, RadioForward, RadioSteps};
use crate::player::{
    above_progress, block_drawn, budget, controls_drawn, header_band_drawn, player_column,
    player_drawn, player_head_drawn, queue_area, queue_cols, queue_drawn, queue_rows,
    stack_drawn, station_block_drawn, station_head_drawn, station_stack_drawn, Rows,
    PROGRESS_PAD,
};
use crate::playlist_picker::{framed, inside, picker_area, picker_drawn, picker_status, query_drawn};
use crate::rows::HoverCol;
use crate::scene::{
    drawn, keeps, lemma_keeps, line_cells, line_w, put_hit, put_text, run, writes, written,
    Canvas, ListId, OpView, Picture, RowView, Run, Strip, Target,
};
use crate::search_page::{answers, asked_drawn, below_query, search_page_drawn};
use crate::state::{
    clamp_offset, playing_row, AlbumItem, AppState, ArtistItem, ArtistView, BioPopup, Deck,
    HomeEntry, Kept, MainView, PageNote, Pen, Playback, Playlist, PlaylistPicker, Queue,
    RadioPlayback, RadioRow, RadioTab, RadioView, SearchResults, SearchTab, Sort, SortedList,
    Station, Toast, Track, TrackList, TrackListKind, Wear,
};
use crate::table::{
    a_right_row_prints_its_groups, brand_rect, brand_runs, branded, credit_ink, credit_runs,
    groups_cells, groups_w, lemma_prints_alone, light_changes_no_text, linked, pictured,
    printed, right_drawn, segment_rect, spaced_out, state_runs, the_mark_says_its_name,
    the_pill_says_what_it_does, volume_drawn, volume_group, volume_rect, volume_runs, CreditRun,
    Names,
};
use crate::tables::{
    a_list_is_drawn_as_it_is_scrolled, album_cells_recorded, album_rows, album_table_drawn,
    album_under, albums_shown, all_rows, artist_rows, artist_table_drawn, cell_under,
    cells_recorded, facet_rows, facet_table_drawn, kept_station, playlist_rows,
    playlist_table_drawn, row_at, rows_listed, rows_shown, station_rows, station_table_drawn,
    table_drawn, table_rows, track_rows, track_table_cells, track_table_drawn, NowBoard,
};
use crate::tabs::{tabs_drawn, Tab};
use crate::text::{a_narrow_text_takes_its_length, fitted, text_cells, trimmed, wrapped};
use crate::theme;
use crate::theme::Style;
use crate::top_row::{head_drawn, mark_room, status_kept, status_runs, steps_on};
use crate::trail::{a_path_is_printed_in_order, fitted_path, path_steps, steps_text};

verus! {

proof fn lemma_linked_keeps(c: Canvas, cell: Rect, runs: Seq<CreditRun>, n: nat, names: Names)
    ensures
        keeps(c, linked(c, cell, runs, n, names)),
    decreases n,
{
    if n > 0 {
        lemma_linked_keeps(c, cell, runs, (n - 1) as nat, names);
    }
}

proof fn lemma_record_keeps(c: Canvas, meta: Rect, track: Track, pen: Pen)
    ensures
        keeps(c, record_drawn(c, meta, track, pen)),
{
    let s0 = strip(Seq::empty(), meta.x, c);
    let runs = credit_parts(track.credits@, meta);
    let rect = credit_cells(s0, track.credits@, meta);
    lemma_linked_keeps(c, rect, runs, runs.len(), Names::Now);
}

proof fn lemma_settled_keeps(
    c: Canvas,
    row: Rect,
    liked: Option<bool>,
    add: bool,
    pen: Pen,
    k: nat,
)
    ensures
        keeps(c, title_settled(c, row, liked, add, pen, k).0),
    decreases 3 - k,
{
    let wanted = title_groups(liked, add, k, pen.accent);
    if wanted.len() > 0 && k < 2 {
        let d = right_drawn(c, row, pen.mouse, wanted);
        lemma_settled_keeps(d, row, liked, add, pen, k + 1);
    }
}

proof fn lemma_titled_keeps(c: Canvas, row: Rect, liked: Option<bool>, add: bool, pen: Pen)
    ensures
        keeps(c, titled(c, row, liked, add, pen)),
{
    lemma_settled_keeps(c, row, liked, add, pen, 0);
}

/// A record's masthead writes its title on the first row, as much of it as its
/// controls leave room for; and on the second the volume, and who made it.
#[verifier::rlimit(60)]
pub proof fn a_masthead_writes_its_record(
    c: Canvas,
    area: Rect,
    track: Track,
    note: bool,
    percent: u8,
    liked: Option<bool>,
    add: bool,
    pen: Pen,
)
    requires
        area.height > 0,
        area.width > 0,
    ensures
        ({
            let d = mast_drawn(c, area, track, note, percent, liked, add, pen);
            let row = second_row(area, note);
            let meta = meta_room(row, volume_rect(row, percent, pen));
            &&& keeps(c, d)
            &&& exists|w: nat|
                {
                    &&& w <= area.width
                    &&& written(d, area.y, #[trigger] fitted(title_text(track, note), w))
                }
            &&& area.height >= 2 && groups_w(volume_group(row, percent, pen)) <= row.width ==> written(
                d,
                row.y,
                printed(volume_runs(row, percent, pen)),
            )
            &&& area.height >= 2 && meta.width > 0 ==> written(
                d,
                row.y,
                printed(record_strip(c, meta, track, pen).line),
            )
        }),
{
    let title_row = area.tall(1);
    let taken = title_w(c, title_row, liked, add, pen);
    let c1 = titled(c, title_row, liked, add, pen);
    lemma_titled_keeps(c, title_row, liked, add, pen);
    let room = title_room(title_row, taken);
    let title = fitted(title_text(track, note), room as nat);
    let c2 = title_drawn(c1, title_row, title_text(track, note), room, pen);
    lemma_prints_alone(
        Seq::<Run>::empty().push(run(title, theme::accent(pen.accent).bold())),
    );
    assert(writes(c2.last(), area.y, title));
    assert(written(c2, area.y, title));
    let row = second_row(area, note);
    let groups = volume_group(row, percent, pen);
    a_right_row_prints_its_groups(c2, row, pen.mouse, groups);
    assert(spaced_out(groups, 0) =~= Seq::<char>::empty());
    assert(spaced_out(groups, 1) =~= printed(groups[0]));
    let c3 = volume_drawn(c2, row, percent, pen);
    let volume = printed(volume_runs(row, percent, pen));
    let v = right_drawn(c2, row, pen.mouse, groups);
    if groups_w(groups) <= row.width {
        assert(writes(v.last(), row.y, volume));
        assert(writes(c3[v.len() - 1], row.y, volume));
        assert(written(c3, row.y, volume));
    }
    assert(keeps(c2, c3));
    let op = c2.last();
    lemma_keeps(c2, c3, area.y, title, op);
    let meta = meta_room(row, volume_rect(row, percent, pen));
    let d = mast_drawn(c, area, track, note, percent, liked, add, pen);
    if area.height >= 2 && meta.width > 0 {
        lemma_record_keeps(c3, meta, track, pen);
        lemma_keeps(c3, d, area.y, title, op);
        lemma_keeps(c3, d, row.y, volume, op);
        lemma_strip_text(c, c3, meta, track, pen);
        assert(writes(d.last(), row.y, printed(record_strip(c3, meta, track, pen).line)));
    }
    assert(written(d, area.y, fitted(title_text(track, note), room as nat)));
}

/// What a record's row says is the same whatever was drawn before it.
proof fn lemma_strip_text(a: Canvas, b: Canvas, meta: Rect, track: Track, pen: Pen)
    ensures
        record_strip(a, meta, track, pen).line == record_strip(b, meta, track, pen).line,
{
}

proof fn lemma_transport_keeps(
    c: Canvas,
    row: Rect,
    play: PlayState,
    forward: Forward,
    wear: Wear,
    pen: Pen,
)
    ensures
        keeps(c, transport_drawn(c, row, play, forward, wear, pen)),
{
}

/// A transport writes the way back at its left and the way on at its right, and
/// each answers where it is written.
#[verifier::rlimit(60)]
pub proof fn a_transport_writes_its_buttons(
    c: Canvas,
    row: Rect,
    play: PlayState,
    forward: Forward,
    wear: Wear,
    pen: Pen,
)
    requires
        row.width >= 20,
    ensures
        ({
            let d = transport_drawn(c, row, play, forward, wear, pen);
            &&& keeps(c, d)
            &&& written(d, row.y, "◂◂ previous"@)
            &&& written(d, row.y, forward.label(wear)@)
            &&& d.last() matches OpView::Hit { area, target } && target == Target::Next
            &&& d[(c.len() + 1) as int] matches OpView::Hit { area, target } && target
                == Target::Previous && area.x == row.x
        }),
{
    let b = button(PREV_LABEL@);
    let n = button(forward.label(wear)@);
    lemma_prints_alone(b);
    lemma_prints_alone(n);
    light_changes_no_text(
        Seq::empty(),
        row.x,
        row,
        pen.mouse,
        b,
        Seq::empty(),
        theme::text(),
        false,
    );
    let c0 = put_hit(c, Rect::zero(), Target::Play);
    let c1 = back_drawn(c0, row, pen);
    assert(printed(Seq::<Run>::empty()) + printed(b) =~= PREV_LABEL@);
    assert(writes(c1.last(), row.y, PREV_LABEL@));
    let edges = transport_edges(forward, wear);
    lemma_edges(forward, wear);
    let c2 = pill_drawn(c1, row, play, wear, edges, pen);
    let groups = seq![n];
    a_right_row_prints_its_groups(c2, row, pen.mouse, groups);
    forward_labels_are_of_one_width(forward, wear);
    lemma_group_w(n);
    assert(spaced_out(groups, 0) =~= Seq::<char>::empty());
    assert(spaced_out(groups, 1) =~= forward.label(wear)@);
    let d = transport_drawn(c, row, play, forward, wear, pen);
    let r = right_drawn(c2, row, pen.mouse, groups);
    assert(writes(r.last(), row.y, forward.label(wear)@));
    assert(d[r.len() - 1] == r.last());
    assert(d[c1.len() - 1] == c1.last());
}

proof fn lemma_edges(forward: Forward, wear: Wear)
    ensures
        transport_edges(forward, wear) == 18,
{
    reveal_strlit("◂◂ previous");
    a_narrow_text_takes_its_length(PREV_LABEL@);
    forward_labels_are_of_one_width(forward, wear);
}

proof fn lemma_group_w(part: Seq<Run>)
    requires
        part.len() == 1,
        text_cells(part[0].text) <= 0xFFFF,
    ensures
        groups_w(seq![part]) == text_cells(part[0].text),
        line_w(part) == text_cells(part[0].text),
        line_cells(part) == text_cells(part[0].text),
{
    let groups = seq![part];
    assert(part.drop_last().len() == 0);
    assert(line_cells(part.drop_last()) == 0);
    assert(line_cells(part) == text_cells(part[0].text));
    assert(groups_cells(groups, 0) == 0);
    assert(groups_cells(groups, 1) == line_cells(part));
}

/// Between the two stands the pill, in the middle of the row, and answers there;
/// there is none while the deck loads.
#[verifier::rlimit(60)]
pub proof fn a_transport_says_what_it_does(
    c: Canvas,
    row: Rect,
    play: PlayState,
    wear: Wear,
    edges: u16,
    pen: Pen,
)
    requires
        edges <= 100,
        row.width >= edges + 12,
    ensures
        ({
            let d = pill_drawn(c, row, play, wear, edges, pen);
            &&& play == PlayState::Loading ==> d == c
            &&& play != PlayState::Loading ==> {
                &&& d.len() == c.len() + 2
                &&& d[c.len() as int] matches OpView::Hit { area, target } && target == Target::Play
                &&& writes(
                    d.last(),
                    row.y,
                    match (wear, play) {
                        (Wear::Acts, PlayState::Playing) => "■ pause"@,
                        (Wear::Acts, _) => "▶ play "@,
                        (Wear::Reports, PlayState::Playing) => " ● playing"@,
                        (Wear::Reports, _) => " ■ paused "@,
                    },
                )
            }
        }),
{
    the_pill_says_what_it_does(play, wear, pen.accent);
    if let Some(pill) = state_runs(play, wear, pen.accent) {
        lemma_pill_w(play, wear, pen.accent);
        let w = line_w(pill);
        let seg = pill_rect(row, w);
        light_changes_no_text(
            Seq::empty(),
            seg.x,
            row,
            pen.mouse,
            pill,
            Seq::empty(),
            theme::text(),
            false,
        );
        assert(printed(Seq::<Run>::empty()) + printed(pill) =~= printed(pill));
    }
}

proof fn lemma_pill_w(play: PlayState, wear: Wear, accent: u32)
    ensures
        state_runs(play, wear, accent) matches Some(r) ==> line_w(r) <= 10,
{
    reveal_strlit("■");
    reveal_strlit("▶");
    reveal_strlit(" ●");
    reveal_strlit(" ■");
    reveal_strlit(" pause");
    reveal_strlit(" play ");
    reveal_strlit(" playing");
    reveal_strlit(" paused ");
    if let Some(r) = state_runs(play, wear, accent) {
        a_narrow_text_takes_its_length(r[0].text);
        a_narrow_text_takes_its_length(r[1].text);
        let first = r.drop_last();
        assert(line_cells(first.drop_last()) == 0);
        assert(line_cells(first) == text_cells(r[0].text));
        assert(line_cells(r) == text_cells(r[0].text) + text_cells(r[1].text));
    }
}

proof fn lemma_context_keeps(
    c: Canvas,
    row: Rect,
    shuffle: bool,
    queue: Option<Queue>,
    fold: Option<bool>,
    pen: Pen,
)
    ensures
        keeps(c, context_drawn(c, row, shuffle, queue, fold, pen)),
{
}

/// The bar of a record tells it whole: its title, how far in it is and how much
/// is left, where to go from it, whether the queue is shuffled, and the message
/// that is up.
#[verifier::spinoff_prover]
#[verifier::rlimit(60)]
pub proof fn the_bar_tells_its_record(
    c: Canvas,
    area: Rect,
    body: Rect,
    pb: Playback,
    st: AppState,
    pen: Pen,
)
    requires
        body.height >= DECK_H,
        bar_text(body).width >= 30,
    ensures
        ({
            let d = record_bar_drawn(c, area, body, pb, st, pen);
            let text = bar_text(body);
            &&& keeps(c, d)
            &&& exists|w: nat|
                written(d, text.y, #[trigger] fitted(title_text(pb.track, true), w))
            &&& drawn(d, OpView::Hit { area, target: Target::NowPlaying })
            &&& exists|op: OpView|
                {
                    &&& #[trigger] drawn(d, op)
                    &&& op matches OpView::Progress {
                        area: row,
                        elapsed,
                        remaining,
                        width,
                        progress_ms,
                        duration_ms,
                    } && progress_ms == pb.progress_ms && duration_ms == pb.track.duration_ms && row.y
                        == text.y.saturating_add(3)
                }
            &&& written(d, text.y.saturating_add(4), "◂◂ previous"@)
            &&& written(
                d,
                text.y.saturating_add(6),
                if pb.shuffle {
                    "shuffle on"@
                } else {
                    "shuffle off"@
                },
            )
            &&& st.toast is Some ==> exists|w: nat|
                written(
                    d,
                    text.y.saturating_add(2),
                    trimmed(#[trigger] fitted(st.toast->0.text@, w)),
                )
        }),
{
    let text = bar_text(body);
    let c1 = if bar_has_sleeve(body) {
        sleeved(c, bar_sleeve(body), pb.track, Picture::Playing)
    } else {
        c
    };
    let liked = st.liked.of(pb.track.uri@);
    a_masthead_writes_its_record(
        c1,
        text,
        pb.track,
        true,
        pb.volume_percent,
        liked,
        st.spotify_ready,
        pen,
    );
    let c2 = mast_drawn(
        c1,
        text,
        pb.track,
        true,
        pb.volume_percent,
        liked,
        st.spotify_ready,
        pen,
    );
    let w = choose|w: nat|
        w <= text.width && written(c2, text.y, #[trigger] fitted(title_text(pb.track, true), w));
    let title = fitted(title_text(pb.track, true), w);
    let c3 = put_hit(c2, area, Target::NowPlaying);
    let wheel = OpView::Hit { area, target: Target::NowPlaying };
    assert(c3.last() == wheel);
    let c4 = bar_toasted(c3, text, st);
    let said = lemma_toast_is_written(c3, text.band(2, 1), st.toast);
    let c5 = progress_drawn(c4, text.band(3, 1), pb.progress_ms, pb.track.duration_ms);
    let bar = c5.last();
    assert(c5[c5.len() - 1] == bar);
    let play = play_state(st.deck);
    let row = text.band(4, 1);
    a_transport_writes_its_buttons(c5, row, play, Forward::Next, st.wear, pen);
    let c6 = transport_drawn(c5, row, play, Forward::Next, st.wear, pen);
    let under = text.band(6, 1);
    the_context_row_says_what_is_shuffled(c6, under, pb.shuffle, st.queue, None, pen);
    lemma_context_keeps(c6, under, pb.shuffle, st.queue, None, pen);
    let d = record_bar_drawn(c, area, body, pb, st, pen);
    assert(d == context_drawn(c6, under, pb.shuffle, st.queue, None, pen));
    let shuffled = if pb.shuffle {
        "shuffle on"@
    } else {
        "shuffle off"@
    };
    assert(writes(d[(c6.len() + 2) as int], under.y, shuffled));
    assert(keeps(c2, d));
    assert(keeps(c4, d));
    assert(keeps(c5, d));
    lemma_keeps(c2, d, text.y, title, wheel);
    lemma_keeps(c3, d, text.y, title, wheel);
    lemma_keeps(c4, d, text.y.saturating_add(2), said, wheel);
    lemma_keeps(c5, d, text.y, title, bar);
    lemma_keeps(c6, d, row.y, "◂◂ previous"@, wheel);
    assert(drawn(d, bar));
}

/// The bar's third row writes the message that is up.
proof fn lemma_toast_is_written(c: Canvas, row: Rect, toast: Option<Toast>) -> (said: Seq<char>)
    requires
        row.width >= 30,
    ensures
        toast matches Some(t) ==> {
            let d = toast_drawn(c, row, t.text@);
            &&& keeps(c, d)
            &&& said == trimmed(fitted(t.text@, (row.width - 1) as nat))
            &&& written(d, row.y, said)
        },
{
    match toast {
        Some(t) => {
            let w = (row.width - 1) as u16;
            let said = trimmed(fitted(t.text@, w as nat));
            lemma_prints_alone(Seq::<Run>::empty().push(run(said, theme::warn())));
            let d = toast_drawn(c, row, t.text@);
            assert(writes(d[c.len() as int], row.y, said));
            said
        },
        None => Seq::empty(),
    }
}

proof fn lemma_link_keeps(
    s: Strip,
    text: Seq<char>,
    meta: Rect,
    style: Style,
    clickable: bool,
    target: Target,
    mouse: Option<Position>,
)
    ensures
        keeps(s.canvas, link_segment(s, text, meta, style, clickable, target, mouse).canvas),
        note_segment(s, text, meta).canvas == s.canvas,
{
}

proof fn lemma_station_strip_keeps(
    c: Canvas,
    left: Rect,
    radio: RadioPlayback,
    folded: Option<bool>,
    mouse: Option<Position>,
)
    ensures
        keeps(c, station_strip(c, left, radio, folded, mouse).canvas),
{
    let st = radio.station;
    let s0 = strip(Seq::empty(), left.x, c);
    let name = clip_text(fold_mark(folded)@ + st.name@, left);
    let bold = theme::bright().bold();
    lemma_link_keeps(s0, name, left, bold, true, Target::QueueName, mouse);
    let s1 = link_segment(s0, name, left, bold, true, Target::QueueName, mouse);
    let country = clip_text(st.country@, left);
    let code = st.countrycode@.len() > 0;
    lemma_link_keeps(s1, country, left, theme::dim(), code, Target::StationCountry, mouse);
    let s2 = if country.len() > 0 {
        link_segment(s1, country, left, theme::dim(), code, Target::StationCountry, mouse)
    } else {
        s1
    };
    lemma_link_keeps(s2, st.quality@, left, theme::dim(), code, Target::StationCountry, mouse);
    let s3 = note_segment(s2, st.quality@, left);
    assert(separated(s3).canvas == s3.canvas);
    assert(station_strip(c, left, radio, folded, mouse).canvas == s3.canvas);
}

proof fn lemma_station_keeps(
    c: Canvas,
    row: Rect,
    radio: RadioPlayback,
    saved: bool,
    folded: Option<bool>,
    pen: Pen,
)
    requires
        row.width > 0,
    ensures
        ({
            let groups = station_groups(radio.off_air, saved, pen.accent);
            keeps(
                right_drawn(put_hit(c, Rect::zero(), Target::Shuffle), row, pen.mouse, groups),
                station_row_drawn(c, row, radio, saved, folded, pen),
            )
        }),
{
    let c1 = put_hit(c, Rect::zero(), Target::Shuffle);
    let groups = station_groups(radio.off_air, saved, pen.accent);
    let c2 = right_drawn(c1, row, pen.mouse, groups);
    let (live, save) = station_controls(row, radio.off_air, saved, pen);
    let c3 = put_hit(put_hit(c2, live, Target::RadioLive), save, Target::SaveStation);
    let taken = control_room(live).saturating_add(control_room(save));
    let left = row.wide(row.width.saturating_sub(taken));
    lemma_station_strip_keeps(c3, left, radio, folded, pen.mouse);
}

/// A station's own row writes, at its right, whether it is saved, with the way
/// back to the broadcast before it while a record is on instead.
#[verifier::rlimit(60)]
pub proof fn a_station_says_whether_it_is_saved(
    c: Canvas,
    row: Rect,
    radio: RadioPlayback,
    saved: bool,
    folded: Option<bool>,
    pen: Pen,
)
    requires
        row.width >= 20,
    ensures
        ({
            let word = if saved {
                "★ saved"@
            } else {
                "★ save "@
            };
            let d = station_row_drawn(c, row, radio, saved, folded, pen);
            &&& keeps(c, d)
            &&& !radio.off_air ==> written(d, row.y, word)
            &&& radio.off_air ==> written(d, row.y, "◂ live "@ + word)
        }),
{
    controls_say_their_state(saved, pen.accent);
    the_save_control_keeps_its_width(saved);
    reveal_strlit("◂ live");
    reveal_strlit("◂ live ");
    let word = save_text(saved);
    let groups = station_groups(radio.off_air, saved, pen.accent);
    let save = groups.last();
    lemma_prints_alone(save);
    let c0 = put_hit(c, Rect::zero(), Target::Shuffle);
    a_right_row_prints_its_groups(c0, row, pen.mouse, groups);
    let d = station_row_drawn(c, row, radio, saved, folded, pen);
    let r = right_drawn(c0, row, pen.mouse, groups);
    assert(spaced_out(groups, 0) =~= Seq::<char>::empty());
    lemma_group_w(save);
    if radio.off_air {
        let live = groups[0];
        lemma_prints_alone(live);
        a_narrow_text_takes_its_length(LIVE_LABEL@);
        lemma_group_w(live);
        assert(groups_cells(groups, 0) == 0);
        assert(groups_cells(groups, 1) == 6);
        assert(groups_cells(groups, 2) == 13);
        assert(spaced_out(groups, 1) =~= "◂ live "@);
        assert(spaced_out(groups, 2) =~= "◂ live "@ + word);
    } else {
        assert(spaced_out(groups, 1) =~= word);
        assert(groups =~= seq![save]);
    }
    lemma_station_keeps(c, row, radio, saved, folded, pen);
    assert(groups_w(groups) <= row.width);
    assert(d[r.len() - 1] == r.last());
    assert(writes(d[r.len() - 1], row.y, spaced_out(groups, groups.len())));
}

/// And at its left the station: its name behind the mark of its fold, and where
/// it is from, how it sounds, and in how many channels, as far as they fit.
#[verifier::rlimit(60)]
pub proof fn a_station_is_told_by_its_name(
    c: Canvas,
    left: Rect,
    radio: RadioPlayback,
    folded: Option<bool>,
    mouse: Option<Position>,
)
    ensures
        ({
            let name = trimmed(fitted(fold_mark(folded)@ + radio.station.name@, left.width as nat));
            let country = trimmed(fitted(radio.station.country@, left.width as nat));
            let line = station_strip(c, left, radio, folded, mouse).line;
            exists|a: bool, b: bool, q: bool, m: bool| #[trigger]
                station_told(
                    printed(line),
                    name,
                    country,
                    radio.station.quality@,
                    radio.channel_label,
                    (a, b, q, m),
                )
        }),
{
    let st = radio.station;
    let name = clip_text(fold_mark(folded)@ + st.name@, left);
    let country = clip_text(st.country@, left);
    let s0 = strip(Seq::empty(), left.x, c);
    let bold = theme::bright().bold();
    a_segment_is_whole_or_left_out(s0, name, left, bold, true, Target::QueueName, mouse);
    let s1 = link_segment(s0, name, left, bold, true, Target::QueueName, mouse);
    let a = sep_fits(s0, name, left);
    let code = st.countrycode@.len() > 0;
    a_segment_is_whole_or_left_out(
        s1,
        country,
        left,
        theme::dim(),
        code,
        Target::StationCountry,
        mouse,
    );
    let b = country.len() > 0 && sep_fits(s1, country, left);
    let s2 = if country.len() > 0 {
        link_segment(s1, country, left, theme::dim(), code, Target::StationCountry, mouse)
    } else {
        s1
    };
    a_segment_is_whole_or_left_out(
        s2,
        st.quality@,
        left,
        theme::dim(),
        false,
        Target::StationCountry,
        mouse,
    );
    let q = st.quality@.len() > 0 && sep_fits(s2, st.quality@, left);
    let s3 = note_segment(s2, st.quality@, left);
    let m = radio.channel_label matches Some(mode) && sep_fits(s3, mode@, left);
    let s4 = station_strip(c, left, radio, folded, mouse);
    if let Some(mode) = radio.channel_label {
        if m {
            let t = separated(s3);
            if s3.line.len() > 0 {
                assert(t.line.drop_last() =~= s3.line);
            }
            assert(s4.line.drop_last() =~= t.line);
            assert(s4.line.last().text == mode@);
            assert(printed(s4.line) == printed(t.line) + mode@);
            assert(s3.line.len() > 0 ==> printed(t.line) == printed(s3.line) + " · "@);
        }
    }
    let none = Seq::<char>::empty();
    assert(printed(s0.line) =~= none);
    let l1 = if a {
        name
    } else {
        none
    };
    assert(printed(s1.line) =~= l1);
    let l2 = if b {
        dotted(l1, a, country)
    } else {
        l1
    };
    assert(printed(s2.line) =~= l2);
    let l3 = if q {
        dotted(l2, a || b, st.quality@)
    } else {
        l2
    };
    assert(printed(s3.line) =~= l3);
    assert(s1.line.len() > 0 <==> a);
    assert(s2.line.len() > 0 <==> a || b);
    assert(s3.line.len() > 0 <==> a || b || q);
    assert(station_told(
        printed(s4.line),
        name,
        country,
        st.quality@,
        radio.channel_label,
        (a, b, q, m),
    ));
}

/// `text` behind `before`, a dot between the two where something was there.
pub open spec fn dotted(before: Seq<char>, any: bool, text: Seq<char>) -> Seq<char> {
    if any {
        before + " · "@ + text
    } else {
        before + text
    }
}

/// Whether a line tells a station by those of its four parts that are `there`.
pub open spec fn station_told(
    line: Seq<char>,
    name: Seq<char>,
    country: Seq<char>,
    quality: Seq<char>,
    channels: Option<String>,
    there: (bool, bool, bool, bool),
) -> bool {
    let none = Seq::<char>::empty();
    let (a, b, q, m) = there;
    let l1 = if a {
        name
    } else {
        none
    };
    let l2 = if b {
        dotted(l1, a, country)
    } else {
        l1
    };
    let l3 = if q {
        dotted(l2, a || b, quality)
    } else {
        l2
    };
    &&& b ==> country.len() > 0
    &&& q ==> quality.len() > 0
    &&& m ==> channels is Some
    &&& line =~= (if m {
        dotted(l3, a || b || q, channels->0@)
    } else {
        l3
    })
}

/// A table of tracks draws every one of them, from the row it is scrolled to.
#[verifier::rlimit(60)]
pub proof fn a_track_table_draws_its_rows(
    c: Canvas,
    inner: Rect,
    rows: SortedList<Track>,
    index: usize,
    offset: usize,
    uri: Option<String>,
    liked: Kept,
    album: bool,
    pen: Pen,
)
    requires
        0 < rows.display@.len() <= usize::MAX,
        rows.items@.len() <= usize::MAX,
    ensures
        exists|op: OpView, cells: Seq<Cell>, hover: Option<HoverCol>, at: int|
            {
                &&& drawn(
                    track_table_drawn(c, inner, rows, index, offset, uri, liked, album, pen),
                    op,
                )
                &&& #[trigger] lists(
                    op,
                    below_header(inner),
                    clamp_offset(
                        offset,
                        rows.display@.len() as usize,
                        below_header(inner).height as usize,
                    ),
                    track_rows(
                        rows,
                        cells,
                        album,
                        playing_row(rows, uri),
                        index,
                        liked,
                        hover,
                        at,
                        pen.accent,
                    ),
                )
                &&& cells == plan(
                    track_columns(album),
                    inner.width as usize,
                    rows.items@.len() as usize,
                ).cells()
            },
{
    let len = rows.display@.len() as usize;
    let cells = track_table_cells(rows, inner, album);
    let c1 = header_drawn(c, cells, inner, Some(rows.sort), pen.mouse);
    let area = table_rows(inner, len);
    let at = clamp_offset(offset, len, area.height as usize);
    let n = rows_shown(len, at, area.height);
    let c2 = cells_recorded(
        put_hit(c1, area, Target::MainList),
        cells,
        area,
        area.y,
        rows,
        at,
        n,
    );
    let hover = cell_under(cells, area, area.y, rows, at, n, pen.mouse);
    let under = row_at(pen.mouse, area.y, at);
    let listed = track_rows(
        rows,
        cells,
        album,
        playing_row(rows, uri),
        index,
        liked,
        hover,
        under,
        pen.accent,
    );
    a_list_is_drawn_as_it_is_scrolled(c2, area, at, listed, pen.mouse);
    let d = track_table_drawn(c, inner, rows, index, offset, uri, liked, album, pen);
    assert(d == rows_listed(c2, area, at, listed, pen.mouse));
    let op = d[c2.len() as int];
    assert(drawn(d, op));
    assert(lists(op, area, at, listed));
}

/// Whether `op` lists `rows` in `area` from the row `at` on.
pub open spec fn lists(op: OpView, area: Rect, at: usize, rows: Seq<RowView>) -> bool {
    op matches OpView::List { id, area: a, offset, rows: shown } && id == ListId::Main && a == area
        && offset == at && shown.len() == rows.len() && (forall|i: int|
        0 <= i < rows.len() ==> (#[trigger] shown[i]).line == rows[i].line)
}

/// So does every other table.
pub proof fn a_table_draws_its_rows(
    c: Canvas,
    inner: Rect,
    cells: Seq<Cell>,
    sort: Sort,
    offset: usize,
    rows: Seq<RowView>,
    mouse: Option<Position>,
)
    requires
        rows.len() <= usize::MAX,
    ensures
        exists|op: OpView|
            {
                &&& drawn(table_drawn(c, inner, cells, sort, offset, rows, mouse), op)
                &&& #[trigger] lists(
                    op,
                    below_header(inner),
                    clamp_offset(offset, rows.len() as usize, below_header(inner).height as usize),
                    rows,
                )
            },
{
    let area = below_header(inner);
    let c1 = put_hit(header_drawn(c, cells, inner, Some(sort), mouse), area, Target::MainList);
    let at = clamp_offset(offset, rows.len() as usize, area.height as usize);
    a_list_is_drawn_as_it_is_scrolled(c1, area, at, rows, mouse);
    let d = table_drawn(c, inner, cells, sort, offset, rows, mouse);
    let op = d[c1.len() as int];
    assert(drawn(d, op));
    assert(lists(op, area, at, rows));
}

/// The queue in the player draws every one of its tracks, from the row it is
/// scrolled to, and is where the wheel turns it.
pub proof fn the_queue_draws_its_rows(
    c: Canvas,
    area: Rect,
    uri: Option<String>,
    q: Queue,
    index: usize,
    offset: usize,
    pen: Pen,
)
    requires
        area.height > 0,
        q.rows.display@.len() <= usize::MAX,
    ensures
        ({
            let d = queue_drawn(c, area, uri, Some(q), index, offset, pen);
            let list = area.wide(area.width.saturating_sub(2));
            let len = q.rows.display@.len() as usize;
            &&& keeps(c, d)
            &&& d[c.len() as int] == OpView::Hit { area: list, target: Target::PlayerQueue }
            &&& d[(c.len() + 1) as int] == OpView::List {
                id: ListId::Queue,
                area: list,
                offset: clamp_offset(offset, len, list.height as usize),
                rows: queue_rows(
                    q.rows,
                    queue_cols(list.width as usize, len),
                    playing_row(q.rows, uri),
                    index,
                    pen.accent,
                ),
            }
        }),
{
}

/// Which page is open decides what is listed, and with what: the row selected,
/// the row scrolled to, what plays and what is liked.
#[verifier::rlimit(60)]
pub proof fn a_page_lists_what_it_is_about(c: Canvas, area: Rect, st: AppState, pen: Pen)
    ensures
        ({
            let d = pane_drawn(c, area, st, pen);
            let inner = area.wide(area.width.saturating_sub(2));
            &&& st.main matches MainView::Tracks(list) ==> (list.rows.display@.len() > 0 ==> d
                == track_table_drawn(
                band_drawn(
                    c,
                    inner,
                    list,
                    st.view_cover,
                    list.loading || st.loading,
                    controls_of(st),
                    pen,
                ),
                below_band(inner, list.header),
                list.rows,
                st.main_index,
                st.main_offset,
                marks_of(st).uri,
                st.liked,
                list.kind == TrackListKind::Album,
                pen,
            ))
            &&& st.main is Playlists && st.playlists.items@.len() > 0 && inner.width > 0
                && inner.height > 0 ==> d == playlist_table_drawn(
                c,
                inner,
                all_rows(&st.playlists),
                st.playlists.sort,
                st.me_id,
                marks_of(st).context,
                st.main_index,
                st.main_offset,
                pen,
            )
            &&& st.main matches MainView::Artist(v) ==> (v.top.display@.len() > 0
                || v.albums.display@.len() > 0 ==> d == artist_body_drawn(
                portrait_drawn(c, inner, v, pen),
                below_portrait(inner, v),
                v,
                st.main_index,
                st.main_offset,
                marks_of(st).uri,
                st.liked,
                pen,
            ))
        }),
{
}

/// A tab of a search lists the answers of its kind, and no other.
#[verifier::rlimit(60)]
pub proof fn a_tab_lists_its_own_answers(
    c: Canvas,
    inner: Rect,
    r: SearchResults,
    st: AppState,
    pen: Pen,
)
    requires
        answers(r, st.search_tab) > 0,
    ensures
        ({
            let d = search_page_drawn(c, inner, r, st, pen);
            let body = below_query(inner);
            let (i, o) = (st.main_index, st.main_offset);
            let c2 = asked_drawn(c, inner, r, st, pen);
            {
                    &&& st.search_tab == SearchTab::Tracks ==> d == track_table_drawn(
                        c2,
                        body,
                        r.tracks,
                        i,
                        o,
                        marks_of(st).uri,
                        st.liked,
                        false,
                        pen,
                    )
                    &&& st.search_tab == SearchTab::Albums ==> d == album_table_drawn(
                        c2,
                        body,
                        r.albums,
                        marks_of(st).context,
                        i,
                        o,
                        pen,
                    )
                    &&& st.search_tab == SearchTab::Artists ==> d == artist_table_drawn(
                        c2,
                        body,
                        all_rows(&r.artists),
                        r.artists.sort,
                        i,
                        o,
                        pen,
                    )
                    &&& st.search_tab == SearchTab::Playlists ==> d == playlist_table_drawn(
                        c2,
                        body,
                        all_rows(&r.playlists),
                        r.playlists.sort,
                        None,
                        marks_of(st).context,
                        i,
                        o,
                        pen,
                    )
                    &&& st.search_tab == SearchTab::Stations ==> d == station_table_drawn(
                        c2,
                        body,
                        all_rows(&r.stations),
                        st.favorites@,
                        station_url(st),
                        None,
                        r.stations.sort,
                        i,
                        o,
                        pen,
                    )
                }
        }),
{
}

proof fn lemma_record_head(c: Canvas, header: Rect, pb: Playback, st: AppState, pen: Pen)
    requires
        header.height > 0,
        header.width > 0,
    ensures
        ({
            let d = header_band_drawn(c, header, pb, st, pen);
            &&& keeps(c, d)
            &&& exists|w: nat| written(d, header.y, #[trigger] fitted(pb.track.name@, w))
        }),
{
    let liked = st.liked.of(pb.track.uri@);
    let m = mast_drawn(
        c,
        header,
        pb.track,
        false,
        pb.volume_percent,
        liked,
        st.spotify_ready,
        pen,
    );
    a_masthead_writes_its_record(
        c,
        header,
        pb.track,
        false,
        pb.volume_percent,
        liked,
        st.spotify_ready,
        pen,
    );
    let w = choose|w: nat|
        w <= header.width && written(m, header.y, #[trigger] fitted(title_text(pb.track, false), w));
    let d = header_band_drawn(c, header, pb, st, pen);
    lemma_keeps(m, d, header.y, fitted(pb.track.name@, w), d.last());
    assert(written(d, header.y, fitted(pb.track.name@, w)));
}

#[verifier::spinoff_prover]
#[verifier::rlimit(60)]
proof fn lemma_record_controls(
    c: Canvas,
    inner: Rect,
    rows: Rows,
    pb: Playback,
    st: AppState,
    pen: Pen,
)
    requires
        inner.width >= 30,
        rows.progress > 0,
        rows.transport > 0,
        rows.list_head > 0,
    ensures
        ({
            let d = controls_drawn(c, inner, rows, pb, st, pen);
            let at = above_progress(rows).saturating_add(rows.progress);
            let row = inner.y.saturating_add(at);
            let under = inner.y.saturating_add(at.saturating_add(rows.transport));
            &&& keeps(c, d)
            &&& exists|op: OpView|
                {
                    &&& #[trigger] drawn(d, op)
                    &&& op matches OpView::Progress {
                        area,
                        elapsed,
                        remaining,
                        width,
                        progress_ms,
                        duration_ms,
                    } && progress_ms == pb.progress_ms && duration_ms == pb.track.duration_ms
                }
            &&& written(d, row, "◂◂ previous"@)
            &&& written(
                d,
                under,
                if pb.shuffle {
                    "shuffle on"@
                } else {
                    "shuffle off"@
                },
            )
        }),
{
    let at = above_progress(rows);
    let pad = if rows.art > 0 {
        1u16
    } else {
        PROGRESS_PAD
    };
    let c1 = progress_drawn(
        c,
        inner.band(at.saturating_add(pad), 1),
        pb.progress_ms,
        pb.track.duration_ms,
    );
    let bar = c1.last();
    assert(c1[c1.len() - 1] == bar);
    let at = at.saturating_add(rows.progress);
    let row = inner.band(at, 1);
    let play = play_state(st.deck);
    a_transport_writes_its_buttons(c1, row, play, Forward::Next, st.wear, pen);
    let c2 = transport_drawn(c1, row, play, Forward::Next, st.wear, pen);
    let under = inner.band(at.saturating_add(rows.transport), 1);
    let fold = Some(st.list_folded);
    the_context_row_says_what_is_shuffled(c2, under, pb.shuffle, st.queue, fold, pen);
    lemma_context_keeps(c2, under, pb.shuffle, st.queue, fold, pen);
    let d = controls_drawn(c, inner, rows, pb, st, pen);
    assert(d == context_drawn(c2, under, pb.shuffle, st.queue, fold, pen));
    let shuffled = if pb.shuffle {
        "shuffle on"@
    } else {
        "shuffle off"@
    };
    assert(writes(d[(c2.len() + 2) as int], under.y, shuffled));
    lemma_keeps(c1, d, row.y, shuffled, bar);
    lemma_keeps(c2, d, row.y, "◂◂ previous"@, bar);
    assert(drawn(d, bar));
}

/// The player tells the record on the deck whole: its name, how far in it is,
/// where to go from it, and whether the queue is shuffled; and under that it lists
/// the queue, with the row that plays marked and the row selected lit.
#[verifier::spinoff_prover]
#[verifier::rlimit(60)]
pub proof fn the_player_tells_its_record(
    c: Canvas,
    inner: Rect,
    rows: Rows,
    pb: Playback,
    st: AppState,
    pen: Pen,
)
    requires
        inner.width >= 30,
        rows.header > 0,
        rows.progress > 0,
        rows.transport > 0,
        rows.list_head > 0,
    ensures
        ({
            let d = stack_drawn(c, inner, rows, pb, st, pen);
            let under = inner.y.saturating_add(
                above_progress(rows).saturating_add(rows.progress).saturating_add(rows.transport),
            );
            &&& keeps(c, d)
            &&& exists|w: nat| written(d, inner.y, #[trigger] fitted(pb.track.name@, w))
            &&& exists|op: OpView|
                {
                    &&& #[trigger] drawn(d, op)
                    &&& op matches OpView::Progress {
                        area,
                        elapsed,
                        remaining,
                        width,
                        progress_ms,
                        duration_ms,
                    } && progress_ms == pb.progress_ms && duration_ms == pb.track.duration_ms
                }
            &&& written(
                d,
                under,
                if pb.shuffle {
                    "shuffle on"@
                } else {
                    "shuffle off"@
                },
            )
        }),
{
    let header = inner.band(0, rows.header);
    lemma_record_head(c, header, pb, st, pen);
    let c1 = header_band_drawn(c, header, pb, st, pen);
    let w = choose|w: nat| written(c1, header.y, #[trigger] fitted(pb.track.name@, w));
    let c2 = block_drawn(c1, inner, rows, pb);
    assert(keeps(c1, c2));
    lemma_record_controls(c2, inner, rows, pb, st, pen);
    let d = stack_drawn(c, inner, rows, pb, st, pen);
    lemma_keeps(c1, d, header.y, fitted(pb.track.name@, w), d.last());
    assert(written(d, inner.y, fitted(pb.track.name@, w)));
}

/// The player is about the station that is on, else the record on the deck, else
/// says what to press; and lists the queue of a record unless it is folded away.
pub proof fn the_player_is_about_what_is_on(c: Canvas, area: Rect, st: AppState, pen: Pen)
    requires
        4 <= area.height,
        2 < area.width,
    ensures
        ({
            let whole = player_column(area);
            let inner = whole.band(2, (whole.height - 2) as u16);
            let rows = budget(inner.width, inner.height);
            let head = player_head_drawn(c, whole, st, pen);
            let d = player_drawn(c, area, st, pen);
            &&& st.deck.radio matches Some(r) ==> d == station_stack_drawn(
                head,
                inner,
                rows,
                r,
                st,
                pen,
            )
            &&& st.deck.radio is None ==> (st.deck.playback matches Some(pb) ==> d == (
            if st.list_folded {
                stack_drawn(head, inner, rows, pb, st, pen)
            } else {
                queue_drawn(
                    stack_drawn(head, inner, rows, pb, st, pen),
                    queue_area(inner, rows),
                    Some(pb.track.uri),
                    st.queue,
                    st.queue_index,
                    st.queue_offset,
                    pen,
                )
            }))
        }),
{
}

/// A station's masthead writes what is on, on its first row; and on its second
/// who made it once that is known, and the station's genres until then.
#[verifier::spinoff_prover]
#[verifier::rlimit(60)]
pub proof fn a_station_writes_what_is_on(
    c: Canvas,
    area: Rect,
    radio: RadioPlayback,
    liked: Option<bool>,
    add: bool,
    pen: Pen,
)
    requires
        area.height > 0,
        area.width > 0,
    ensures
        ({
            let d = radio_mast_drawn(c, area, radio, liked, add, pen);
            let row = area.band(1, 1);
            let meta = meta_room(row, volume_rect(row, radio.volume_percent, pen));
            &&& keeps(c, d)
            &&& exists|w: nat| written(d, area.y, #[trigger] fitted(radio_title(radio), w))
            &&& area.height >= 2 && meta.width > 0 && radio.matched is None ==> writes(
                d.last(),
                row.y,
                fitted(radio.station.tags@, meta.width as nat),
            )
            &&& area.height >= 2 && meta.width > 0 ==> (radio.matched matches Some(t) ==> writes(
                d.last(),
                row.y,
                printed(record_strip(c, meta, t, pen).line),
            ))
        }),
{
    let title_row = area.tall(1);
    lemma_titled_keeps(c, title_row, liked, add, pen);
    let (c1, taken) = if radio.matched is Some {
        (titled(c, title_row, liked, add, pen), title_w(c, title_row, liked, add, pen))
    } else {
        (c, 0)
    };
    let room = title_room(title_row, taken);
    let title = fitted(radio_title(radio), room as nat);
    let c2 = title_drawn(c1, title_row, radio_title(radio), room, pen);
    lemma_prints_alone(
        Seq::<Run>::empty().push(run(title, theme::accent(pen.accent).bold())),
    );
    assert(writes(c2.last(), area.y, title));
    assert(written(c2, area.y, title));
    let row = area.band(1, 1);
    let c3 = volume_drawn(c2, row, radio.volume_percent, pen);
    assert(keeps(c2, c3));
    lemma_keeps(c2, c3, area.y, title, c2.last());
    let meta = meta_room(row, volume_rect(row, radio.volume_percent, pen));
    let d = radio_mast_drawn(c, area, radio, liked, add, pen);
    if area.height >= 2 && meta.width > 0 {
        match radio.matched {
            Some(t) => {
                lemma_record_keeps(c3, meta, t, pen);
                lemma_strip_text(c, c3, meta, t, pen);
            },
            None => {
                lemma_prints_alone(
                    Seq::<Run>::empty().push(
                        run(fitted(radio.station.tags@, meta.width as nat), theme::dim()),
                    ),
                );
            },
        }
        lemma_keeps(c3, d, area.y, title, c2.last());
    }
    assert(written(d, area.y, fitted(radio_title(radio), room as nat)));
}

/// A station's transport writes only the ways there are, and each answers where
/// it is written.
#[verifier::spinoff_prover]
#[verifier::rlimit(60)]
pub proof fn a_station_offers_the_ways_there_are(
    c: Canvas,
    row: Rect,
    play: PlayState,
    steps: RadioSteps,
    pen: Pen,
)
    requires
        row.width >= 40,
    ensures
        ({
            let d = radio_transport_drawn(c, row, play, steps, pen);
            &&& keeps(c, d)
            &&& steps.back ==> written(d, row.y, "◂◂ previous"@)
            &&& steps.forward == RadioForward::Next ==> written(d, row.y, "next ▸▸"@)
            &&& steps.forward == RadioForward::Seek ==> written(d, row.y, "seek ▸▸"@)
            &&& steps.forward != RadioForward::Nothing ==> (d.last() matches OpView::Hit {
                area,
                target,
            } && target == Target::Next)
            &&& play == PlayState::Playing ==> written(d, row.y, "■ pause"@)
            &&& play == PlayState::Paused ==> written(d, row.y, "▶ play "@)
            &&& !steps.back && steps.forward == RadioForward::Nothing && play == PlayState::Loading
                ==> d.len() == c.len() + 3
        }),
{
    let b = button(PREV_LABEL@);
    lemma_prints_alone(b);
    light_changes_no_text(
        Seq::empty(),
        row.x,
        row,
        pen.mouse,
        b,
        Seq::empty(),
        theme::text(),
        false,
    );
    assert(printed(Seq::<Run>::empty()) + printed(b) =~= PREV_LABEL@);
    let c0 = put_hit(
        put_hit(
            put_hit(c, Rect::zero(), Target::Previous),
            Rect::zero(),
            Target::Next,
        ),
        Rect::zero(),
        Target::Play,
    );
    let edges = radio_edges(steps);
    lemma_radio_edges(steps);
    let c1 = if steps.back {
        back_drawn(c0, row, pen)
    } else {
        c0
    };
    a_transport_says_what_it_does(c1, row, play, Wear::Acts, edges, pen);
    let c2 = pill_drawn(c1, row, play, Wear::Acts, edges, pen);
    let d = radio_transport_drawn(c, row, play, steps, pen);
    if let Some(l) = radio_label(steps.forward) {
        let n = button(l);
        lemma_prints_alone(n);
        let groups = seq![n];
        forward_labels_are_of_one_width(Forward::Next, Wear::Acts);
        lemma_group_w(n);
        a_right_row_prints_its_groups(c2, row, pen.mouse, groups);
        assert(spaced_out(groups, 0) =~= Seq::<char>::empty());
        assert(spaced_out(groups, 1) =~= l);
        let r = right_drawn(c2, row, pen.mouse, groups);
        assert(writes(r.last(), row.y, l));
        assert(d[r.len() - 1] == r.last());
    }
    assert(keeps(c2, d));
    if steps.back {
        assert(writes(c1.last(), row.y, PREV_LABEL@));
        assert(d[c1.len() - 1] == c1.last());
    }
    if play != PlayState::Loading {
        assert(d[c2.len() - 1] == c2.last());
    }
}

proof fn lemma_radio_edges(steps: RadioSteps)
    ensures
        radio_edges(steps) <= 18,
{
    reveal_strlit("◂◂ previous");
    a_narrow_text_takes_its_length(PREV_LABEL@);
    forward_labels_are_of_one_width(Forward::Next, Wear::Acts);
}

/// The bar is about the station that is on, else the record on the deck, else
/// says what to press to start one.
pub proof fn the_bar_is_about_what_is_on(c: Canvas, area: Rect, st: AppState, pen: Pen)
    requires
        area.width > 0,
        area.height > 1,
    ensures
        ({
            let d = bar_drawn(c, area, st, pen);
            let over = bar_ruled(c, area, st.wear);
            let body = area.band(1, (area.height - 1) as u16);
            &&& st.deck.radio matches Some(r) ==> d == station_bar_drawn(over, area, body, r, st, pen)
            &&& st.deck.radio is None ==> (st.deck.playback matches Some(pb) ==> d
                == record_bar_drawn(over, area, body, pb, st, pen))
            &&& st.deck.radio is None && st.deck.playback is None ==> writes(
                d.last(),
                body.y,
                idle_text(st.spotify_ready),
            )
        }),
{
    lemma_prints_alone(
        Seq::<Run>::empty().push(run(idle_text(st.spotify_ready), theme::dim())),
    );
}

/// The bar of a station tells it whole: what is on, that it is live or why it is
/// not, where to go from it, and whether it is saved.
#[verifier::spinoff_prover]
#[verifier::rlimit(60)]
pub proof fn the_bar_tells_its_station(
    c: Canvas,
    area: Rect,
    body: Rect,
    radio: RadioPlayback,
    st: AppState,
    pen: Pen,
)
    requires
        body.height >= DECK_H,
        station_text(body, radio).width >= 40,
    ensures
        ({
            let d = station_bar_drawn(c, area, body, radio, st, pen);
            let text = station_text(body, radio);
            let saved = exists|k: int|
                0 <= k < st.favorites@.len() && (#[trigger] st.favorites@[k]).uuid@
                    == radio.station.uuid@;
            let row = text.band(3, 1);
            &&& exists|w: nat| written(d, text.y, #[trigger] fitted(radio_title(radio), w))
            &&& drawn(d, OpView::Hit { area, target: Target::NowPlaying })
            &&& drawn(d, radio_status_drawn(c, row, radio, pen).last())
            &&& st.radio_steps.back ==> written(d, text.y.saturating_add(4), "◂◂ previous"@)
            &&& st.radio_steps.forward == RadioForward::Seek ==> written(
                d,
                text.y.saturating_add(4),
                "seek ▸▸"@,
            )
            &&& !radio.off_air && saved ==> written(d, text.y.saturating_add(6), "★ saved"@)
            &&& !radio.off_air && !saved ==> written(d, text.y.saturating_add(6), "★ save "@)
        }),
{
    let text = station_text(body, radio);
    let c1 = match radio.matched {
        Some(t) => if bar_has_sleeve(body) {
            sleeved(c, bar_sleeve(body), t, Picture::Playing)
        } else {
            c
        },
        None => c,
    };
    let liked = announced_like(radio, st.liked);
    a_station_writes_what_is_on(c1, text, radio, liked, st.spotify_ready, pen);
    let c2 = radio_mast_drawn(c1, text, radio, liked, st.spotify_ready, pen);
    let w = choose|w: nat| written(c2, text.y, #[trigger] fitted(radio_title(radio), w));
    let title = fitted(radio_title(radio), w);
    let wheel = OpView::Hit { area, target: Target::NowPlaying };
    let c3 = put_hit(c2, area, Target::NowPlaying);
    assert(c3.last() == wheel);
    assert(drawn(c3, wheel));
    let c4 = bar_toasted(c3, text, st);
    let row = text.band(3, 1);
    let c5 = radio_status_drawn(c4, row, radio, pen);
    let live = c5.last();
    assert(live == radio_status_drawn(c, row, radio, pen).last());
    assert(drawn(c5, live));
    let way = text.band(4, 1);
    let play = play_state(st.deck);
    a_station_offers_the_ways_there_are(c5, way, play, st.radio_steps, pen);
    let c6 = radio_transport_drawn(c5, way, play, st.radio_steps, pen);
    let under = text.band(6, 1);
    let saved = kept_station(st.favorites@, radio.station.uuid@);
    a_station_says_whether_it_is_saved(c6, under, radio, saved, None, pen);
    let d = station_bar_drawn(c, area, body, radio, st, pen);
    assert(d == station_row_drawn(c6, under, radio, saved, None, pen));
    assert(keeps(c3, c4));
    assert(keeps(c4, c5));
    assert(keeps(c2, d));
    lemma_keeps(c2, d, text.y, title, wheel);
    lemma_keeps(c3, d, text.y, title, wheel);
    lemma_keeps(c5, d, text.y, title, live);
    lemma_keeps(c6, d, way.y, "◂◂ previous"@, wheel);
    lemma_keeps(c6, d, way.y, "seek ▸▸"@, wheel);
    assert(written(d, text.y, fitted(radio_title(radio), w)));
}

/// A track page's band writes the page's name and how much there is of it, and
/// offers what the page does.
#[verifier::spinoff_prover]
#[verifier::rlimit(60)]
pub proof fn a_track_page_is_headed(
    c: Canvas,
    inner: Rect,
    list: TrackList,
    cover: Option<String>,
    loading: bool,
    controls: HeaderControls,
    pen: Pen,
)
    requires
        inner.height >= 8,
    ensures
        ({
            let d = band_drawn(c, inner, list, cover, loading, controls, pen);
            let art = wears_sleeve(inner, list.header);
            let text = text_area(inner, art);
            let stacked = stacked_in(inner, list.header);
            let at = text.band(controls_at(list.header, stacked), 1);
            let y = if stacked {
                text.band(blurb_row(list.header, stacked), 1).y
            } else {
                text.y
            };
            &&& written(
                d,
                text.y,
                list.header.name@ + (if list.header.subtitle@.len() > 0 && !stacked {
                    "  "@ + list.header.subtitle@
                } else {
                    Seq::<char>::empty()
                }),
            )
            &&& written(d, y, totals_text(list, loading))
            &&& writes(d.last(), at.y, printed(controls_row(c, at, controls, pen).line))
            &&& art && inner.width > 0 ==> drawn(
                d,
                OpView::Art {
                    area: inner.wide(20).tall(10),
                    clip: inner.wide(20).tall(10),
                    picture: band_picture(list.header, cover),
                    seed: list.header.name@,
                },
            )
        }),
{
    let art = wears_sleeve(inner, list.header);
    let stacked = stacked_in(inner, list.header);
    let text = text_area(inner, art);
    let c1 = if art {
        let a = art_area(inner);
        pictured(c, a, a, band_picture(list.header, cover), list.header.name@)
    } else {
        c
    };
    a_band_says_the_page(c1, text, list, loading, stacked, pen.mouse);
    let c2 = metadata_drawn(c1, text, list, loading, stacked, pen.mouse);
    lemma_metadata_keeps(c1, text, list, loading, stacked, pen.mouse);
    let at = text.band(controls_at(list.header, stacked), 1);
    let d = band_drawn(c, inner, list, cover, loading, controls, pen);
    assert(d == pills_drawn(c2, at, controls, pen));
    a_page_offers_its_controls(c2, at, controls, pen);
    a_page_offers_its_controls(c, at, controls, pen);
    lemma_pills_keep(c2, at, controls, pen);
    let totals = totals_text(list, loading);
    let y = if stacked {
        text.band(blurb_row(list.header, stacked), 1).y
    } else {
        text.y
    };
    assert(writes(c2[c2.len() - 1], y, totals));
    let name = list.header.name@ + (if list.header.subtitle@.len() > 0 && !stacked {
        "  "@ + list.header.subtitle@
    } else {
        Seq::<char>::empty()
    });
    assert(writes(c2[c1.len() as int], text.y, name));
    lemma_keeps(c2, d, text.y, name, c2.last());
    let op = OpView::Art {
        area: inner.wide(20).tall(10),
        clip: inner.wide(20).tall(10),
        picture: band_picture(list.header, cover),
        seed: list.header.name@,
    };
    if art && inner.width > 0 {
        assert(c1[c.len() as int] == op);
        assert(drawn(c1, op));
        lemma_keeps(c1, c2, y, totals, op);
    }
    lemma_keeps(c2, d, y, totals, op);
}

proof fn lemma_metadata_keeps(
    c: Canvas,
    text: Rect,
    list: TrackList,
    loading: bool,
    stacked: bool,
    mouse: Option<Position>,
)
    ensures
        keeps(c, metadata_drawn(c, text, list, loading, stacked, mouse)),
{
    let h = list.header;
    let note = totals_text(list, loading);
    let also = if h.subtitle@.len() > 0 && !stacked {
        Some(h.subtitle@)
    } else {
        None
    };
    let c1 = put_text(c, name_area(text, note_w(note, text, stacked)), name_runs(h.name@, also));
    let row = text.band(1, 1);
    let runs = credit_runs(h.credits@, 0, 0, credit_ink(h.credits@, row.width as usize));
    lemma_linked_keeps(c1, names_area(h.credits@, row), runs, runs.len(), Names::Header);
}

proof fn lemma_pills_keep(c: Canvas, area: Rect, controls: HeaderControls, pen: Pen)
    ensures
        keeps(c, pills_drawn(c, area, controls, pen)),
{
}

/// An artist's page draws its lines, every one of them, from the line it is
/// scrolled to: the tracks first, and then the records.
#[verifier::rlimit(60)]
pub proof fn an_artists_page_draws_its_lines(
    c: Canvas,
    body: Rect,
    v: ArtistView,
    index: usize,
    offset: usize,
    uri: Option<String>,
    liked: Kept,
    pen: Pen,
)
    ensures
        ({
            let d = artist_body_drawn(c, body, v, index, offset, uri, liked, pen);
            let lines = page_lines(
                v.top.display@.len(),
                v.albums.display@.len(),
                v.tabs@.len() > 1,
            );
            let at = clamp_offset(offset, lines.len() as usize, body.height as usize);
            exists|drawing: Drawing|
                {
                    &&& drawn(
                        d,
                        OpView::List {
                            id: ListId::Main,
                            area: body,
                            offset: at,
                            rows: #[trigger] line_rows(lines, drawing, v, liked, pen),
                        },
                    )
                    &&& drawing.index == index
                    &&& drawing.playing == playing_row(v.top, uri)
                    &&& drawing.sheet == (Sheet {
                        body,
                        split: v.top.display@.len() as usize,
                        cards: v.albums.display@.len() as usize,
                        strip: v.tabs@.len() > 1,
                        at,
                    })
                }
        }),
{
    let sheet = sheet_of(v, body, offset);
    let cells = top_cells(v, body);
    let lines = lines_in(v);
    let h = headed(
        cells,
        cells.len(),
        Some(v.top.sort),
        table_head(sheet),
        pen.mouse,
        body_recorded(c, sheet, v, pen),
    );
    let drawing = Drawing {
        sheet,
        cells,
        header: h.line,
        tabs: groups_laid(c, sheet, v, pen).line,
        hover: top_under(sheet, cells, v.top, pen.mouse),
        index,
        playing: playing_row(v.top, uri),
    };
    let op = OpView::List {
        id: ListId::Main,
        area: body,
        offset: sheet.at,
        rows: line_rows(lines, drawing, v, liked, pen),
    };
    let c1 = h.canvas.push(op);
    let c2 = if sheet.art() {
        sleeves_hung(c1, sheet, v.albums, v.albums.display@.len())
    } else {
        c1
    };
    lemma_sleeves_keep(c1, sheet, v.albums, v.albums.display@.len());
    assert(c2[h.canvas.len() as int] == op);
    let d = artist_body_drawn(c, body, v, index, offset, uri, liked, pen);
    assert(d[h.canvas.len() as int] == op);
    assert(drawn(d, op));
    let all = page_lines(v.top.display@.len(), v.albums.display@.len(), v.tabs@.len() > 1);
    assert(op == OpView::List {
        id: ListId::Main,
        area: body,
        offset: sheet.at,
        rows: line_rows(all, drawing, v, liked, pen),
    });
}

proof fn lemma_sleeves_keep(c: Canvas, sheet: Sheet, albums: SortedList<AlbumItem>, n: nat)
    ensures
        keeps(c, sleeves_hung(c, sheet, albums, n)),
    decreases n,
{
    if n > 0 {
        lemma_sleeves_keep(c, sheet, albums, (n - 1) as nat);
    }
}

/// The article's box is headed by the artist's name and lists the article the
/// box was opened for, wrapped to it.
pub proof fn the_box_lists_its_article(
    c: Canvas,
    screen: Rect,
    st: AppState,
    popup: BioPopup,
    pen: Pen,
)
    requires
        st.main matches MainView::Artist(v) && v.id@ == popup.artist_id@,
        bio_w(screen) > 3,
        bio_area(screen, popup).width > 3,
        bio_area(screen, popup).height >= 3,
    ensures
        ({
            let d = bio_drawn(c, screen, st, popup, pen);
            let area = bio_area(screen, popup);
            let w = (area.width - 3) as nat;
            &&& d[(c.len() + 1) as int] matches OpView::Frame { area: a, title, style } && a == area
                && title == bio_title(popup.name@, area)
            &&& d[(c.len() + 3) as int] matches OpView::List { id, area: a, offset, rows } && id
                == ListId::Bio && rows == prose_rows(wrapped(popup.text@, w)) && offset
                <= popup.offset
        }),
{
}

/// The home page lists its entries from the row it is scrolled to.
pub proof fn home_draws_its_entries(
    c: Canvas,
    inner: Rect,
    items: Seq<HomeEntry>,
    index: usize,
    offset: usize,
    mouse: Option<Position>,
)
    requires
        inner.width > 0,
        inner.height > 0,
        3 * items.len() <= usize::MAX,
    ensures
        ({
            let at = clamp_offset(offset, (3 * items.len()) as usize, inner.height as usize);
            home_drawn(c, inner, items, index, offset, mouse).last() == OpView::List {
                id: ListId::Main,
                area: inner,
                offset: at,
                rows: home_page(c, inner, items, items.len(), index, at, mouse).rows,
            }
        }),
{
}

/// A directory page is headed by its tabs and lists what the open one does:
/// countries or genres by name, and stations as stations, with what they play on
/// the saved ones.
#[verifier::rlimit(60)]
pub proof fn a_directory_lists_its_tab(c: Canvas, inner: Rect, v: RadioView, st: AppState, pen: Pen)
    requires
        inner.width > 0,
        inner.height >= 4,
        v.rows.display@.len() > 0,
    ensures
        ({
            let d = radio_page_drawn(c, inner, v, st, pen);
            let c1 = tabs_drawn(c, inner.tall(1), radio_tabs(), Tab::Radio(v.tab), pen);
            let body = inner.band(2, (inner.height - 2) as u16);
            let rows = all_rows(&v.rows);
            let facets = v.rows.items@[v.rows.display@[0] as int] is Facet;
            &&& facets ==> d == facet_table_drawn(
                c1,
                body,
                rows,
                v.tab == RadioTab::Genres,
                v.rows.sort,
                st.main_index,
                st.main_offset,
                pen,
            )
            &&& !facets && !v.favorites ==> d == station_table_drawn(
                c1,
                body,
                stations_upto(rows, rows.len()),
                st.favorites@,
                station_url(st),
                None,
                v.rows.sort,
                st.main_index,
                st.main_offset,
                pen,
            )
            &&& !facets && v.favorites ==> d == station_table_drawn(
                c1,
                body,
                stations_upto(rows, rows.len()),
                st.favorites@,
                station_url(st),
                Some(&board_of(st)),
                v.rows.sort,
                st.main_index,
                st.main_offset,
                pen,
            )
            &&& board_of(st).probed@ == st.radio_now@
            &&& board_of(st).live == live_of(st)
        }),
{
}

/// The tables of playlists, artists, stations and places draw the rows they are
/// given, under the columns of their kind.
pub proof fn tables_draw_their_own_rows(
    c: Canvas,
    inner: Rect,
    playlists: Seq<&Playlist>,
    artists: Seq<&ArtistItem>,
    places: Seq<&RadioRow>,
    stations: Seq<&Station>,
    favorites: Seq<Station>,
    me: Option<String>,
    context: Option<String>,
    url: Option<String>,
    now: Option<&NowBoard>,
    genres: bool,
    sort: Sort,
    index: usize,
    offset: usize,
    pen: Pen,
)
    ensures
        ({
            let w = inner.width as usize;
            let p = plan(playlist_columns(), w, 0).cells();
            let a = plan(artist_columns(), w, 0).cells();
            let s = plan(station_columns(now is Some), w, 0).cells();
            let label = if genres {
                "Genre"
            } else {
                "Country"
            };
            let f = plan(facet_columns(label, !genres), w, 0).cells();
            &&& playlist_table_drawn(c, inner, playlists, sort, me, context, index, offset, pen)
                == table_drawn(
                c,
                inner,
                p,
                sort,
                offset,
                playlist_rows(playlists, p, me, context, index, pen.accent),
                pen.mouse,
            )
            &&& artist_table_drawn(c, inner, artists, sort, index, offset, pen) == table_drawn(
                c,
                inner,
                a,
                sort,
                offset,
                artist_rows(artists, a, index),
                pen.mouse,
            )
            &&& facet_table_drawn(c, inner, places, genres, sort, index, offset, pen)
                == table_drawn(
                c,
                inner,
                f,
                sort,
                offset,
                facet_rows(places, f, index),
                pen.mouse,
            )
            &&& station_table_drawn(
                c,
                inner,
                stations,
                favorites,
                url,
                now,
                sort,
                index,
                offset,
                pen,
            ) == table_drawn(
                c,
                inner,
                s,
                sort,
                offset,
                station_rows(stations, s, favorites, url, now, index, pen.accent),
                pen.mouse,
            )
        }),
{
}

/// A table of albums draws every one of them, from the row it is scrolled to.
#[verifier::rlimit(60)]
pub proof fn an_album_table_draws_its_rows(
    c: Canvas,
    inner: Rect,
    rows: SortedList<AlbumItem>,
    context: Option<String>,
    index: usize,
    offset: usize,
    pen: Pen,
)
    requires
        0 < rows.display@.len() <= usize::MAX,
    ensures
        exists|op: OpView, under: (bool, Option<HoverCol>), at: int|
            {
                &&& drawn(album_table_drawn(c, inner, rows, context, index, offset, pen), op)
                &&& #[trigger] lists(
                    op,
                    below_header(inner),
                    clamp_offset(
                        offset,
                        rows.display@.len() as usize,
                        below_header(inner).height as usize,
                    ),
                    album_rows(
                        rows,
                        plan(album_columns(), inner.width as usize, 0).cells(),
                        context,
                        index,
                        under,
                        at,
                        pen.accent,
                    ),
                )
            },
{
    let len = rows.display@.len() as usize;
    let cells = plan(album_columns(), inner.width as usize, 0).cells();
    let c1 = header_drawn(c, cells, inner, Some(rows.sort), pen.mouse);
    let area = table_rows(inner, len);
    let at = clamp_offset(offset, len, area.height as usize);
    let n = albums_shown(len, at, area.height);
    let c2 = album_cells_recorded(put_hit(c1, area, Target::MainList), cells, area, rows, at, n);
    let under = album_under(cells, area, rows, at, n, pen.mouse);
    let row = row_at(pen.mouse, area.y, at);
    let listed = album_rows(rows, cells, context, index, under, row, pen.accent);
    a_list_is_drawn_as_it_is_scrolled(c2, area, at, listed, pen.mouse);
    let d = album_table_drawn(c, inner, rows, context, index, offset, pen);
    assert(d == rows_listed(c2, area, at, listed, pen.mouse));
    let op = d[c2.len() as int];
    assert(drawn(d, op));
    assert(lists(op, area, at, listed));
}

/// The player of a station tells it as the bar does.
#[verifier::spinoff_prover]
#[verifier::rlimit(60)]
pub proof fn the_player_tells_its_station(
    c: Canvas,
    inner: Rect,
    rows: Rows,
    radio: RadioPlayback,
    st: AppState,
    pen: Pen,
)
    requires
        inner.width >= 40,
        rows.header > 0,
        rows.progress > 0,
        rows.transport > 0,
        rows.list_head > 0,
    ensures
        ({
            let d = station_stack_drawn(c, inner, rows, radio, st, pen);
            let at = above_progress(rows);
            let pad = if rows.art > 0 {
                1u16
            } else {
                2u16
            };
            let row = inner.band(at.saturating_add(pad), 1);
            let under = at.saturating_add(rows.progress).saturating_add(rows.transport);
            let saved = exists|k: int|
                0 <= k < st.favorites@.len() && (#[trigger] st.favorites@[k]).uuid@
                    == radio.station.uuid@;
            &&& exists|w: nat| written(d, inner.y, #[trigger] fitted(radio_title(radio), w))
            &&& drawn(d, radio_status_drawn(c, row, radio, pen).last())
            &&& !radio.off_air && saved ==> written(d, inner.y.saturating_add(under), "★ saved"@)
            &&& !radio.off_air && !saved ==> written(d, inner.y.saturating_add(under), "★ save "@)
        }),
{
    let header = inner.band(0, rows.header);
    let liked = announced_like(radio, st.liked);
    a_station_writes_what_is_on(c, header, radio, liked, st.spotify_ready, pen);
    let m = radio_mast_drawn(c, header, radio, liked, st.spotify_ready, pen);
    let w = choose|w: nat| written(m, header.y, #[trigger] fitted(radio_title(radio), w));
    let title = fitted(radio_title(radio), w);
    let c1 = station_head_drawn(c, header, radio, st, pen);
    assert(keeps(m, c1));
    let c2 = station_block_drawn(c1, inner, rows, radio);
    assert(keeps(c1, c2));
    let at = above_progress(rows);
    let pad = if rows.art > 0 {
        1u16
    } else {
        PROGRESS_PAD
    };
    let row = inner.band(at.saturating_add(pad), 1);
    let c3 = radio_status_drawn(c2, row, radio, pen);
    assert(keeps(c2, c3));
    let live = c3.last();
    assert(live == radio_status_drawn(c, row, radio, pen).last());
    assert(drawn(c3, live));
    let at = at.saturating_add(rows.progress);
    let way = inner.band(at, 1);
    let play = play_state(st.deck);
    a_station_offers_the_ways_there_are(c3, way, play, st.radio_steps, pen);
    let c4 = radio_transport_drawn(c3, way, play, st.radio_steps, pen);
    let under = inner.band(at.saturating_add(rows.transport), 1);
    let saved = kept_station(st.favorites@, radio.station.uuid@);
    let fold = Some(st.list_folded);
    a_station_says_whether_it_is_saved(c4, under, radio, saved, fold, pen);
    let d = station_stack_drawn(c, inner, rows, radio, st, pen);
    assert(d == station_row_drawn(c4, under, radio, saved, fold, pen));
    assert(keeps(m, d));
    lemma_keeps(m, d, header.y, title, live);
    lemma_keeps(c3, d, header.y, title, live);
    assert(written(d, inner.y, fitted(radio_title(radio), w)));
}

/// The head of a screen writes the mark at its left, which leads home, and at its
/// right what is on, where the row has the room for it.
#[verifier::spinoff_prover]
#[verifier::rlimit(60)]
pub proof fn the_head_writes_the_mark_and_the_status(
    c: Canvas,
    row: Rect,
    deck: Deck,
    wear: Wear,
    min_field: u16,
    pen: Pen,
)
    ensures
        ({
            let d = head_drawn(c, row, deck, wear, min_field, pen);
            let mark = brand_rect(row, pen.accent);
            let status = status_runs(deck, wear, pen);
            let kept = status_kept(row, mark_room(mark), status, min_field);
            &&& keeps(c, d)
            &&& drawn(d, OpView::Hit { area: mark, target: Target::Home })
            &&& !mark.is_empty() ==> written(d, row.y, "♫ spot"@)
            &&& kept && groups_w(seq![status]) <= row.width ==> written(
                d,
                row.y,
                printed(status),
            )
            &&& !kept ==> d.last() == (OpView::Hit { area: Rect::zero(), target: Target::Status })
        }),
{
    let mark = brand_rect(row, pen.accent);
    let parts = brand_runs(pen.accent);
    the_mark_says_its_name(pen.accent);
    light_changes_no_text(
        Seq::empty(),
        row.x,
        row,
        pen.mouse,
        parts,
        Seq::empty(),
        theme::text(),
        false,
    );
    assert(printed(Seq::<Run>::empty()) + printed(parts) =~= printed(parts));
    let c1 = branded(c, row, pen);
    let rect = segment_rect(row.x, row, parts);
    let c2 = put_hit(c1, mark, Target::Home);
    let home = OpView::Hit { area: mark, target: Target::Home };
    assert(c2.last() == home);
    assert(drawn(c2, home));
    if !mark.is_empty() {
        assert(writes(c2[c.len() as int], row.y, "♫ spot"@));
    }
    let status = status_runs(deck, wear, pen);
    let groups = seq![status];
    a_right_row_prints_its_groups(c2, row, pen.mouse, groups);
    assert(spaced_out(groups, 0) =~= Seq::<char>::empty());
    assert(spaced_out(groups, 1) =~= printed(status));
    let d = head_drawn(c, row, deck, wear, min_field, pen);
    assert(keeps(c2, d));
    lemma_keeps(c2, d, row.y, "♫ spot"@, home);
    if status_kept(row, mark_room(mark), status, min_field) && groups_w(groups) <= row.width {
        let r = right_drawn(c2, row, pen.mouse, groups);
        assert(d[r.len() - 1] == r.last());
        assert(writes(d[r.len() - 1], row.y, printed(status)));
    }
}

/// The path on a screen is that of the open page, and its last step leads back
/// from the player and from nowhere else.
pub proof fn the_path_is_the_pages(
    c: Canvas,
    trail: Rect,
    st: AppState,
    page: PageNote,
    pen: Pen,
)
    requires
        trail.width > 0,
    ensures
        ({
            let d = steps_on(c, trail, st, page, pen);
            let (shown, ellipsis) = fitted_path(st.trail@, page.loading, trail.width, pen.accent);
            let steps = path_steps(shown, page.loading, ellipsis, pen.accent);
            &&& writes(d[d.len() - 2], trail.y, steps_text(steps, steps.len()))
            &&& d.last() matches OpView::Hit { area, target } && target == Target::ClosePlayer
        }),
{
    let (shown, ellipsis) = fitted_path(st.trail@, page.loading, trail.width, pen.accent);
    let steps = path_steps(shown, page.loading, ellipsis, pen.accent);
    a_path_is_printed_in_order(c, steps, steps.len(), trail, st.show_player, pen.mouse);
}

/// The picker's box is over its field, its rows and its way out, in that order.
#[verifier::rlimit(60)]
pub proof fn the_picker_is_laid_out(c: Canvas, screen: Rect, p: PlaylistPicker, pen: Pen)
    requires
        picker_area(screen, p, pen).width >= 3,
        picker_area(screen, p, pen).height >= 3,
    ensures
        ({
            let d = picker_drawn(c, screen, p, pen);
            let inner = inside(picker_area(screen, p, pen));
            &&& d[(c.len() + 1) as int] matches OpView::Frame { area, title, style } && title
                == " Add to playlist "@ && area == picker_area(screen, p, pen)
            &&& d[(c.len() + 4) as int] == query_drawn(c, inner.tall(1), p.query@, pen).last()
            &&& d[(c.len() + 5) as int] == OpView::Hit {
                area: inner.tall(1),
                target: Target::PickerField,
            }
            &&& picker_status(p, pen) matches Some(line) ==> (d.last() matches OpView::Text {
                area,
                place,
                line: l,
            } && l == line)
        }),
{
    let area = picker_area(screen, p, pen);
    let c1 = framed(c, area, " Add to playlist "@, pen.accent);
    let inner = inside(area);
    let field = inner.tall(1);
    let c2 = put_hit(query_drawn(c1, field, p.query@, pen), field, Target::PickerField);
    let d = picker_drawn(c, screen, p, pen);
    assert(keeps(c2, d));
    assert(d[(c.len() + 1) as int] == c2[(c.len() + 1) as int]);
    assert(d[(c.len() + 4) as int] == c2[(c.len() + 4) as int]);
    assert(d[(c.len() + 5) as int] == c2[(c.len() + 5) as int]);
}

} // verus!
