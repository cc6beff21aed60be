//! The rows the bottom bar and the full player both draw.
//!
//! A masthead saying what is playing, a progress track, a transport row, and a
//! row naming the queue that feeds them. Each view decides how many rows it can
//! spare and where its own content goes between them.

use vstd::prelude::*;
use vstd::string::*;

use crate::columns::word;
use crate::geometry::{max16, min16, min_usize, Position, Rect};
use crate::play_state::{PlayState, RadioForward, RadioSteps};
use crate::scene::{
    line_cells, line_w, put_hit, put_text, run, Canvas, Line, Op, OpView, Picture, Run, Scene,
    Strip, Target,
};
use crate::state::{
    a_reading_is_the_time, credit_names, duration_text, format_duration, reads_as, Credit, Kept,
    Pen, Queue, RadioPlayback, Track, Wear,
};
use crate::table::{
    a_right_row_prints_its_groups, a_track_is_filled_so_far, art_w, credit_ink, credit_line,
    credit_links, credit_pieces, credit_row, credit_row_prints_its_cell, credit_runs,
    credit_spans, credit_under, draw_art, draw_volume, groups_cells, groups_of, groups_w,
    hovered_credit, lemma_prints_alone, lemma_prints_both, light_changes_no_text, link,
    link_cells, link_rect, linked, meter, meter_runs, pictured, printed, right_drawn,
    right_rects, right_row, segment, segment_rect, spaced_out, state_runs, state_spans,
    volume_drawn, volume_rect, with_link, with_segment, CreditRun, Names, LIKED_MARK,
    SHARE_MARK,
};
use crate::text::{
    a_narrow_text_takes_its_length, a_number_reads_back, cells, clipped, copies, dec, decimal,
    digits_alone, fit, fitted, index_at, joined, low16, low_half, number_in, text_cells,
    trim_end, trimmed, width, width_of,
};
use crate::theme;
use crate::theme::Style;

verus! {

/// Rows a masthead occupies: the title, and the metadata under it.
pub const MASTHEAD_H: u16 = 2;

/// Rows the whole deck occupies drawn as one block.
pub const DECK_H: u16 = 7;

/// Time labels flanking the progress track.
pub const TIME_W: u16 = 11;

pub const PREV_LABEL: &'static str = "◂◂ previous";

pub const NEXT_LABEL: &'static str = "next ▸▸";

/// The same control on a transport that reports.
pub const AHEAD_LABEL: &'static str = "▸▸ next";

/// What the radio transport's right-hand button says with no station to step
/// forward to.
pub const SEEK_LABEL: &'static str = "seek ▸▸";

/// The forward control where the station that played the record comes next.
pub const LIVE_FORWARD_LABEL: &'static str = "live ▸▸";

/// The control back to the broadcast.
pub const LIVE_LABEL: &'static str = "◂ live";

/// The control that opens the add-to-playlist box.
pub const ADD_LABEL: &'static str = "+ add";

/// Where the transport's forward control leads.
#[derive(Debug, Clone, Copy, PartialEq, Eq, Structural)]
pub enum Forward {
    /// The next record of the queue.
    Next,
    /// The broadcast of the station this record came off.
    Live,
}

impl Default for Forward {
    fn default() -> (r: Forward)
        ensures
            r == Forward::Next,
    {
        Forward::Next
    }
}

impl Forward {
    #[verifier::allow_in_spec]
    pub fn label(self, wear: Wear) -> &'static str
        returns
            (match (self, wear) {
                (Forward::Next, Wear::Acts) => NEXT_LABEL,
                (Forward::Next, Wear::Reports) => AHEAD_LABEL,
                (Forward::Live, _) => LIVE_FORWARD_LABEL,
            }),
    {
        match (self, wear) {
            (Forward::Next, Wear::Acts) => NEXT_LABEL,
            (Forward::Next, Wear::Reports) => AHEAD_LABEL,
            (Forward::Live, _) => LIVE_FORWARD_LABEL,
        }
    }
}

/// Every forward control takes the same seven cells, so the row does not move
/// between them.
pub proof fn forward_labels_are_of_one_width(forward: Forward, wear: Wear)
    ensures
        cells(forward.label(wear)@) == 7,
        text_cells(forward.label(wear)@) == 7,
        cells(SEEK_LABEL@) == 7,
        text_cells(SEEK_LABEL@) == 7,
{
    reveal_strlit("next ▸▸");
    reveal_strlit("▸▸ next");
    reveal_strlit("seek ▸▸");
    reveal_strlit("live ▸▸");
    a_narrow_text_takes_its_length(forward.label(wear)@);
    a_narrow_text_takes_its_length(SEEK_LABEL@);
}

/// The liked control, in both its states.
pub open spec fn like_text(liked: bool) -> Seq<char> {
    LIKED_MARK@ + (if liked {
        " liked"@
    } else {
        " like"@
    })
}

pub fn like_label(liked: bool) -> (r: String)
    ensures
        r@ == like_text(liked),
{
    joined(LIKED_MARK, if liked { " liked" } else { " like" })
}

/// The control that copies the record's link.
pub open spec fn share_text() -> Seq<char> {
    SHARE_MARK@ + " share"@
}

pub fn share_label() -> (r: String)
    ensures
        r@ == share_text(),
{
    joined(SHARE_MARK, " share")
}

/// The station control, in both its states, padded to one width.
pub open spec fn save_text(saved: bool) -> Seq<char> {
    LIKED_MARK@ + (if saved {
        " saved"@
    } else {
        " save "@
    })
}

pub fn save_label(saved: bool) -> (r: String)
    ensures
        r@ == save_text(saved),
{
    joined(LIKED_MARK, if saved { " saved" } else { " save " })
}

/// The station control is as wide saved as not, so it does not move out from
/// under the pointer that pressed it.
pub proof fn the_save_control_keeps_its_width(saved: bool)
    ensures
        cells(save_text(saved)) == 7,
        text_cells(save_text(saved)) == 7,
{
    reveal_strlit("★");
    reveal_strlit(" saved");
    reveal_strlit(" save ");
    a_narrow_text_takes_its_length(save_text(saved));
}

/// The controls of a title row at a rung of what it can seat: all of them, all
/// but the share, or the liked one alone.
pub open spec fn title_groups(liked: Option<bool>, add: bool, rung: nat, accent: u32) -> Seq<
    Seq<Run>,
> {
    let none = Seq::<Seq<Run>>::empty();
    let with_like = match liked {
        Some(b) => none.push(
            Seq::<Run>::empty().push(
                run(
                    like_text(b),
                    if b {
                        theme::accent(accent)
                    } else {
                        theme::dim()
                    },
                ),
            ),
        ),
        None => none,
    };
    let with_share = if add && rung == 0 {
        with_like.push(Seq::<Run>::empty().push(run(share_text(), theme::dim())))
    } else {
        with_like
    };
    if add && rung != 2 {
        with_share.push(Seq::<Run>::empty().push(run(ADD_LABEL@, theme::dim())))
    } else {
        with_share
    }
}

fn title_parts(liked: Option<bool>, add: bool, rung: u8, accent: u32) -> (groups: Vec<Line>)
    ensures
        groups_of(groups@) == title_groups(liked, add, rung as nat, accent),
        groups@.len() == title_groups(liked, add, rung as nat, accent).len(),
{
    let mut groups: Vec<Line> = Vec::new();
    match liked {
        Some(b) => {
            let style = if b { theme::accent(accent) } else { theme::dim() };
            groups.push(Line::of(like_label(b), style));
        },
        None => {},
    }
    if add && rung == 0 {
        groups.push(Line::of(share_label(), theme::dim()));
    }
    if add && rung != 2 {
        groups.push(Line::of(ADD_LABEL.to_owned(), theme::dim()));
    }
    assert(groups_of(groups@) =~= title_groups(liked, add, rung as nat, accent));
    groups
}

/// The canvas once a title row has settled from rung `k` on, and the rung it
/// settled at; none, once there is nothing left to offer.
pub open spec fn title_settled(
    c: Canvas,
    row: Rect,
    liked: Option<bool>,
    add: bool,
    pen: Pen,
    k: nat,
) -> (Canvas, Option<nat>)
    decreases 3 - k,
{
    let wanted = title_groups(liked, add, k, pen.accent);
    if wanted.len() == 0 || k > 2 {
        (c, None)
    } else {
        let drawn = right_drawn(c, row, pen.mouse, wanted);
        if k == 2 || !right_rects(row, pen.mouse, wanted)[0].is_empty() {
            (drawn, Some(k))
        } else {
            title_settled(drawn, row, liked, add, pen, k + 1)
        }
    }
}

/// The first rect of `rects[i..]` that is not empty.
pub open spec fn first_filled(rects: Seq<Rect>, i: int) -> Option<Rect>
    decreases rects.len() - i,
{
    if i < 0 || i >= rects.len() {
        None
    } else if !rects[i].is_empty() {
        Some(rects[i])
    } else {
        first_filled(rects, i + 1)
    }
}

/// Rect `i`, or none of the screen.
pub open spec fn nth_rect(rects: Seq<Rect>, i: int) -> Rect {
    if 0 <= i < rects.len() {
        rects[i]
    } else {
        Rect::zero()
    }
}

/// The cells from the first control of a row to its right edge.
pub open spec fn controls_w(row: Rect, rects: Seq<Rect>) -> u16 {
    match first_filled(rects, 0) {
        Some(r) => row.right().saturating_sub(r.x),
        None => 0,
    }
}

/// The rects of a title row's controls, once it has settled.
pub open spec fn title_rects(
    c: Canvas,
    row: Rect,
    liked: Option<bool>,
    add: bool,
    pen: Pen,
) -> Seq<Rect> {
    match title_settled(c, row, liked, add, pen, 0).1 {
        Some(k) => right_rects(row, pen.mouse, title_groups(liked, add, k, pen.accent)),
        None => Seq::empty(),
    }
}

/// The cells a title row's controls take.
pub open spec fn title_w(c: Canvas, row: Rect, liked: Option<bool>, add: bool, pen: Pen) -> u16 {
    controls_w(row, title_rects(c, row, liked, add, pen))
}

/// The canvas with a title row's controls drawn and recorded.
pub open spec fn titled(
    c: Canvas,
    row: Rect,
    liked: Option<bool>,
    add: bool,
    pen: Pen,
) -> Canvas {
    let (drawn, rung) = title_settled(c, row, liked, add, pen, 0);
    match rung {
        None => drawn,
        Some(k) => {
            let rects = title_rects(c, row, liked, add, pen);
            let first: int = if liked is Some {
                1
            } else {
                0
            };
            let c1 = if liked is Some {
                put_hit(drawn, nth_rect(rects, 0), Target::Like)
            } else {
                drawn
            };
            let share = if k == 0 {
                nth_rect(rects, first)
            } else {
                Rect::zero()
            };
            let last = if k == 0 {
                first + 1
            } else {
                first
            };
            put_hit(
                put_hit(c1, share, Target::Share),
                nth_rect(rects, last),
                Target::AddTo,
            )
        },
    }
}

fn rect_at(rects: &Vec<Rect>, i: usize) -> (r: Rect)
    ensures
        r == nth_rect(rects@, i as int),
{
    if i < rects.len() {
        rects[i]
    } else {
        Rect::zero()
    }
}

fn controls_width(row: Rect, rects: &Vec<Rect>) -> (w: u16)
    ensures
        w == controls_w(row, rects@),
{
    let mut i: usize = 0;
    while i < rects.len()
        invariant
            i <= rects@.len(),
            first_filled(rects@, 0) == first_filled(rects@, i as int),
        decreases rects@.len() - i,
    {
        if !rects[i].is_empty() {
            return row.right().saturating_sub(rects[i].x);
        }
        i = i + 1;
    }
    0
}

/// Draw the title row's controls and return the cells they took.
///
/// A row that cannot hold all three is offered fewer, a rung at a time. The
/// share goes first; the liked control is never dropped this way.
#[verifier::loop_isolation(false)]
fn title_controls(
    scene: &mut Scene,
    row: Rect,
    liked: Option<bool>,
    add: bool,
    pen: Pen,
) -> (w: u16)
    ensures
        final(scene)@ == titled(old(scene)@, row, liked, add, pen),
        w == title_w(old(scene)@, row, liked, add, pen),
{
    let ghost c = scene@;
    let ghost settled = title_settled(c, row, liked, add, pen, 0);
    let mut k: u8 = 0;
    let mut drawn: Vec<Rect> = Vec::new();
    let mut open: bool = true;
    while open
        invariant
            k <= 2,
            open ==> title_settled(scene@, row, liked, add, pen, k as nat) == settled,
            !open ==> settled == (scene@, Some(k as nat)),
            !open ==> drawn@ == right_rects(
                row,
                pen.mouse,
                title_groups(liked, add, k as nat, pen.accent),
            ),
            !open ==> drawn@.len() > 0,
        decreases 3 - k, (if open { 1int } else { 0 }),
    {
        let wanted = title_parts(liked, add, k, pen.accent);
        if wanted.len() == 0 {
            assert(settled == (scene@, None::<nat>));
            assert(first_filled(Seq::<Rect>::empty(), 0) is None);
            return 0;
        }
        drawn = right_row(scene, row, pen.mouse, wanted);
        if k == 2 || !drawn[0].is_empty() {
            open = false;
        } else {
            k = k + 1;
        }
    }
    let w: u16 = controls_width(row, &drawn);
    let first: usize = if liked.is_some() { 1 } else { 0 };
    if liked.is_some() {
        scene.hit(rect_at(&drawn, 0), Target::Like);
    }
    let share = if k == 0 { rect_at(&drawn, first) } else { Rect::zero() };
    scene.hit(share, Target::Share);
    scene.hit(rect_at(&drawn, if k == 0 { first + 1 } else { first }), Target::AddTo);
    w
}

/// What the player says when nothing is playing.
pub open spec fn idle_text(spotify_ready: bool) -> Seq<char> {
    "nothing playing — press Enter on "@ + (if spotify_ready {
        "a track"@
    } else {
        "a station"@
    }) + " to start"@
}

/// What the player says when nothing is playing. It names what there is to
/// press Enter on.
pub fn no_playback_hint(scene: &mut Scene, area: Rect, spotify_ready: bool)
    ensures
        final(scene)@ == put_text(
            old(scene)@,
            area.tall(1),
            Seq::empty().push(run(idle_text(spotify_ready), theme::dim())),
        ),
{
    let head = joined(
        "nothing playing — press Enter on ",
        if spotify_ready { "a track" } else { "a station" },
    );
    let text = joined(head.as_str(), " to start");
    scene.text(area.tall(1), Line::of(text, theme::dim()));
}

/// What picks a track's stand-in: its album, so that it does not change between
/// tracks of one sleeve.
pub open spec fn sleeve_seed(track: Track) -> String {
    match track.album_id {
        Some(id) => id,
        None => track.name,
    }
}

/// The cells of a sleeve at the left of `area`: square on screen.
#[verifier::allow_in_spec]
pub fn sleeve_rect(area: Rect) -> Rect
    returns
        area.wide(min16(art_w(area.height), area.width)),
{
    area.wide(min16(art_w(area.height), area.width))
}

/// The canvas with a sleeve on it.
pub open spec fn sleeved(c: Canvas, area: Rect, track: Track, picture: Picture) -> Canvas {
    let art = sleeve_rect(area);
    let seed = sleeve_seed(track);
    put_hit(pictured(c, art, art, picture, seed@), art, Target::Sleeve { seed })
}

/// Cover art filling `area`'s height, flush with its left edge, which a click
/// expands. Returns the rect it painted.
pub fn sleeve(scene: &mut Scene, area: Rect, track: &Track, picture: Picture) -> (r: Rect)
    ensures
        final(scene)@ == sleeved(old(scene)@, area, *track, picture),
        r == sleeve_rect(area),
{
    let art = sleeve_rect(area);
    let seed = match &track.album_id {
        Some(id) => id.clone(),
        None => track.name.clone(),
    };
    let again = seed.clone();
    draw_art(scene, art, picture, again);
    scene.hit(art, Target::Sleeve { seed });
    art
}

/// A metadata segment cut to the row, without padding.
pub open spec fn clip_text(s: Seq<char>, meta: Rect) -> Seq<char> {
    trimmed(fitted(s, meta.width as nat))
}

fn clip(s: &str, meta: Rect) -> (r: String)
    ensures
        r@ == clip_text(s@, meta),
{
    clipped(s, meta.width as usize)
}

/// Whether the next metadata segment fits the row whole.
pub open spec fn sep_fits(s: Strip, next: Seq<char>, meta: Rect) -> bool {
    s.x + (if s.line.len() == 0 {
        0int
    } else {
        3
    }) + low16(width_of(next) as int) <= meta.right()
}

/// A row with the separator after it, where there is anything before it.
pub open spec fn separated(s: Strip) -> Strip {
    if s.line.len() == 0 {
        s
    } else {
        Strip {
            line: s.line.push(run(" · "@, theme::dim())),
            x: s.x.saturating_add(3),
            canvas: s.canvas,
        }
    }
}

/// Make room for the next metadata segment, or say there is none. A segment is
/// dropped whole rather than cut.
fn sep(line: &mut Line, x: &mut u16, next: &str, meta: Rect) -> (r: bool)
    ensures
        forall|c: Canvas|
            r == sep_fits(#[trigger] strip(old(line)@, *old(x), c), next@, meta),
        r ==> forall|c: Canvas|
            (#[trigger] strip(final(line)@, *final(x), c)) == separated(
                strip(old(line)@, *old(x), c),
            ),
        !r ==> final(line)@ == old(line)@ && *final(x) == *old(x),
{
    let first: bool = line.len() == 0;
    let reach: u32 = *x as u32 + (if first { 0u32 } else { 3u32 }) + low_half(width(next)) as u32;
    if reach > meta.right() as u32 {
        return false;
    }
    if !first {
        line.print(" · ", theme::dim());
        *x = x.saturating_add(3);
    }
    true
}

/// A row in the making.
pub open spec fn strip(line: Seq<Run>, x: u16, canvas: Canvas) -> Strip {
    Strip { line, x, canvas }
}

/// The credit line as printed on a metadata row.
pub open spec fn credit_text(credits: Seq<Credit>, meta: Rect) -> Seq<char> {
    trimmed(fitted(credit_names(credits), meta.width as nat))
}

/// The runs of the credit line on a metadata row.
pub open spec fn credit_parts(credits: Seq<Credit>, meta: Rect) -> Seq<CreditRun> {
    credit_runs(credits, 0, 0, credit_ink(credits, meta.width as usize))
}

/// The cells the credit line takes on a metadata row.
pub open spec fn credit_cells(s: Strip, credits: Seq<Credit>, meta: Rect) -> Rect {
    (Rect {
        x: s.x,
        y: meta.y,
        width: low16(width_of(credit_text(credits, meta)) as int),
        height: 1,
    }).intersection(meta)
}

/// A row with the credited names after it, each its own target.
pub open spec fn credited(s: Strip, credits: Seq<Credit>, meta: Rect, pen: Pen) -> Strip {
    let cell = credit_text(credits, meta);
    let runs = credit_parts(credits, meta);
    let rect = credit_cells(s, credits, meta);
    Strip {
        line: s.line + credit_row(
            cell,
            runs,
            theme::text(),
            credit_under(rect, runs, pen.mouse),
        ),
        x: s.x.saturating_add(rect.width),
        canvas: linked(s.canvas, rect, runs, runs.len(), Names::Now),
    }
}

/// The credited artists as the row's first metadata segment.
fn credit_segment(
    scene: &mut Scene,
    line: &mut Line,
    x: &mut u16,
    meta: Rect,
    credits: &Vec<Credit>,
    pen: Pen,
)
    ensures
        strip(final(line)@, *final(x), final(scene)@) == credited(
            strip(old(line)@, *old(x), old(scene)@),
            credits@,
            meta,
            pen,
        ),
{
    let (cell, runs) = credit_line(credits, meta.width as usize);
    let cell = trim_end(cell.as_str());
    let rect = (Rect {
        x: *x,
        y: meta.y,
        width: low_half(width(cell.as_str())),
        height: 1,
    }).intersection(meta);
    let hovered = hovered_credit(rect, &runs, pen.mouse);
    line.extend(credit_spans(cell.as_str(), &runs, theme::text(), hovered));
    credit_links(rect, &runs, Names::Now, scene);
    *x = x.saturating_add(rect.width);
}

/// A row with a link after it, where it fits, and the link recorded.
pub open spec fn link_segment(
    s: Strip,
    text: Seq<char>,
    meta: Rect,
    style: Style,
    clickable: bool,
    target: Target,
    mouse: Option<Position>,
) -> Strip {
    if sep_fits(s, text, meta) {
        let t = separated(s);
        Strip {
            line: with_link(t.line, t.x, meta, mouse, text, style, clickable),
            x: t.x.saturating_add(link_cells(t.x, meta, text).width),
            canvas: put_hit(t.canvas, link_rect(t.x, meta, text, clickable), target),
        }
    } else {
        s
    }
}

fn put_link(
    scene: &mut Scene,
    line: &mut Line,
    x: &mut u16,
    text: String,
    meta: Rect,
    style: Style,
    clickable: bool,
    target: Target,
    mouse: Option<Position>,
)
    ensures
        strip(final(line)@, *final(x), final(scene)@) == link_segment(
            strip(old(line)@, *old(x), old(scene)@),
            text@,
            meta,
            style,
            clickable,
            target,
            mouse,
        ),
{
    let ghost before = strip(line@, *x, scene@);
    if sep(line, x, text.as_str(), meta) {
        assert(strip(line@, *x, scene@) == separated(before));
        let rect = link(line, x, meta, mouse, text, style, clickable);
        scene.hit(rect, target);
    }
    assert(before == strip(before.line, before.x, before.canvas));
}

/// A row with a plain dim segment after it, where there is one and it fits.
pub open spec fn note_segment(s: Strip, text: Seq<char>, meta: Rect) -> Strip {
    if text.len() > 0 && sep_fits(s, text, meta) {
        let t = separated(s);
        Strip { line: t.line.push(run(text, theme::dim())), x: t.x, canvas: t.canvas }
    } else {
        s
    }
}

fn put_note(line: &mut Line, x: &mut u16, text: &String, meta: Rect)
    ensures
        forall|c: Canvas|
            (#[trigger] strip(final(line)@, *final(x), c)) == note_segment(
                strip(old(line)@, *old(x), c),
                text@,
                meta,
            ),
{
    let ghost before = line@;
    let ghost x0 = *x;
    if text.as_str().unicode_len() > 0 && sep(line, x, text.as_str(), meta) {
        assert forall|c: Canvas| (#[trigger] strip(line@, *x, c)) == separated(
            strip(before, x0, c),
        ) by {}
        let ghost mid = line@;
        line.put(text.clone(), theme::dim());
        assert forall|c: Canvas| (#[trigger] strip(line@, *x, c)) == note_segment(
            strip(before, x0, c),
            text@,
            meta,
        ) by {
            assert(strip(mid, *x, c) == separated(strip(before, x0, c)));
            assert(sep_fits(strip(before, x0, c), text@, meta));
        }
    } else {
        assert forall|c: Canvas| (#[trigger] strip(line@, *x, c)) == note_segment(
            strip(before, x0, c),
            text@,
            meta,
        ) by {}
    }
}

/// The metadata row of a record: its artists, its album, its year.
pub open spec fn record_strip(c: Canvas, meta: Rect, track: Track, pen: Pen) -> Strip {
    let s = credited(strip(Seq::empty(), meta.x, c), track.credits@, meta, pen);
    let s = link_segment(
        s,
        clip_text(track.album@, meta),
        meta,
        theme::dim(),
        track.album_id is Some,
        Target::NowAlbum,
        pen.mouse,
    );
    note_segment(s, track.release_year@, meta)
}

/// The canvas with a record's metadata row on it.
pub open spec fn record_drawn(c: Canvas, meta: Rect, track: Track, pen: Pen) -> Canvas {
    let s = record_strip(c, meta, track, pen);
    put_text(s.canvas, meta, s.line)
}

/// Artists, album and year on one row, each segment whole or absent. The album
/// is printed even where it only repeats the track: the two names open two
/// different pages.
fn draw_record(scene: &mut Scene, meta: Rect, track: &Track, pen: Pen)
    ensures
        final(scene)@ == record_drawn(old(scene)@, meta, *track, pen),
{
    let mut line = Line::empty();
    let mut x: u16 = meta.x;
    credit_segment(scene, &mut line, &mut x, meta, &track.credits, pen);
    let album = clip(track.album.as_str(), meta);
    put_link(
        scene,
        &mut line,
        &mut x,
        album,
        meta,
        theme::dim(),
        track.album_id.is_some(),
        Target::NowAlbum,
        pen.mouse,
    );
    let ghost before = strip(line@, x, scene@);
    put_note(&mut line, &mut x, &track.release_year, meta);
    assert(strip(line@, x, scene@) == note_segment(before, track.release_year@, meta));
    scene.text(meta, line);
}

/// The title row's text, in what its controls leave of the row, one cell clear
/// of them.
#[verifier::allow_in_spec]
pub fn title_room(row: Rect, taken: u16) -> u16
    returns
        (if taken == 0 {
            row.width
        } else {
            row.width.saturating_sub(taken.saturating_add(1))
        }),
{
    if taken == 0 {
        row.width
    } else {
        row.width.saturating_sub(taken.saturating_add(1))
    }
}

/// The canvas with a title on it.
pub open spec fn title_drawn(
    c: Canvas,
    row: Rect,
    title: Seq<char>,
    room: u16,
    pen: Pen,
) -> Canvas {
    put_text(
        c,
        row.wide(room),
        Seq::empty().push(run(fitted(title, room as nat), theme::accent(pen.accent).bold())),
    )
}

fn draw_title(scene: &mut Scene, row: Rect, title: &str, room: u16, pen: Pen)
    ensures
        final(scene)@ == title_drawn(old(scene)@, row, title@, room, pen),
{
    let text = fit(title, room as usize);
    scene.text(row.wide(room), Line::of(text, theme::accent(pen.accent).bold()));
}

/// What the volume control leaves of a metadata row, one cell clear of it.
#[verifier::allow_in_spec]
pub fn meta_room(row: Rect, volume: Rect) -> Rect
    returns
        row.wide(row.width.saturating_sub(volume.width.saturating_add(1))),
{
    row.wide(row.width.saturating_sub(volume.width.saturating_add(1)))
}

/// The second row of a masthead. In the bar it stops a cell short of the edge,
/// where the messages under it stop.
#[verifier::allow_in_spec]
pub fn second_row(area: Rect, note: bool) -> Rect
    returns
        area.band(1, 1).wide(
            if note {
                area.width.saturating_sub(1)
            } else {
                area.width
            },
        ),
{
    area.band(1, 1).wide(if note { area.width.saturating_sub(1) } else { area.width })
}

/// A record's title, behind a note where it wears one.
pub open spec fn title_text(track: Track, note: bool) -> Seq<char> {
    if note {
        "♫ "@ + track.name@
    } else {
        track.name@
    }
}

/// The canvas with a record's masthead on it.
pub open spec fn mast_drawn(
    c: Canvas,
    area: Rect,
    track: Track,
    note: bool,
    percent: u8,
    liked: Option<bool>,
    add: bool,
    pen: Pen,
) -> Canvas {
    if area.height == 0 || area.width == 0 {
        c
    } else {
        let title_row = area.tall(1);
        let taken = title_w(c, title_row, liked, add, pen);
        let c1 = titled(c, title_row, liked, add, pen);
        let room = title_room(title_row, taken);
        let c2 = title_drawn(c1, title_row, title_text(track, note), room, pen);
        if area.height < MASTHEAD_H {
            c2
        } else {
            let row = second_row(area, note);
            let c3 = volume_drawn(c2, row, percent, pen);
            let meta = meta_room(row, volume_rect(row, percent, pen));
            if meta.width == 0 {
                c3
            } else {
                record_drawn(c3, meta, track, pen)
            }
        }
    }
}

/// Two rows: the track title with the record's controls opposite it, then
/// artists, album and year with the volume slider opposite them. `note` is for
/// the bar: it puts a note before the title, where no mark above owns one, and
/// keeps the last cell of the second row clear.
pub fn masthead(
    scene: &mut Scene,
    area: Rect,
    track: &Track,
    note: bool,
    percent: u8,
    liked: Option<bool>,
    add: bool,
    pen: Pen,
)
    ensures
        final(scene)@ == mast_drawn(old(scene)@, area, *track, note, percent, liked, add, pen),
{
    if area.height == 0 || area.width == 0 {
        return;
    }
    let title_row = area.tall(1);
    let taken: u16 = title_controls(scene, title_row, liked, add, pen);
    let title = if note { joined("♫ ", track.name.as_str()) } else { track.name.clone() };
    draw_title(scene, title_row, title.as_str(), title_room(title_row, taken), pen);
    if area.height < MASTHEAD_H {
        return;
    }
    let row = second_row(area, note);
    let vol = draw_volume(scene, row, percent, pen);
    let meta = meta_room(row, vol);
    if meta.width == 0 {
        return;
    }
    draw_record(scene, meta, track, pen);
}

/// What a station says about itself when it names no record: its genres.
pub fn station_subtitle(radio: &RadioPlayback) -> (r: String)
    ensures
        r == radio.station.tags,
{
    radio.station.tags.clone()
}

/// What is known of what a station plays: the record that was found, else the
/// station's own words, else its name.
pub open spec fn radio_title(radio: RadioPlayback) -> Seq<char> {
    match radio.matched {
        Some(t) => t.name@,
        None => match radio.title {
            Some(said) => said@,
            None => radio.station.name@,
        },
    }
}

/// Whether the record a station announced is liked: nothing is known of one
/// that was not found.
pub open spec fn announced_like(radio: RadioPlayback, liked: Kept) -> Option<bool> {
    match radio.matched {
        Some(t) => liked.of(t.uri@),
        None => None,
    }
}

pub fn like_of(radio: &RadioPlayback, liked: &Kept) -> (r: Option<bool>)
    ensures
        r == announced_like(*radio, *liked),
{
    match &radio.matched {
        Some(t) => liked.get(&t.uri),
        None => None,
    }
}

/// The canvas with a station's masthead on it.
pub open spec fn radio_mast_drawn(
    c: Canvas,
    area: Rect,
    radio: RadioPlayback,
    liked: Option<bool>,
    add: bool,
    pen: Pen,
) -> Canvas {
    if area.height == 0 || area.width == 0 {
        c
    } else {
        let title_row = area.tall(1);
        let (c1, taken) = if radio.matched is Some {
            (titled(c, title_row, liked, add, pen), title_w(c, title_row, liked, add, pen))
        } else {
            (c, 0)
        };
        let c2 = title_drawn(c1, title_row, radio_title(radio), title_room(title_row, taken), pen);
        if area.height < MASTHEAD_H {
            c2
        } else {
            let row = area.band(1, 1);
            let c3 = volume_drawn(c2, row, radio.volume_percent, pen);
            let meta = meta_room(row, volume_rect(row, radio.volume_percent, pen));
            if meta.width == 0 {
                c3
            } else {
                match radio.matched {
                    Some(t) => record_drawn(c3, meta, t, pen),
                    None => put_text(
                        c3,
                        meta,
                        Seq::empty().push(
                            run(fitted(radio.station.tags@, meta.width as nat), theme::dim()),
                        ),
                    ),
                }
            }
        }
    }
}

/// The radio deck's masthead: what the station is playing, and what is known
/// about it. Once the announced record was found, the same rows a record has.
pub fn radio_masthead(
    scene: &mut Scene,
    area: Rect,
    radio: &RadioPlayback,
    liked: Option<bool>,
    add: bool,
    pen: Pen,
)
    ensures
        final(scene)@ == radio_mast_drawn(old(scene)@, area, *radio, liked, add, pen),
{
    if area.height == 0 || area.width == 0 {
        return;
    }
    let title_row = area.tall(1);
    let taken: u16 = match &radio.matched {
        Some(_) => title_controls(scene, title_row, liked, add, pen),
        None => 0,
    };
    let title = match &radio.matched {
        Some(t) => t.name.as_str(),
        None => match &radio.title {
            Some(said) => said.as_str(),
            None => radio.station.name.as_str(),
        },
    };
    draw_title(scene, title_row, title, title_room(title_row, taken), pen);
    if area.height < MASTHEAD_H {
        return;
    }
    let row = area.band(1, 1);
    let vol = draw_volume(scene, row, radio.volume_percent, pen);
    let meta = meta_room(row, vol);
    if meta.width == 0 {
        return;
    }
    match &radio.matched {
        Some(t) => draw_record(scene, meta, t, pen),
        None => {
            let tags = station_subtitle(radio);
            let text = fit(tags.as_str(), meta.width as usize);
            scene.text(meta, Line::of(text, theme::dim()));
        },
    }
}

/// How long a station has been on, after its track.
pub open spec fn listened_text(ms: u64) -> Seq<char> {
    " "@ + duration_text(ms as nat)
}

/// The cells of a live station's track.
pub open spec fn live_track_w(row: Rect, ms: u64) -> u16 {
    max16(
        row.width.saturating_sub(
            low16(width_of("LIVE "@).saturating_add(width_of(listened_text(ms))) as int),
        ),
        1,
    )
}

/// The canvas with a station's progress row on it: why it is off the air, or
/// that it is live and for how long.
pub open spec fn radio_status_drawn(
    c: Canvas,
    row: Rect,
    radio: RadioPlayback,
    pen: Pen,
) -> Canvas {
    let c1 = put_hit(c, Rect::zero(), Target::Gauge);
    if row.width == 0 {
        c1
    } else {
        match radio.failure {
            Some(reason) => {
                let left = (row.width - min_usize(
                    width_of("OFF AIR "@),
                    row.width as usize,
                )) as nat;
                put_text(
                    c1,
                    row,
                    Seq::empty().push(run("OFF AIR "@, theme::warn())).push(
                        run(fitted(reason@, left), theme::dim()),
                    ),
                )
            },
            None => if row.width <= TIME_W {
                c1
            } else {
                let w = live_track_w(row, radio.elapsed_ms);
                put_text(
                    c1,
                    row,
                    (Seq::empty().push(run("LIVE "@, theme::green())) + meter_runs(
                        w,
                        false,
                        w,
                        pen.accent,
                    )).push(run(listened_text(radio.elapsed_ms), theme::dim())),
                )
            },
        }
    }
}

/// The radio deck's answer to [`progress`]: a full track, because the whole of
/// a live stream is now, and how long you have been listening.
///
/// There is nothing to seek to, so the gauge answers nowhere.
pub fn radio_status(scene: &mut Scene, row: Rect, radio: &RadioPlayback, pen: Pen)
    ensures
        final(scene)@ == radio_status_drawn(old(scene)@, row, *radio, pen),
{
    scene.hit(Rect::zero(), Target::Gauge);
    if row.width == 0 {
        return;
    }
    match &radio.failure {
        Some(reason) => {
            let mut line = Line::empty();
            line.print("OFF AIR ", theme::warn());
            let left: usize = row.width as usize - min_usize(width("OFF AIR "), row.width as usize);
            line.put(fit(reason.as_str(), left), theme::dim());
            scene.text(row, line);
            return;
        },
        None => {},
    }
    if row.width <= TIME_W {
        return;
    }
    let time = format_duration(radio.elapsed_ms);
    let elapsed = joined(" ", time.as_str());
    let labels: usize = width("LIVE ").saturating_add(width(elapsed.as_str()));
    let w: u16 = max16(row.width.saturating_sub(low_half(labels)), 1);
    let mut line = Line::empty();
    line.print("LIVE ", theme::green());
    line.extend(meter(w, false, w, pen.accent));
    line.put(elapsed, theme::dim());
    scene.text(row, line);
}

/// The pill of a transport row, centred on it.
#[verifier::allow_in_spec]
pub fn pill_rect(row: Rect, pill_w: u16) -> Rect
    returns
        row.strip((row.width.saturating_sub(pill_w) / 2) as u16, pill_w),
{
    row.strip(row.width.saturating_sub(pill_w) / 2, pill_w)
}

/// The canvas with the play-state pill on it, where it clears both edges.
pub open spec fn pill_drawn(
    c: Canvas,
    row: Rect,
    play: PlayState,
    wear: Wear,
    edges: u16,
    pen: Pen,
) -> Canvas {
    match state_runs(play, wear, pen.accent) {
        Some(pill) => {
            let w = line_w(pill);
            if row.width >= edges + w + 2 {
                let seg = pill_rect(row, w);
                put_text(
                    put_hit(c, segment_rect(seg.x, row, pill), Target::Play),
                    seg,
                    with_segment(Seq::empty(), seg.x, row, pen.mouse, pill),
                )
            } else {
                c
            }
        },
        None => c,
    }
}

fn draw_pill(scene: &mut Scene, row: Rect, play: PlayState, wear: Wear, edges: u16, pen: Pen)
    ensures
        final(scene)@ == pill_drawn(old(scene)@, row, play, wear, edges, pen),
{
    match state_spans(play, wear, pen.accent) {
        Some(pill) => {
            let w: u16 = pill.width();
            if row.width as u32 >= edges as u32 + w as u32 + 2 {
                let seg = pill_rect(row, w);
                let mut line = Line::empty();
                let mut x: u16 = seg.x;
                let rect = segment(&mut line, &mut x, row, pen.mouse, pill);
                scene.hit(rect, Target::Play);
                scene.text(seg, line);
            }
        },
        None => {},
    }
}

/// One plain control, as a row of spans.
pub open spec fn button(label: Seq<char>) -> Seq<Run> {
    Seq::empty().push(run(label, theme::text()))
}

/// The canvas with the back control at the left of a transport row.
pub open spec fn back_drawn(c: Canvas, row: Rect, pen: Pen) -> Canvas {
    put_text(
        put_hit(c, segment_rect(row.x, row, button(PREV_LABEL@)), Target::Previous),
        row,
        with_segment(Seq::empty(), row.x, row, pen.mouse, button(PREV_LABEL@)),
    )
}

fn draw_back(scene: &mut Scene, row: Rect, pen: Pen)
    ensures
        final(scene)@ == back_drawn(old(scene)@, row, pen),
{
    let mut line = Line::empty();
    let mut x: u16 = row.x;
    let part = Line::of(PREV_LABEL.to_owned(), theme::text());
    let rect = segment(&mut line, &mut x, row, pen.mouse, part);
    scene.hit(rect, Target::Previous);
    scene.text(row, line);
}

/// The canvas with one control pinned to the right of a row and recorded.
pub open spec fn pinned(c: Canvas, row: Rect, parts: Seq<Run>, target: Target, pen: Pen) -> Canvas {
    put_hit(
        right_drawn(c, row, pen.mouse, seq![parts]),
        right_rects(row, pen.mouse, seq![parts])[0],
        target,
    )
}

/// Pin one control to the right of `row` and record it.
fn draw_pinned(scene: &mut Scene, row: Rect, parts: Line, target: Target, pen: Pen) -> (r: Rect)
    ensures
        final(scene)@ == pinned(old(scene)@, row, parts@, target, pen),
        r == right_rects(row, pen.mouse, seq![parts@])[0],
{
    let mut groups: Vec<Line> = Vec::new();
    groups.push(parts);
    assert(groups_of(groups@) =~= seq![parts@]);
    let rects = right_row(scene, row, pen.mouse, groups);
    scene.hit(rects[0], target);
    rects[0]
}

/// The label of a station's forward control.
pub open spec fn radio_label(forward: RadioForward) -> Option<Seq<char>> {
    match forward {
        RadioForward::Nothing => None,
        RadioForward::Next => Some(NEXT_LABEL@),
        RadioForward::Seek => Some(SEEK_LABEL@),
    }
}

/// The cells of the controls a station's transport offers at its edges.
pub open spec fn radio_edges(steps: RadioSteps) -> u16 {
    let back = if steps.back {
        width_of(PREV_LABEL@)
    } else {
        0
    };
    let ahead = match radio_label(steps.forward) {
        Some(l) => width_of(l),
        None => 0,
    };
    low16(back.saturating_add(ahead) as int)
}

/// The canvas with a station's transport on it.
pub open spec fn radio_transport_drawn(
    c: Canvas,
    row: Rect,
    play: PlayState,
    steps: RadioSteps,
    pen: Pen,
) -> Canvas {
    let c = put_hit(
        put_hit(
            put_hit(c, Rect::zero(), Target::Previous),
            Rect::zero(),
            Target::Next,
        ),
        Rect::zero(),
        Target::Play,
    );
    let edges = radio_edges(steps);
    let c = if steps.back {
        back_drawn(c, row, pen)
    } else {
        c
    };
    let c = pill_drawn(c, row, play, Wear::Acts, edges, pen);
    match radio_label(steps.forward) {
        Some(l) => if row.width > edges {
            pinned(c, row, button(l), Target::Next, pen)
        } else {
            c
        },
        None => c,
    }
}

/// The radio deck's transport, laid out like [`transport`]. A control that
/// leads nowhere is not drawn.
pub fn radio_transport(
    scene: &mut Scene,
    row: Rect,
    play: PlayState,
    steps: RadioSteps,
    pen: Pen,
)
    ensures
        final(scene)@ == radio_transport_drawn(old(scene)@, row, play, steps, pen),
{
    scene.hit(Rect::zero(), Target::Previous);
    scene.hit(Rect::zero(), Target::Next);
    scene.hit(Rect::zero(), Target::Play);
    let back: usize = if steps.back { width(PREV_LABEL) } else { 0 };
    let ahead: usize = match steps.forward {
        RadioForward::Nothing => 0,
        RadioForward::Next => width(NEXT_LABEL),
        RadioForward::Seek => width(SEEK_LABEL),
    };
    let edges: u16 = low_half(back.saturating_add(ahead));
    if steps.back {
        draw_back(scene, row, pen);
    }
    draw_pill(scene, row, play, Wear::Acts, edges, pen);
    if row.width > edges {
        match steps.forward {
            RadioForward::Nothing => {},
            RadioForward::Next => {
                let part = Line::of(NEXT_LABEL.to_owned(), theme::text());
                let _r = draw_pinned(scene, row, part, Target::Next, pen);
            },
            RadioForward::Seek => {
                let part = Line::of(SEEK_LABEL.to_owned(), theme::text());
                let _r = draw_pinned(scene, row, part, Target::Next, pen);
            },
        }
    }
}

/// The mark that says which way a list is folded, where there is one to fold.
#[verifier::allow_in_spec]
pub fn fold_mark(folded: Option<bool>) -> &'static str
    returns
        (match folded {
            Some(true) => "▸ ",
            Some(false) => "▾ ",
            None => "",
        }),
{
    match folded {
        Some(true) => "▸ ",
        Some(false) => "▾ ",
        None => "",
    }
}

/// The controls of a station row.
pub open spec fn station_groups(off_air: bool, saved: bool, accent: u32) -> Seq<Seq<Run>> {
    let save = Seq::<Run>::empty().push(
        run(
            save_text(saved),
            if saved {
                theme::accent(accent)
            } else {
                theme::dim()
            },
        ),
    );
    if off_air {
        seq![Seq::<Run>::empty().push(run(LIVE_LABEL@, theme::accent(accent))), save]
    } else {
        seq![save]
    }
}

/// Where the controls of a station row answer: back to the broadcast, and keep
/// the station.
pub open spec fn station_controls(row: Rect, off_air: bool, saved: bool, pen: Pen) -> (Rect, Rect) {
    let rects = right_rects(row, pen.mouse, station_groups(off_air, saved, pen.accent));
    if off_air {
        (rects[0], rects[1])
    } else {
        (Rect::zero(), rects[0])
    }
}

/// The cells a control takes with one of daylight before it.
#[verifier::allow_in_spec]
pub fn control_room(r: Rect) -> u16
    returns
        (if r.is_empty() {
            0u16
        } else {
            r.width.saturating_add(1)
        }),
{
    if r.is_empty() {
        0
    } else {
        r.width.saturating_add(1)
    }
}

/// A station row as far as its text: the name that heads its list, where it
/// broadcasts from, how it sounds, and in how many channels.
pub open spec fn station_strip(
    c: Canvas,
    left: Rect,
    radio: RadioPlayback,
    folded: Option<bool>,
    mouse: Option<Position>,
) -> Strip {
    let st = radio.station;
    let s = strip(Seq::empty(), left.x, c);
    let s = link_segment(
        s,
        clip_text(fold_mark(folded)@ + st.name@, left),
        left,
        theme::bright().bold(),
        true,
        Target::QueueName,
        mouse,
    );
    let country = clip_text(st.country@, left);
    let s = if country.len() > 0 {
        link_segment(
            s,
            country,
            left,
            theme::dim(),
            st.countrycode@.len() > 0,
            Target::StationCountry,
            mouse,
        )
    } else {
        s
    };
    let s = note_segment(s, st.quality@, left);
    match radio.channel_label {
        Some(mode) => if sep_fits(s, mode@, left) {
            let t = separated(s);
            Strip { line: t.line.push(run(mode@, theme::dim())), x: t.x, canvas: t.canvas }
        } else {
            s
        },
        None => s,
    }
}

/// The canvas with a station row on it.
pub open spec fn station_row_drawn(
    c: Canvas,
    row: Rect,
    radio: RadioPlayback,
    saved: bool,
    folded: Option<bool>,
    pen: Pen,
) -> Canvas {
    let c = put_hit(c, Rect::zero(), Target::Shuffle);
    if row.width == 0 {
        c
    } else {
        let c = right_drawn(c, row, pen.mouse, station_groups(radio.off_air, saved, pen.accent));
        let (live, save) = station_controls(row, radio.off_air, saved, pen);
        let c = put_hit(put_hit(c, live, Target::RadioLive), save, Target::SaveStation);
        let taken = control_room(live).saturating_add(control_room(save));
        let left = row.wide(row.width.saturating_sub(taken));
        if left.width == 0 {
            c
        } else {
            let s = station_strip(c, left, radio, folded, pen.mouse);
            put_text(s.canvas, left, s.line)
        }
    }
}

/// The radio deck's bottom row: the station itself. `folded` says whether the
/// list under this row is folded away, where there is one.
///
/// The controls come first, so the text is what gives way on a tight row.
pub fn radio_station_row(
    scene: &mut Scene,
    row: Rect,
    radio: &RadioPlayback,
    saved: bool,
    folded: Option<bool>,
    pen: Pen,
)
    ensures
        final(scene)@ == station_row_drawn(old(scene)@, row, *radio, saved, folded, pen),
{
    scene.hit(Rect::zero(), Target::Shuffle);
    if row.width == 0 {
        return;
    }
    let mut groups: Vec<Line> = Vec::new();
    if radio.off_air {
        groups.push(Line::of(LIVE_LABEL.to_owned(), theme::accent(pen.accent)));
    }
    groups.push(
        Line::of(
            save_label(saved),
            if saved { theme::accent(pen.accent) } else { theme::dim() },
        ),
    );
    assert(groups_of(groups@) =~= station_groups(radio.off_air, saved, pen.accent));
    let rects = right_row(scene, row, pen.mouse, groups);
    let live = if radio.off_air { rects[0] } else { Rect::zero() };
    let save = if radio.off_air { rects[1] } else { rects[0] };
    scene.hit(live, Target::RadioLive);
    scene.hit(save, Target::SaveStation);
    let taken: u16 = control_room(live).saturating_add(control_room(save));
    let left = row.wide(row.width.saturating_sub(taken));
    if left.width == 0 {
        return;
    }
    let mut line = Line::empty();
    let mut x: u16 = left.x;
    let name = joined(fold_mark(folded), radio.station.name.as_str());
    let name = clip(name.as_str(), left);
    put_link(
        scene,
        &mut line,
        &mut x,
        name,
        left,
        theme::bright().bold(),
        true,
        Target::QueueName,
        pen.mouse,
    );
    let country = clip(radio.station.country.as_str(), left);
    if country.as_str().unicode_len() > 0 {
        put_link(
            scene,
            &mut line,
            &mut x,
            country,
            left,
            theme::dim(),
            radio.station.countrycode.as_str().unicode_len() > 0,
            Target::StationCountry,
            pen.mouse,
        );
    }
    let ghost before = strip(line@, x, scene@);
    put_note(&mut line, &mut x, &radio.station.quality, left);
    assert(strip(line@, x, scene@) == note_segment(before, radio.station.quality@, left));
    let ghost noted = strip(line@, x, scene@);
    match &radio.channel_label {
        Some(mode) => {
            if sep(&mut line, &mut x, mode.as_str(), left) {
                assert(strip(line@, x, scene@) == separated(noted));
                line.put(mode.clone(), theme::dim());
            }
        },
        None => {},
    }
    assert(noted == strip(noted.line, noted.x, noted.canvas));
    scene.text(left, line);
}

/// The reading before a progress track.
pub open spec fn elapsed_text(progress_ms: u64) -> Seq<char> {
    duration_text(progress_ms as nat) + " "@
}

/// The reading after a progress track.
pub open spec fn remaining_text(progress_ms: u64, duration_ms: u64) -> Seq<char> {
    " -"@ + duration_text(duration_ms.saturating_sub(progress_ms) as nat)
}

/// The cells of a progress track: what its readings leave, one at least.
pub open spec fn progress_w(row: Rect, progress_ms: u64, duration_ms: u64) -> u16 {
    let labels = word(elapsed_text(progress_ms).len()).saturating_add(
        word(remaining_text(progress_ms, duration_ms).len()),
    );
    max16(row.width.saturating_sub(low16(labels as int)), 1)
}

/// Where a progress track answers.
pub open spec fn gauge_rect(row: Rect, progress_ms: u64, duration_ms: u64) -> Rect {
    row.strip(
        low16(word(elapsed_text(progress_ms).len()) as int),
        progress_w(row, progress_ms, duration_ms),
    ).intersection(row)
}

/// The canvas with a progress row on it, where there is room for one.
pub open spec fn progress_drawn(
    c: Canvas,
    row: Rect,
    progress_ms: u64,
    duration_ms: u64,
) -> Canvas {
    if row.width <= TIME_W {
        c
    } else {
        put_hit(c, gauge_rect(row, progress_ms, duration_ms), Target::Gauge).push(
            OpView::Progress {
                area: row,
                elapsed: Seq::empty().push(run(elapsed_text(progress_ms), theme::bright())),
                remaining: Seq::empty().push(
                    run(remaining_text(progress_ms, duration_ms), theme::dim()),
                ),
                width: progress_w(row, progress_ms, duration_ms),
                progress_ms,
                duration_ms,
            },
        )
    }
}

/// One row: elapsed, the track, time remaining. Clicking the track seeks.
pub fn progress(scene: &mut Scene, row: Rect, progress_ms: u64, duration_ms: u64)
    ensures
        final(scene)@ == progress_drawn(old(scene)@, row, progress_ms, duration_ms),
{
    if row.width <= TIME_W {
        return;
    }
    let time = format_duration(progress_ms);
    let elapsed = joined(time.as_str(), " ");
    let time = format_duration(duration_ms.saturating_sub(progress_ms));
    let remaining = joined(" -", time.as_str());
    let before: usize = elapsed.as_str().unicode_len();
    let after: usize = remaining.as_str().unicode_len();
    let w: u16 = max16(row.width.saturating_sub(low_half(before.saturating_add(after))), 1);
    scene.hit(row.strip(low_half(before), w).intersection(row), Target::Gauge);
    scene.put(
        Op::Progress {
            area: row,
            elapsed: Line::of(elapsed, theme::bright()),
            remaining: Line::of(remaining, theme::dim()),
            width: w,
            progress_ms,
            duration_ms,
        },
    );
}

/// A progress row in full, once it is known how many cells of its track are
/// filled: the reading, the track, the reading.
pub fn progress_line(
    elapsed: Line,
    remaining: Line,
    filled: u16,
    half: bool,
    width: u16,
    accent: u32,
) -> (line: Line)
    ensures
        line@ == elapsed@ + meter_runs(filled, half, width, accent) + remaining@,
{
    let mut line = elapsed;
    line.extend(meter(filled, half, width, accent));
    line.extend(remaining);
    line
}

/// The cells of both of a transport's buttons.
pub open spec fn transport_edges(forward: Forward, wear: Wear) -> u16 {
    low16(width_of(PREV_LABEL@).saturating_add(width_of(forward.label(wear)@)) as int)
}

/// The canvas with a transport on it.
pub open spec fn transport_drawn(
    c: Canvas,
    row: Rect,
    play: PlayState,
    forward: Forward,
    wear: Wear,
    pen: Pen,
) -> Canvas {
    let c = back_drawn(put_hit(c, Rect::zero(), Target::Play), row, pen);
    let edges = transport_edges(forward, wear);
    let c = pill_drawn(c, row, play, wear, edges, pen);
    if row.width < edges + 1 {
        c
    } else {
        pinned(c, row, button(forward.label(wear)@), Target::Next, pen)
    }
}

/// One row: previous flush left, the play state centred, next flush right.
///
/// A row too narrow for both buttons keeps previous alone, and one too narrow
/// to clear them both drops the pill.
pub fn transport(
    scene: &mut Scene,
    row: Rect,
    play: PlayState,
    forward: Forward,
    wear: Wear,
    pen: Pen,
)
    ensures
        final(scene)@ == transport_drawn(old(scene)@, row, play, forward, wear, pen),
{
    scene.hit(Rect::zero(), Target::Play);
    draw_back(scene, row, pen);
    let ahead = forward.label(wear);
    let edges: u16 = low_half(width(PREV_LABEL).saturating_add(width(ahead)));
    draw_pill(scene, row, play, wear, edges, pen);
    if (row.width as u32) < edges as u32 + 1 {
        return;
    }
    let part = Line::of(ahead.to_owned(), theme::text());
    let _r = draw_pinned(scene, row, part, Target::Next, pen);
}

/// The shuffle control.
pub open spec fn shuffle_runs(on: bool, accent: u32) -> Seq<Run> {
    Seq::empty().push(
        run(
            "shuffle "@ + (if on {
                "on"@
            } else {
                "off"@
            }),
            if on {
                theme::accent(accent)
            } else {
                theme::dim()
            },
        ),
    )
}

/// How many tracks a queue has, after its name.
pub open spec fn count_text(n: nat) -> Seq<char> {
    " · "@ + decimal(n) + " tracks"@
}

/// What the shuffle control leaves of a context row.
pub open spec fn context_room(row: Rect, shuffle: bool, pen: Pen) -> Rect {
    let taken = right_rects(row, pen.mouse, seq![shuffle_runs(shuffle, pen.accent)])[0].width;
    row.wide(row.width.saturating_sub(taken.saturating_add(2)))
}

/// A queue's name, behind its fold mark and cut to what its count leaves.
pub open spec fn queue_label(text: Rect, name: Seq<char>, n: nat, fold: Option<bool>) -> Seq<char> {
    let mark = fold_mark(fold)@;
    let taken = low16(width_of(count_text(n)) as int).saturating_add(low16(width_of(mark) as int));
    mark + trimmed(fitted(name, text.width.saturating_sub(taken) as nat))
}

/// The canvas with a context row on it.
pub open spec fn context_drawn(
    c: Canvas,
    row: Rect,
    shuffle: bool,
    queue: Option<Queue>,
    fold: Option<bool>,
    pen: Pen,
) -> Canvas {
    let c = put_hit(
        put_hit(c, Rect::zero(), Target::SaveStation),
        Rect::zero(),
        Target::RadioLive,
    );
    let c = pinned(c, row, shuffle_runs(shuffle, pen.accent), Target::Shuffle, pen);
    match queue {
        None => c,
        Some(q) => {
            let text = context_room(row, shuffle, pen);
            if text.width == 0 {
                c
            } else {
                let n = q.rows.display@.len();
                let label = queue_label(text, q.name@, n, fold);
                let style = theme::bright().bold();
                let line = with_link(
                    Seq::empty(),
                    text.x,
                    text,
                    pen.mouse,
                    label,
                    style,
                    true,
                ).push(run(count_text(n), theme::dim()));
                put_text(
                    put_hit(c, link_rect(text.x, text, label, true), Target::QueueName),
                    text,
                    if q.loading {
                        line.push(run(" (loading…)"@, theme::dim()))
                    } else {
                        line
                    },
                )
            }
        },
    }
}

/// One row: the playing queue's name and length on the left, the shuffle state
/// opposite. `fold` puts a mark on the name where there is a list to fold.
///
/// The name is cut rather than the count or the mark.
pub fn context_row(
    scene: &mut Scene,
    row: Rect,
    shuffle: bool,
    queue: &Option<Queue>,
    fold: Option<bool>,
    pen: Pen,
)
    ensures
        final(scene)@ == context_drawn(old(scene)@, row, shuffle, *queue, fold, pen),
{
    scene.hit(Rect::zero(), Target::SaveStation);
    scene.hit(Rect::zero(), Target::RadioLive);
    let label = joined("shuffle ", if shuffle { "on" } else { "off" });
    let style = if shuffle { theme::accent(pen.accent) } else { theme::dim() };
    let control = draw_pinned(scene, row, Line::of(label, style), Target::Shuffle, pen);
    let q = match queue {
        Some(q) => q,
        None => return,
    };
    let text = row.wide(row.width.saturating_sub(control.width.saturating_add(2)));
    if text.width == 0 {
        return;
    }
    let number = dec(q.rows.len() as u64);
    let count = joined(" · ", number.as_str());
    let count = joined(count.as_str(), " tracks");
    let mark = fold_mark(fold);
    let taken: u16 = low_half(width(count.as_str())).saturating_add(low_half(width(mark)));
    let name = clipped(q.name.as_str(), text.width.saturating_sub(taken) as usize);
    let mut line = Line::empty();
    let mut x: u16 = text.x;
    let rect = link(
        &mut line,
        &mut x,
        text,
        pen.mouse,
        joined(mark, name.as_str()),
        theme::bright().bold(),
        true,
    );
    scene.hit(rect, Target::QueueName);
    line.put(count, theme::dim());
    if q.loading {
        line.print(" (loading…)", theme::dim());
    }
    scene.text(text, line);
}

/// A title row sheds its controls in order: the share first, then the add, and
/// what is said of the record being liked last of all.
pub proof fn title_controls_are_shed_in_order(liked: Option<bool>, add: bool, accent: u32)
    ensures
        ({
            let all = title_groups(liked, add, 0, accent);
            let fewer = title_groups(liked, add, 1, accent);
            let fewest = title_groups(liked, add, 2, accent);
            &&& add ==> fewer.len() + 1 == all.len() && fewest.len() + 1 == fewer.len()
            &&& add ==> fewer.last() == all.last()
            &&& !add ==> all == fewer && fewer == fewest
            &&& liked is Some ==> fewest.len() == 1 && fewest[0] == all[0] && fewest[0] == fewer[0]
        }),
{
}

/// What the controls of a deck say, in either of their states.
#[verifier::rlimit(60)]
pub proof fn controls_say_their_state(on: bool, accent: u32)
    ensures
        like_text(on) == (if on {
            "★ liked"@
        } else {
            "★ like"@
        }),
        save_text(on) == (if on {
            "★ saved"@
        } else {
            "★ save "@
        }),
        share_text() == "⧉ share"@,
        printed(shuffle_runs(on, accent)) == (if on {
            "shuffle on"@
        } else {
            "shuffle off"@
        }),
        shuffle_runs(on, accent)[0].style == (if on {
            theme::accent(accent)
        } else {
            theme::dim()
        }),
        fold_mark(None)@ == Seq::<char>::empty(),
        fold_mark(Some(on))@ == (if on {
            seq!['▸', ' ']
        } else {
            seq!['▾', ' ']
        }),
        idle_text(on) == (if on {
            "nothing playing — press Enter on a track to start"@
        } else {
            "nothing playing — press Enter on a station to start"@
        }),
{
    reveal_strlit("★");
    reveal_strlit("⧉");
    reveal_strlit(" liked");
    reveal_strlit(" like");
    reveal_strlit(" saved");
    reveal_strlit(" save ");
    reveal_strlit(" share");
    reveal_strlit("★ liked");
    reveal_strlit("★ like");
    reveal_strlit("★ saved");
    reveal_strlit("★ save ");
    reveal_strlit("⧉ share");
    reveal_strlit("shuffle ");
    reveal_strlit("on");
    reveal_strlit("off");
    reveal_strlit("shuffle on");
    reveal_strlit("shuffle off");
    reveal_strlit("▸ ");
    reveal_strlit("▾ ");
    reveal_strlit("");
    reveal_strlit("nothing playing — press Enter on ");
    reveal_strlit("a track");
    reveal_strlit("a station");
    reveal_strlit(" to start");
    reveal_strlit("nothing playing — press Enter on a track to start");
    reveal_strlit("nothing playing — press Enter on a station to start");
    assert(like_text(on) =~= if on {
        "★ liked"@
    } else {
        "★ like"@
    });
    assert(save_text(on) =~= if on {
        "★ saved"@
    } else {
        "★ save "@
    });
    assert(share_text() =~= "⧉ share"@);
    let r = shuffle_runs(on, accent);
    lemma_prints_alone(r);
    assert(printed(r) =~= if on {
        "shuffle on"@
    } else {
        "shuffle off"@
    });
    assert(fold_mark(None)@ =~= Seq::<char>::empty());
    assert(fold_mark(Some(on))@ =~= if on {
        seq!['▸', ' ']
    } else {
        seq!['▾', ' ']
    });
    assert(idle_text(on) =~= if on {
        "nothing playing — press Enter on a track to start"@
    } else {
        "nothing playing — press Enter on a station to start"@
    });
}

/// The two words of each control are told apart, and those of one control from
/// those of another.
pub proof fn controls_are_told_apart(a: bool, b: bool, accent: u32)
    ensures
        like_text(a) == like_text(b) <==> a == b,
        save_text(a) == save_text(b) <==> a == b,
        printed(shuffle_runs(a, accent)) == printed(shuffle_runs(b, accent)) <==> a == b,
        like_text(a) != save_text(b),
{
    controls_say_their_state(a, accent);
    controls_say_their_state(b, accent);
    reveal_strlit("★ liked");
    reveal_strlit("★ like");
    reveal_strlit("★ saved");
    reveal_strlit("★ save ");
    reveal_strlit("shuffle on");
    reveal_strlit("shuffle off");
    assert("★ liked"@.len() == 7);
    assert("★ like"@.len() == 6);
    assert("★ saved"@[6] == 'd');
    assert("★ save "@[6] == ' ');
    assert("★ liked"@[2] == 'l');
    assert("shuffle on"@.len() == 10);
    assert("shuffle off"@.len() == 11);
}

/// What the transport's buttons say.
pub proof fn buttons_say_where_they_lead(forward: Forward, wear: Wear, steps: RadioForward)
    ensures
        PREV_LABEL@ == "◂◂ previous"@,
        forward == Forward::Live ==> forward.label(wear)@ == "live ▸▸"@,
        forward == Forward::Next && wear == Wear::Acts ==> forward.label(wear)@ == "next ▸▸"@,
        forward == Forward::Next && wear == Wear::Reports ==> forward.label(wear)@ == "▸▸ next"@,
        radio_label(steps) == (match steps {
            RadioForward::Nothing => None,
            RadioForward::Next => Some("next ▸▸"@),
            RadioForward::Seek => Some("seek ▸▸"@),
        }),
        LIVE_LABEL@ == "◂ live"@,
        ADD_LABEL@ == "+ add"@,
{
}

/// The times either side of a progress track read as how far in the record is
/// and how much of it is left.
pub proof fn the_times_are_elapsed_and_left(progress_ms: u64, duration_ms: u64)
    ensures
        ({
            let e = elapsed_text(progress_ms);
            let r = remaining_text(progress_ms, duration_ms);
            let left = if duration_ms >= progress_ms {
                (duration_ms - progress_ms) as nat
            } else {
                0
            };
            &&& e.len() > 1
            &&& e.last() == ' '
            &&& reads_as(e.drop_last(), (progress_ms / 1_000) as nat)
            &&& r.len() > 2
            &&& r[0] == ' '
            &&& r[1] == '-'
            &&& reads_as(r.skip(2), left / 1_000)
        }),
{
    reveal_strlit(" ");
    reveal_strlit(" -");
    let e = elapsed_text(progress_ms);
    let r = remaining_text(progress_ms, duration_ms);
    let left = duration_ms.saturating_sub(progress_ms) as nat;
    a_reading_is_the_time(progress_ms as nat);
    a_reading_is_the_time(left);
    assert(e.drop_last() =~= duration_text(progress_ms as nat));
    assert(r.skip(2) =~= duration_text(left));
}

/// A progress row with the room for one has a gauge between its two times, which
/// is as long as they leave it, and is filled by how far in the record is.
#[verifier::rlimit(60)]
pub proof fn the_gauge_lies_between_its_times(
    c: Canvas,
    row: Rect,
    progress_ms: u64,
    duration_ms: u64,
)
    requires
        row.width > TIME_W,
        row.x + row.width <= 0xFFFF,
        row.height > 0,
        row.y < 0xFFFF,
    ensures
        ({
            let d = progress_drawn(c, row, progress_ms, duration_ms);
            let gauge = gauge_rect(row, progress_ms, duration_ms);
            let e = elapsed_text(progress_ms).len();
            let r = remaining_text(progress_ms, duration_ms).len();
            &&& d.len() == c.len() + 2
            &&& d[c.len() as int] == OpView::Hit { area: gauge, target: Target::Gauge }
            &&& d.last() matches OpView::Progress {
                area,
                elapsed,
                remaining,
                width,
                progress_ms: p,
                duration_ms: q,
            } && area == row && p == progress_ms && q == duration_ms && printed(elapsed)
                == elapsed_text(progress_ms) && printed(remaining) == remaining_text(
                progress_ms,
                duration_ms,
            ) && (e + r < row.width ==> width == row.width - e - r)
            &&& e + r < row.width ==> gauge.x == row.x + e && gauge.width == row.width - e - r
        }),
{
    let d = progress_drawn(c, row, progress_ms, duration_ms);
    let a = Seq::<Run>::empty().push(run(elapsed_text(progress_ms), theme::bright()));
    let b = Seq::<Run>::empty().push(run(remaining_text(progress_ms, duration_ms), theme::dim()));
    lemma_prints_alone(a);
    lemma_prints_alone(b);
}

/// The reading after a live station's track is how long it has been listened to.
pub proof fn a_live_reading_is_the_time_listened(ms: u64)
    ensures
        listened_text(ms).len() > 1,
        listened_text(ms)[0] == ' ',
        reads_as(listened_text(ms).skip(1), (ms / 1_000) as nat),
{
    reveal_strlit(" ");
    a_reading_is_the_time(ms as nat);
    assert(listened_text(ms).skip(1) =~= duration_text(ms as nat));
}

/// A station's progress row: that it is live, a track filled from end to end,
/// and how long it has been listened to; or that it is off the air, and why.
/// Either way there is nothing to seek in.
#[verifier::rlimit(60)]
pub proof fn a_station_says_it_is_live_or_why_not(
    c: Canvas,
    row: Rect,
    radio: RadioPlayback,
    pen: Pen,
)
    requires
        row.width > 0,
    ensures
        ({
            let d = radio_status_drawn(c, row, radio, pen);
            &&& d.len() > c.len()
            &&& d[c.len() as int] == OpView::Hit { area: Rect::zero(), target: Target::Gauge }
            &&& radio.failure matches Some(reason) ==> (d.last() matches OpView::Text {
                area,
                place,
                line,
            } && area == row && exists|w: nat| printed(line) == "OFF AIR "@ + #[trigger] fitted(
                reason@,
                w,
            ))
            &&& radio.failure is None && row.width > TIME_W ==> (d.last() matches OpView::Text {
                area,
                place,
                line,
            } && area == row && exists|n: nat, time: Seq<char>|
                {
                    &&& #[trigger] reads_as(time, (radio.elapsed_ms / 1_000) as nat)
                    &&& n > 0
                    &&& printed(line) == "LIVE "@ + #[trigger] copies('━', n) + seq![' '] + time
                })
        }),
{
    let d = radio_status_drawn(c, row, radio, pen);
    match radio.failure {
        Some(reason) => {
            let left = (row.width - min_usize(
                width_of("OFF AIR "@),
                row.width as usize,
            )) as nat;
            let line = Seq::<Run>::empty().push(run("OFF AIR "@, theme::warn())).push(
                run(fitted(reason@, left), theme::dim()),
            );
            lemma_prints_alone(line.drop_last());
            assert(printed(line) == "OFF AIR "@ + fitted(reason@, left));
        },
        None => if row.width > TIME_W {
            let w = live_track_w(row, radio.elapsed_ms);
            let head = Seq::<Run>::empty().push(run("LIVE "@, theme::green()));
            let bar = meter_runs(w, false, w, pen.accent);
            let line = (head + bar).push(run(listened_text(radio.elapsed_ms), theme::dim()));
            lemma_prints_alone(head);
            a_track_is_filled_so_far(w, false, w, pen.accent);
            lemma_prints_both(head, bar);
            assert(line.drop_last() =~= head + bar);
            let time = duration_text(radio.elapsed_ms as nat);
            a_reading_is_the_time(radio.elapsed_ms as nat);
            reveal_strlit(" ");
            assert(printed(bar) =~= copies('━', w as nat));
            assert(listened_text(radio.elapsed_ms) =~= seq![' '] + time);
            assert(printed(line) =~= "LIVE "@ + copies('━', w as nat) + seq![' '] + time);
            assert(reads_as(time, (radio.elapsed_ms / 1_000) as nat));
        },
    }
}

/// A metadata segment that fits is printed behind what was before it, a dot
/// between the two; one that does not is left out whole.
pub proof fn a_segment_is_whole_or_left_out(
    s: Strip,
    text: Seq<char>,
    meta: Rect,
    style: Style,
    clickable: bool,
    target: Target,
    mouse: Option<Position>,
)
    ensures
        ({
            let dot = if s.line.len() == 0 {
                Seq::<char>::empty()
            } else {
                " · "@
            };
            let l = link_segment(s, text, meta, style, clickable, target, mouse);
            let n = note_segment(s, text, meta);
            let fits = sep_fits(s, text, meta);
            &&& fits ==> printed(l.line) == printed(s.line) + dot + text
            &&& !fits ==> l == s
            &&& fits && text.len() > 0 ==> printed(n.line) == printed(s.line) + dot + text
            &&& !(fits && text.len() > 0) ==> n == s
            &&& fits ==> (l.canvas.last() matches OpView::Hit { area, target: to } && to == target
                && (!clickable ==> area.is_empty()))
            &&& n.canvas == s.canvas
        }),
{
    let t = separated(s);
    if s.line.len() > 0 {
        assert(t.line.drop_last() =~= s.line);
    } else {
        assert(printed(s.line) + Seq::<char>::empty() =~= printed(s.line));
    }
    light_changes_no_text(t.line, t.x, meta, mouse, Seq::empty(), text, style, clickable);
    let n = t.line.push(run(text, theme::dim()));
    assert(n.drop_last() =~= t.line);
}

/// The row under a record's title names its artists, then its album, then its
/// year, a dot between two of them; what does not fit is left out whole, from
/// the end.
#[verifier::rlimit(60)]
pub proof fn a_record_is_told_by_artists_album_and_year(
    c: Canvas,
    meta: Rect,
    track: Track,
    pen: Pen,
)
    ensures
        ({
            let names = trimmed(fitted(credit_names(track.credits@), meta.width as nat));
            let album = trimmed(fitted(track.album@, meta.width as nat));
            let line = printed(record_strip(c, meta, track, pen).line);
            let d = record_drawn(c, meta, track, pen);
            &&& d.last() matches OpView::Text { area, place, line: l } && area == meta && printed(l)
                == line
            &&& exists|a: bool, y: bool| #[trigger]
                told(line, names, album, track.release_year@, a, y)
        }),
{
    let names = trimmed(fitted(credit_names(track.credits@), meta.width as nat));
    let album = trimmed(fitted(track.album@, meta.width as nat));
    let s0 = strip(Seq::empty(), meta.x, c);
    let s1 = credited(s0, track.credits@, meta, pen);
    let runs = credit_parts(track.credits@, meta);
    let lit = credit_under(credit_cells(s0, track.credits@, meta), runs, pen.mouse);
    let row = credit_row(names, runs, theme::text(), lit);
    credit_row_prints_its_cell(names, runs, theme::text(), lit);
    assert(s1.line =~= row);
    lemma_row_is_empty(names, runs, theme::text(), lit);
    let clickable = track.album_id is Some;
    a_segment_is_whole_or_left_out(
        s1,
        album,
        meta,
        theme::dim(),
        clickable,
        Target::NowAlbum,
        pen.mouse,
    );
    let s2 = link_segment(
        s1,
        album,
        meta,
        theme::dim(),
        clickable,
        Target::NowAlbum,
        pen.mouse,
    );
    let year = track.release_year@;
    a_segment_is_whole_or_left_out(
        s2,
        year,
        meta,
        theme::dim(),
        false,
        Target::NowAlbum,
        pen.mouse,
    );
    let a = sep_fits(s1, album, meta);
    let y = sep_fits(s2, year, meta) && year.len() > 0;
    let line = printed(record_strip(c, meta, track, pen).line);
    assert(told(line, names, album, year, a, y));
}

/// Whether a line is the names, with the album behind them and the year behind
/// that where they are told, a dot between two that are there.
pub open spec fn told(
    line: Seq<char>,
    names: Seq<char>,
    album: Seq<char>,
    year: Seq<char>,
    a: bool,
    y: bool,
) -> bool {
    let none = Seq::<char>::empty();
    let with_album = if a {
        names + (if names.len() > 0 {
            " · "@
        } else {
            none
        }) + album
    } else {
        names
    };
    &&& y ==> year.len() > 0
    &&& line == (if y {
        with_album + (if a || names.len() > 0 {
            " · "@
        } else {
            none
        }) + year
    } else {
        with_album
    })
}

proof fn lemma_row_is_empty(
    cell: Seq<char>,
    runs: Seq<CreditRun>,
    style: Style,
    hovered: Option<usize>,
)
    ensures
        credit_row(cell, runs, style, hovered).len() == 0 <==> cell.len() == 0,
{
    credit_row_prints_its_cell(cell, runs, style, hovered);
    let r = credit_row(cell, runs, style, hovered);
    if cell.len() == 0 {
        lemma_no_pieces(cell, runs, runs.len(), style, hovered);
    }
}

proof fn lemma_no_pieces(
    cell: Seq<char>,
    runs: Seq<CreditRun>,
    n: nat,
    style: Style,
    hovered: Option<usize>,
)
    requires
        cell.len() == 0,
    ensures
        credit_pieces(cell, runs, n, style, hovered) == (Seq::<Run>::empty(), 0nat),
    decreases n,
{
    if n > 0 {
        lemma_no_pieces(cell, runs, (n - 1) as nat, style, hovered);
        let r = runs[n - 1];
        assert(index_at(cell, r.dx as nat) == 0);
        assert(index_at(cell, (r.dx + r.width) as nat) == 0);
        assert(cell.subrange(0, 0).len() == 0);
    }
}

/// What a deck's title row says: the name of the record, a note before it in the
/// bar; of a station the record it announced, where that was found, else the
/// station's own words, else its name.
pub proof fn a_title_names_what_plays(track: Track, radio: RadioPlayback)
    ensures
        title_text(track, false) == track.name@,
        title_text(track, true).len() == track.name@.len() + 2,
        title_text(track, true).skip(2) == track.name@,
        title_text(track, true)[0] == '♫',
        radio.matched matches Some(t) ==> radio_title(radio) == t.name@,
        radio.matched is None ==> (radio.title matches Some(said) ==> radio_title(radio) == said@),
        radio.matched is None && radio.title is None ==> radio_title(radio) == radio.station.name@,
{
    reveal_strlit("♫ ");
    assert(title_text(track, true).skip(2) =~= track.name@);
}

/// The queue's name is printed behind the mark of its fold, and its length
/// behind it.
pub proof fn a_queue_is_told_by_its_name_and_length(
    text: Rect,
    name: Seq<char>,
    n: nat,
    fold: Option<bool>,
)
    ensures
        ({
            let t = count_text(n);
            &&& t.len() > 10
            &&& t.take(3) == " · "@
            &&& t.skip(t.len() - 7) == " tracks"@
            &&& digits_alone(t.subrange(3, t.len() - 7))
            &&& number_in(t.subrange(3, t.len() - 7)) == n
        }),
        exists|w: nat|
            {
                &&& w <= text.width
                &&& queue_label(text, name, n, fold) == fold_mark(fold)@ + trimmed(
                    #[trigger] fitted(name, w),
                )
            },
{
    reveal_strlit(" · ");
    reveal_strlit(" tracks");
    let t = count_text(n);
    a_number_reads_back(n);
    assert(t.take(3) =~= " · "@);
    assert(t.skip(t.len() - 7) =~= " tracks"@);
    assert(t.subrange(3, t.len() - 7) =~= decimal(n));
    let mark = fold_mark(fold)@;
    let taken = low16(width_of(t) as int).saturating_add(low16(width_of(mark) as int));
    let w = text.width.saturating_sub(taken) as nat;
    assert(queue_label(text, name, n, fold) == mark + trimmed(fitted(name, w)));
}

/// A row of the record that plays says, at its right, whether the queue is
/// shuffled.
#[verifier::rlimit(60)]
pub proof fn the_context_row_says_what_is_shuffled(
    c: Canvas,
    row: Rect,
    shuffle: bool,
    queue: Option<Queue>,
    fold: Option<bool>,
    pen: Pen,
)
    requires
        row.width >= 11,
    ensures
        ({
            let d = context_drawn(c, row, shuffle, queue, fold, pen);
            &&& d.len() > c.len() + 2
            &&& d[(c.len() + 2) as int] matches OpView::Text { area, place, line } && area.right()
                == row.right() && area.y == row.y && printed(line) == (if shuffle {
                "shuffle on"@
            } else {
                "shuffle off"@
            })
        }),
{
    controls_say_their_state(shuffle, pen.accent);
    let c0 = put_hit(
        put_hit(c, Rect::zero(), Target::SaveStation),
        Rect::zero(),
        Target::RadioLive,
    );
    let parts = shuffle_runs(shuffle, pen.accent);
    let groups = seq![parts];
    a_right_row_prints_its_groups(c0, row, pen.mouse, groups);
    lemma_shuffle_w(shuffle, pen.accent);
    assert(spaced_out(groups, 0) =~= Seq::<char>::empty());
    assert(spaced_out(groups, 1) =~= printed(parts));
    let d = context_drawn(c, row, shuffle, queue, fold, pen);
    assert(d[(c.len() + 2) as int] == right_drawn(c0, row, pen.mouse, groups).last());
}

/// And at its left what the queue is called and how long it is.
#[verifier::rlimit(60)]
pub proof fn the_context_row_names_the_queue(
    c: Canvas,
    row: Rect,
    shuffle: bool,
    q: Queue,
    fold: Option<bool>,
    pen: Pen,
)
    requires
        context_room(row, shuffle, pen).width > 0,
    ensures
        ({
            let d = context_drawn(c, row, shuffle, Some(q), fold, pen);
            d.last() matches OpView::Text { area, place, line } && area.x == row.x && area.y == row.y
                && exists|w: nat|
                printed(line) == fold_mark(fold)@ + trimmed(#[trigger] fitted(q.name@, w))
                    + count_text(q.rows.display@.len()) + (if q.loading {
                    " (loading…)"@
                } else {
                    Seq::<char>::empty()
                })
        }),
{
    let text = context_room(row, shuffle, pen);
    let n = q.rows.display@.len();
    let label = queue_label(text, q.name@, n, fold);
    a_queue_is_told_by_its_name_and_length(text, q.name@, n, fold);
    let w = choose|w: nat|
        w <= text.width && label == fold_mark(fold)@ + trimmed(#[trigger] fitted(q.name@, w));
    let style = theme::bright().bold();
    let named = with_link(Seq::empty(), text.x, text, pen.mouse, label, style, true);
    light_changes_no_text(
        Seq::empty(),
        text.x,
        text,
        pen.mouse,
        Seq::empty(),
        label,
        style,
        true,
    );
    let line = named.push(run(count_text(n), theme::dim()));
    assert(line.drop_last() =~= named);
    let full = line.push(run(" (loading…)"@, theme::dim()));
    assert(full.drop_last() =~= line);
    let tail = if q.loading {
        " (loading…)"@
    } else {
        Seq::<char>::empty()
    };
    let drawn = if q.loading {
        full
    } else {
        line
    };
    assert(printed(named) =~= label);
    assert(line.last() == run(count_text(n), theme::dim()));
    assert(printed(line) == printed(named) + count_text(n));
    assert(printed(full) == printed(line) + " (loading…)"@);
    assert(printed(drawn) =~= fold_mark(fold)@ + trimmed(fitted(q.name@, w)) + count_text(n) + tail);
}

proof fn lemma_shuffle_w(on: bool, accent: u32)
    ensures
        groups_w(seq![shuffle_runs(on, accent)]) <= 11,
{
    reveal_strlit("shuffle ");
    reveal_strlit("on");
    reveal_strlit("off");
    let parts = shuffle_runs(on, accent);
    let groups = seq![parts];
    assert(parts.drop_last() =~= Seq::<Run>::empty());
    a_narrow_text_takes_its_length(parts[0].text);
    assert(line_cells(parts.drop_last()) == 0);
    assert(line_cells(parts) == parts[0].text.len());
    assert(groups_cells(groups, 0) == 0);
    assert(groups_cells(groups, 1) == line_cells(parts));
}

/// The controls of a title row, from the left: whether the record is liked where
/// that is known, and then the share and the add where there is an account.
pub proof fn a_title_offers_its_controls(liked: Option<bool>, add: bool, accent: u32)
    ensures
        ({
            let g = title_groups(liked, add, 0, accent);
            let first = if liked is Some {
                1int
            } else {
                0
            };
            &&& g.len() == first + (if add {
                2int
            } else {
                0
            })
            &&& liked matches Some(b) ==> printed(g[0]) == (if b {
                "★ liked"@
            } else {
                "★ like"@
            }) && g[0][0].style == (if b {
                theme::accent(accent)
            } else {
                theme::dim()
            })
            &&& add ==> printed(g[first]) == "⧉ share"@ && printed(g[first + 1]) == "+ add"@
        }),
{
    controls_say_their_state(true, accent);
    controls_say_their_state(false, accent);
    let g = title_groups(liked, add, 0, accent);
    let first = if liked is Some {
        1int
    } else {
        0
    };
    if liked is Some {
        lemma_prints_alone(g[0]);
    }
    if add {
        lemma_prints_alone(g[first]);
        lemma_prints_alone(g[first + 1]);
    }
}

/// With the room for all of them, each control of a title row answers where it
/// is printed.
#[verifier::rlimit(60)]
pub proof fn title_controls_answer_where_they_are(
    c: Canvas,
    row: Rect,
    liked: bool,
    add: bool,
    pen: Pen,
)
    requires
        !right_rects(
            row,
            pen.mouse,
            title_groups(Some(liked), add, 0, pen.accent),
        )[0].is_empty(),
    ensures
        ({
            let d = titled(c, row, Some(liked), add, pen);
            let r = right_rects(
                row,
                pen.mouse,
                title_groups(Some(liked), add, 0, pen.accent),
            );
            let n = d.len() as int;
            &&& d[n - 3] == OpView::Hit { area: r[0], target: Target::Like }
            &&& add ==> d[n - 2] == OpView::Hit { area: r[1], target: Target::Share }
            &&& add ==> d[n - 1] == OpView::Hit { area: r[2], target: Target::AddTo }
            &&& !add ==> d[n - 1] == OpView::Hit { area: Rect::zero(), target: Target::AddTo }
        }),
{
    let groups = title_groups(Some(liked), add, 0, pen.accent);
    a_right_row_prints_its_groups(c, row, pen.mouse, groups);
    let s = title_settled(c, row, Some(liked), add, pen, 0);
    assert(s.1 == Some(0nat));
}

/// A title leaves a cell clear before its controls, and has the row to itself
/// without any.
pub proof fn a_title_keeps_clear_of_its_controls(row: Rect, taken: u16)
    ensures
        taken == 0 ==> title_room(row, taken) == row.width,
        0 < taken < row.width ==> title_room(row, taken) + 1 + taken == row.width,
        taken >= row.width && taken > 0 ==> title_room(row, taken) == 0,
{
}

/// The row of a queue answers: its shuffle control at the right, and its name at
/// the left, each where it is printed.
pub proof fn the_context_row_answers(
    c: Canvas,
    row: Rect,
    shuffle: bool,
    q: Queue,
    fold: Option<bool>,
    pen: Pen,
)
    requires
        context_room(row, shuffle, pen).width > 0,
    ensures
        ({
            let d = context_drawn(c, row, shuffle, Some(q), fold, pen);
            let n = d.len() as int;
            let text = context_room(row, shuffle, pen);
            let label = queue_label(text, q.name@, q.rows.display@.len(), fold);
            &&& d[n - 2] == OpView::Hit {
                area: link_rect(text.x, text, label, true),
                target: Target::QueueName,
            }
            &&& d[n - 3] == OpView::Hit {
                area: right_rects(row, pen.mouse, seq![shuffle_runs(shuffle, pen.accent)])[0],
                target: Target::Shuffle,
            }
            &&& text.x == row.x
        }),
{
}

/// A record's sleeve is its album's, so that it does not change between tracks
/// of one; it is square on screen, and answers all over.
pub proof fn a_sleeve_is_its_albums(c: Canvas, area: Rect, track: Track, picture: Picture)
    ensures
        ({
            let d = sleeved(c, area, track, picture);
            let art = sleeve_rect(area);
            let seed = match track.album_id {
                Some(id) => id,
                None => track.name,
            };
            &&& d.last() == OpView::Hit { area: art, target: Target::Sleeve { seed } }
            &&& art.x == area.x && art.y == area.y && art.height == area.height
            &&& area.width >= 2 * area.height ==> art.width == 2 * area.height
            &&& !art.is_empty() ==> d[c.len() as int] == OpView::Art {
                area: art,
                clip: art,
                picture,
                seed: seed@,
            }
        }),
{
}

/// A station is liked or not by the record it announced.
pub proof fn a_station_is_liked_by_its_record(radio: RadioPlayback, liked: Kept)
    ensures
        radio.matched matches Some(t) ==> announced_like(radio, liked) == liked.of(t.uri@),
        radio.matched is None ==> announced_like(radio, liked) is None,
{
}

/// The pill stands in the middle of its row, and the volume leaves a cell clear
/// before it.
pub proof fn the_pill_stands_in_the_middle(row: Rect, w: u16, volume: Rect)
    requires
        w <= row.width,
        row.x + row.width <= u16::MAX,
        volume.width < row.width,
    ensures
        ({
            let p = pill_rect(row, w);
            let (left, right) = (p.x - row.x, row.x + row.width - p.x - p.width);
            &&& p.width == w && p.y == row.y
            &&& left <= right <= left + 1
        }),
        meta_room(row, volume).x == row.x,
        meta_room(row, volume).width + 1 + volume.width == row.width,
{
}

} // verus!
