//! What a page says in its middle when it has nothing to list.

use vstd::prelude::*;
use vstd::string::*;

use crate::geometry::{Position, Rect};
use crate::rows::one;
use crate::scene::{put_hit, put_text, Canvas, Line, Op, OpView, Place, Run, Scene, Target};
use crate::state::{LoadError, Pen};
use crate::table::{lemma_prints_alone, printed, segment, segment_rect, spinner, with_segment};
use crate::text::{
    a_number_reads_back, clipped, dec, decimal, digits_alone, fitted, joined, low16, low_half,
    number_in, trimmed, width, width_of,
};
use crate::theme;

verus! {

/// The control a failed page carries.
pub const RETRY_PILL: &'static str = "↻ try again";

/// The row `down` rows below the middle of `inner`.
#[verifier::allow_in_spec]
pub fn middle_row(inner: Rect, down: u16) -> Rect
    returns
        inner.band((inner.height / 2).saturating_add(down), 1),
{
    inner.band((inner.height / 2).saturating_add(down), 1)
}

/// The canvas with a line across the pane, `down` rows below its middle, where
/// that row is in the pane.
pub open spec fn line_centered(c: Canvas, inner: Rect, down: u16, line: Seq<Run>) -> Canvas {
    let row = middle_row(inner, down);
    if inner.height == 0 || row.bottom() > inner.bottom() {
        c
    } else {
        c.push(OpView::Text { area: row, place: Place::Center, line })
    }
}

/// One line across the pane, `down` rows below its middle.
pub fn centered_line(scene: &mut Scene, inner: Rect, down: u16, line: Line)
    ensures
        final(scene)@ == line_centered(old(scene)@, inner, down, line@),
{
    if inner.height == 0 {
        return;
    }
    let row = middle_row(inner, down);
    if row.bottom() > inner.bottom() {
        return;
    }
    scene.put(Op::Text { area: row, place: Place::Center, line });
}

/// The canvas with a dim hint in the middle of the pane.
pub open spec fn hinted(c: Canvas, inner: Rect, text: Seq<char>) -> Canvas {
    line_centered(c, inner, 0, one(text, theme::dim()))
}

/// A dim hint for a page with nothing to list.
pub fn empty_message(scene: &mut Scene, inner: Rect, text: &str)
    ensures
        final(scene)@ == hinted(old(scene)@, inner, text@),
{
    centered_line(scene, inner, 0, Line::of(text.to_owned(), theme::dim()));
}

/// A spinner and what is being waited for.
pub open spec fn waiting(text: Seq<char>, elapsed_ms: u64) -> Seq<char> {
    spinner(elapsed_ms)@ + " "@ + text
}

/// A spinner and a label while a page's own contents are in flight: a pane that
/// drew nothing while it waits would read like one that came back with nothing.
pub fn loading_message(scene: &mut Scene, inner: Rect, text: &str, elapsed_ms: u64)
    ensures
        final(scene)@ == hinted(old(scene)@, inner, waiting(text@, elapsed_ms)),
{
    let head = joined(spinner(elapsed_ms), " ");
    let label = joined(head.as_str(), text);
    empty_message(scene, inner, label.as_str());
}

/// What a failed page says of the times it was asked for again.
pub open spec fn tally_text(retries: u32) -> Seq<char> {
    if retries == 1 {
        "asked again once"@
    } else {
        "asked again "@ + decimal(retries as nat) + " times"@
    }
}

fn tally(retries: u32) -> (r: String)
    ensures
        r@ == tally_text(retries),
{
    if retries == 1 {
        "asked again once".to_owned()
    } else {
        let n = dec(retries as u64);
        let head = joined("asked again ", n.as_str());
        joined(head.as_str(), " times")
    }
}

/// The row of the control on a failed page.
#[verifier::allow_in_spec]
pub fn retry_row(inner: Rect) -> Rect
    returns
        middle_row(inner, 3),
{
    middle_row(inner, 3)
}

/// Whether the control on a failed page fits it whole. One that ran off the
/// pane would answer a click on a row that never offered it.
pub open spec fn retry_fits(inner: Rect) -> bool {
    inner.height >= 3 && retry_row(inner).bottom() <= inner.bottom() && low16(
        width_of(RETRY_PILL@) as int,
    ) <= inner.width
}

/// The canvas with the control of a failed page on it, where it fits.
pub open spec fn retry_drawn(c: Canvas, inner: Rect, pen: Pen) -> Canvas {
    if !retry_fits(inner) {
        c
    } else {
        let row = retry_row(inner);
        let w = low16(width_of(RETRY_PILL@) as int);
        let at = row.strip(row.width.saturating_sub(w) / 2, w);
        let parts = one(RETRY_PILL@, theme::accent(pen.accent));
        put_text(
            put_hit(c, segment_rect(at.x, row, parts), Target::Retry),
            at,
            with_segment(Seq::empty(), at.x, row, pen.mouse, parts),
        )
    }
}

/// Draw the control of a failed page, where it fits whole.
fn draw_retry(scene: &mut Scene, inner: Rect, pen: Pen)
    ensures
        final(scene)@ == retry_drawn(old(scene)@, inner, pen),
{
    if inner.height < 3 {
        return;
    }
    let row = retry_row(inner);
    let w: u16 = low_half(width(RETRY_PILL));
    if row.bottom() > inner.bottom() || w > inner.width {
        return;
    }
    let at = row.strip(row.width.saturating_sub(w) / 2, w);
    let mut line = Line::empty();
    let mut x: u16 = at.x;
    let part = Line::of(RETRY_PILL.to_owned(), theme::accent(pen.accent));
    let rect = segment(&mut line, &mut x, row, pen.mouse, part);
    scene.hit(rect, Target::Retry);
    scene.text(at, line);
}

/// The canvas with a failed page's notice on it.
pub open spec fn failed(c: Canvas, inner: Rect, err: LoadError, retries: u32, pen: Pen) -> Canvas {
    let message = trimmed(fitted(err.message@, inner.width as nat));
    let c = line_centered(c, inner, 0, one(message, theme::warn()));
    let c = if retries > 0 {
        line_centered(c, inner, 1, one(tally_text(retries), theme::dim()))
    } else {
        c
    };
    retry_drawn(c, inner, pen)
}

/// A failure notice, with a control under it to ask again. The line between
/// them counts the answers that were the same refusal.
pub fn error_message(scene: &mut Scene, inner: Rect, err: &LoadError, retries: u32, pen: Pen)
    ensures
        final(scene)@ == failed(old(scene)@, inner, *err, retries, pen),
{
    let message = clipped(err.message.as_str(), inner.width as usize);
    centered_line(scene, inner, 0, Line::of(message, theme::warn()));
    if retries > 0 {
        centered_line(scene, inner, 1, Line::of(tally(retries), theme::dim()));
    }
    draw_retry(scene, inner, pen);
}

/// The canvas of a page with nothing on it: why it failed, that it is on its
/// way, or that there is nothing to come.
pub open spec fn nothing_listed(
    c: Canvas,
    body: Rect,
    error: Option<LoadError>,
    loading: bool,
    wait: Seq<char>,
    empty: Seq<char>,
    retries: u32,
    pen: Pen,
) -> Canvas {
    let c = put_hit(c, body, Target::MainList);
    match error {
        Some(e) => failed(c, body, e, retries, pen),
        None => if loading {
            hinted(c, body, waiting(wait, pen.elapsed_ms))
        } else {
            hinted(c, body, empty)
        },
    }
}

/// Draw a page that has nothing to list.
pub fn list_nothing(
    scene: &mut Scene,
    body: Rect,
    error: &Option<LoadError>,
    loading: bool,
    wait: &str,
    empty: &str,
    retries: u32,
    pen: Pen,
)
    ensures
        final(scene)@ == nothing_listed(
            old(scene)@,
            body,
            *error,
            loading,
            wait@,
            empty@,
            retries,
            pen,
        ),
{
    scene.hit(body, Target::MainList);
    match error {
        Some(e) => error_message(scene, body, e, retries, pen),
        None => if loading {
            loading_message(scene, body, wait, pen.elapsed_ms);
        } else {
            empty_message(scene, body, empty);
        },
    }
}

/// A page that did not fail offers nothing to try again, and one that did
/// offers it only inside its own pane.
pub proof fn a_retry_stays_in_its_pane(c: Canvas, inner: Rect, pen: Pen, at: Position)
    ensures
        !retry_fits(inner) ==> retry_drawn(c, inner, pen) == c,
        retry_fits(inner) ==> (retry_drawn(c, inner, pen)[c.len() as int] matches OpView::Hit {
            area,
            target,
        } && target == Target::Retry && (area.contains(at) ==> inner.contains(at))),
{
}

/// A pane with nothing in it says why: what went wrong before that it waits,
/// and that it waits before that there is nothing.
pub proof fn an_empty_pane_says_why(
    c: Canvas,
    body: Rect,
    error: Option<LoadError>,
    loading: bool,
    wait: Seq<char>,
    empty: Seq<char>,
    retries: u32,
    pen: Pen,
)
    requires
        body.height > 0,
        body.y + body.height <= u16::MAX,
    ensures
        ({
            let d = nothing_listed(c, body, error, loading, wait, empty, retries, pen);
            &&& d.len() > c.len() + 1
            &&& d[c.len() as int] == OpView::Hit { area: body, target: Target::MainList }
            &&& d[(c.len() + 1) as int] matches OpView::Text { area, place, line } && area.y == body.y
                + body.height / 2 && place == Place::Center && printed(line) == (match error {
                Some(e) => trimmed(fitted(e.message@, body.width as nat)),
                None => if loading {
                    spinner(pen.elapsed_ms)@ + seq![' '] + wait
                } else {
                    empty
                },
            })
        }),
{
    reveal_strlit(" ");
    assert(" "@ =~= seq![' ']);
    let c1 = put_hit(c, body, Target::MainList);
    match error {
        Some(e) => {
            lemma_prints_alone(
                one(trimmed(fitted(e.message@, body.width as nat)), theme::warn()),
            );
            let m = line_centered(
                c1,
                body,
                0,
                one(trimmed(fitted(e.message@, body.width as nat)), theme::warn()),
            );
            let d = failed(c1, body, e, retries, pen);
            assert(d[(c.len() + 1) as int] == m.last());
        },
        None => {
            lemma_prints_alone(one(waiting(wait, pen.elapsed_ms), theme::dim()));
            lemma_prints_alone(one(empty, theme::dim()));
        },
    }
}

/// The tally counts how often the page was asked for again.
pub proof fn the_tally_counts_the_retries(retries: u32)
    ensures
        retries == 1 ==> tally_text(retries) == "asked again once"@,
        retries != 1 ==> exists|n: Seq<char>|
            {
                &&& #[trigger] digits_alone(n)
                &&& number_in(n) == retries
                &&& tally_text(retries) == "asked again "@ + n + " times"@
            },
{
    a_number_reads_back(retries as nat);
    assert(digits_alone(decimal(retries as nat)));
}

/// A page that was asked for again says how often, under what went wrong; one
/// that was not says nothing of it.
pub proof fn a_failed_page_tells_its_retries(
    c: Canvas,
    inner: Rect,
    err: LoadError,
    retries: u32,
    pen: Pen,
)
    requires
        inner.height >= 3,
        inner.y + inner.height <= u16::MAX,
    ensures
        ({
            let d = failed(c, inner, err, retries, pen);
            &&& retries > 0 ==> (d[(c.len() + 1) as int] matches OpView::Text { area, place, line }
                && area.y == inner.y + inner.height / 2 + 1 && printed(line) == tally_text(retries))
            &&& retries == 0 && !retry_fits(inner) ==> d.len() == c.len() + 1
        }),
{
    lemma_prints_alone(one(tally_text(retries), theme::dim()));
}

} // verus!
