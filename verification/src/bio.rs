//! The article about an artist, open over the page it is about.

use vstd::prelude::*;
use vstd::string::*;

use crate::geometry::{min16, min_usize, Rect};
use crate::playlist_picker::{draw_frame, framed, inside};
use crate::scene::{
    put_hit, put_text, row_of, rows_of, run, Canvas, Line, ListId, Op, OpView, Row, RowView,
    Run, Scene, Target,
};
use crate::state::{clamp_offset, same_text, AppState, BioPopup, MainView, Pen};
use crate::table::{
    barred, centered, centered_rect, draw_scrollbar, hover_row, lemma_prints_alone, printed,
};
use crate::text::{
    chars_of, clipped, fitted, joined, low16, low_half, text_of, texts_of, trimmed, width,
    width_of, wrap, wrapped,
};
use crate::theme;

verus! {

/// The widest and the tallest the box gets.
pub const BIO_W: u16 = 76;

pub const BIO_H: u16 = 26;

pub const CONTROLS: &'static str = "j / k  scroll · Esc  close";

/// The article's address without its scheme.
pub open spec fn credit_of(url: Seq<char>) -> Seq<char> {
    let scheme = "https://"@;
    if url.len() >= scheme.len() && url.take(scheme.len() as int) == scheme {
        url.skip(scheme.len() as int)
    } else {
        url
    }
}

pub fn credit(source_url: &str) -> (r: String)
    ensures
        r@ == credit_of(source_url@),
{
    let v = chars_of(source_url);
    let scheme = chars_of("https://");
    let n: usize = scheme.len();
    if v.len() < n {
        return source_url.to_owned();
    }
    let mut i: usize = 0;
    while i < n
        invariant
            i <= n,
            n == scheme@.len(),
            n <= v@.len(),
            v@ == source_url@,
            scheme@ == "https://"@,
            forall|j: int| 0 <= j < i ==> v@[j] == scheme@[j],
        decreases n - i,
    {
        if v[i] != scheme[i] {
            assert(source_url@.take(n as int)[i as int] == v@[i as int]);
            return source_url.to_owned();
        }
        i = i + 1;
    }
    assert(source_url@.take(n as int) =~= "https://"@);
    let r = text_of(&v, n, v.len());
    assert(r@ =~= source_url@.skip(n as int));
    r
}

/// The canvas with the box's last row on it: what can be done to it, and whose
/// prose it is where there is room for both.
pub open spec fn footer_drawn(c: Canvas, inner: Rect, credit: Seq<char>) -> Canvas {
    let footer = Rect {
        x: inner.x,
        y: inner.bottom().saturating_sub(1),
        width: inner.width,
        height: 1,
    };
    let c = put_text(c, footer, Seq::empty().push(run(CONTROLS@, theme::dim())));
    let w = low16(width_of(credit) as int);
    if footer.width >= low16(width_of(CONTROLS@) as int) + w + 2 {
        put_text(
            c,
            Rect {
                x: footer.right().saturating_sub(w),
                y: footer.y,
                width: w,
                height: footer.height,
            },
            Seq::empty().push(run(credit, theme::dim().italic())),
        )
    } else {
        c
    }
}

fn draw_footer(scene: &mut Scene, inner: Rect, credit: String)
    ensures
        final(scene)@ == footer_drawn(old(scene)@, inner, credit@),
{
    let footer = Rect {
        x: inner.x,
        y: inner.bottom().saturating_sub(1),
        width: inner.width,
        height: 1,
    };
    scene.text(footer, Line::of(CONTROLS.to_owned(), theme::dim()));
    let w: u16 = low_half(width(credit.as_str()));
    if footer.width as u32 >= low_half(width(CONTROLS)) as u32 + w as u32 + 2 {
        scene.text(
            Rect {
                x: footer.right().saturating_sub(w),
                y: footer.y,
                width: w,
                height: footer.height,
            },
            Line::of(credit, theme::dim().italic()),
        );
    }
}

/// Whether the open page is the one the article is about.
pub open spec fn bio_belongs(st: AppState, popup: BioPopup) -> bool {
    st.main matches MainView::Artist(v) && v.id@ == popup.artist_id@
}

/// The article that is still about the open page.
pub open spec fn kept_bio(st: AppState) -> Option<BioPopup> {
    match st.bio {
        Some(popup) if bio_belongs(st, popup) => Some(popup),
        _ => None,
    }
}

/// Close an article whose page was swapped underneath it: one artist's history
/// never stands under another's name.
pub fn close_swapped(st: &mut AppState)
    ensures
        *final(st) == (AppState { bio: kept_bio(*old(st)), ..*old(st) }),
{
    let keep: bool = match (&st.bio, &st.main) {
        (Some(popup), MainView::Artist(v)) => same_text(&v.id, &popup.artist_id),
        _ => false,
    };
    if !keep {
        st.bio = None;
    }
}

/// An article that is still open is about the page it lies over.
pub proof fn an_article_never_outlives_its_page(st: AppState)
    ensures
        kept_bio(st) matches Some(popup) ==> st.bio == Some(popup) && bio_belongs(st, popup),
{
}

/// The cells across the box.
#[verifier::allow_in_spec]
pub fn bio_w(screen: Rect) -> u16
    returns
        min16(BIO_W, screen.width.saturating_sub(4)),
{
    min16(BIO_W, screen.width.saturating_sub(4))
}

/// The rows down the box: what the prose takes with its chrome, held to what
/// the box and the screen allow.
#[verifier::allow_in_spec]
pub fn bio_h(screen: Rect, lines: usize) -> u16
    returns
        min16(
            min_usize(lines.saturating_add(4), BIO_H as usize) as u16,
            screen.height.saturating_sub(2),
        ),
{
    min16(
        min_usize(lines.saturating_add(4), BIO_H as usize) as u16,
        screen.height.saturating_sub(2),
    )
}

/// The prose on screen: a line of `text` for each row, from `offset` on.
pub open spec fn prose_rows(text: Seq<Seq<char>>) -> Seq<RowView> {
    Seq::new(
        text.len(),
        |i: int| row_of(Seq::empty().push(run(text[i], theme::text())), false),
    )
}

/// The canvas with the prose on it, scrolled no further than it goes.
pub open spec fn prose_drawn(
    c: Canvas,
    inner: Rect,
    prose: Rect,
    text: Seq<char>,
    offset: usize,
) -> Canvas {
    let lines = wrapped(text, prose.width as nat);
    let len = lines.len() as usize;
    let at = clamp_offset(offset, len, prose.height as usize);
    let c = put_hit(
        c.push(
            OpView::List { id: ListId::Bio, area: prose, offset: at, rows: prose_rows(lines) },
        ),
        prose,
        Target::BioBody,
    );
    barred(
        c,
        Rect { x: inner.right(), y: prose.y, width: 1, height: prose.height },
        len,
        at,
    )
}

fn draw_prose(scene: &mut Scene, inner: Rect, prose: Rect, text: &str, offset: usize)
    ensures
        final(scene)@ == prose_drawn(old(scene)@, inner, prose, text@, offset),
{
    let lines = wrap(text, prose.width as usize);
    let ghost lv = texts_of(lines@);
    let len: usize = lines.len();
    let at: usize = clamp_offset(offset, len, prose.height as usize);
    let mut rows: Vec<Row> = Vec::new();
    let mut i: usize = 0;
    while i < len
        invariant
            i <= len,
            len == lines@.len(),
            lv == texts_of(lines@),
            rows@.len() == i,
            forall|j: int| 0 <= j < i ==> (#[trigger] rows@[j])@ == prose_rows(lv)[j],
        decreases len - i,
    {
        rows.push(hover_row(Line::of(lines[i].clone(), theme::text()), false));
        i = i + 1;
    }
    assert(rows_of(rows@) =~= prose_rows(lv));
    scene.put(Op::List { id: ListId::Bio, area: prose, offset: at, rows });
    scene.hit(prose, Target::BioBody);
    draw_scrollbar(
        scene,
        Rect { x: inner.right(), y: prose.y, width: 1, height: prose.height },
        len,
        at,
    );
}

/// The box's title: the artist's name, cut to the frame.
pub open spec fn bio_title(name: Seq<char>, area: Rect) -> Seq<char> {
    " "@ + trimmed(fitted(name, area.width.saturating_sub(4) as nat)) + " "@
}

/// Where the box is.
pub open spec fn bio_area(screen: Rect, popup: BioPopup) -> Rect {
    let lines = wrapped(popup.text@, bio_w(screen).saturating_sub(3) as nat).len();
    centered_rect(screen, bio_w(screen), bio_h(screen, lines as usize))
}

/// The canvas with the box on it, where it belongs to the page under it and the
/// screen has room.
pub open spec fn bio_drawn(
    c: Canvas,
    screen: Rect,
    st: AppState,
    popup: BioPopup,
    pen: Pen,
) -> Canvas {
    let area = bio_area(screen, popup);
    if !bio_belongs(st, popup) || bio_w(screen) <= 3 || area.width < 3 || area.height < 3 {
        c
    } else {
        let c = put_hit(
            framed(c, area, bio_title(popup.name@, area), pen.accent),
            area,
            Target::BioBox,
        );
        let inner = inside(area);
        let prose = Rect {
            x: inner.x,
            y: inner.y,
            width: inner.width.saturating_sub(1),
            height: inner.height.saturating_sub(2),
        };
        if prose.width == 0 {
            c
        } else {
            footer_drawn(
                prose_drawn(c, inner, prose, popup.text@, popup.offset),
                inner,
                credit_of(popup.source_url@),
            )
        }
    }
}

/// The article over the artist's page. A page swapped under it takes it away.
pub fn draw(scene: &mut Scene, screen: Rect, st: &AppState, popup: &BioPopup, pen: Pen)
    ensures
        final(scene)@ == bio_drawn(old(scene)@, screen, *st, *popup, pen),
{
    let mine: bool = match &st.main {
        MainView::Artist(v) => same_text(&v.id, &popup.artist_id),
        _ => false,
    };
    let box_w: u16 = bio_w(screen);
    let measured = wrap(popup.text.as_str(), box_w.saturating_sub(3) as usize);
    assert(texts_of(measured@).len() == measured@.len());
    let area = centered(screen, box_w, bio_h(screen, measured.len()));
    if !mine || box_w <= 3 || area.width < 3 || area.height < 3 {
        return;
    }
    let name = clipped(popup.name.as_str(), area.width.saturating_sub(4) as usize);
    let head = joined(" ", name.as_str());
    draw_frame(scene, area, joined(head.as_str(), " "), pen.accent);
    scene.hit(area, Target::BioBox);
    let inner = inside(area);
    let prose = Rect {
        x: inner.x,
        y: inner.y,
        width: inner.width.saturating_sub(1),
        height: inner.height.saturating_sub(2),
    };
    if prose.width == 0 {
        return;
    }
    draw_prose(scene, inner, prose, popup.text.as_str(), popup.offset);
    draw_footer(scene, inner, credit(popup.source_url.as_str()));
}

/// The prose owns the whole width of its box but the cell its scrollbar has.
pub proof fn the_prose_owns_the_width(area: Rect)
    requires
        area.width > 3,
    ensures
        inside(area).width.saturating_sub(1) == area.width - 3,
        area.x < 0xFFFF ==> inside(area).x == area.x + 1,
{
}

/// The article's rows are the lines it wraps into, every one, in order.
pub proof fn the_whole_article_is_listed(
    c: Canvas,
    inner: Rect,
    prose: Rect,
    text: Seq<char>,
    offset: usize,
)
    ensures
        ({
            let d = prose_drawn(c, inner, prose, text, offset);
            let lines = wrapped(text, prose.width as nat);
            &&& d.len() > c.len()
            &&& d[c.len() as int] matches OpView::List { id, area, offset: at, rows } && id
                == ListId::Bio && area == prose && at <= offset && rows.len() == lines.len() && (
            forall|i: int| 0 <= i < rows.len() ==> printed((#[trigger] rows[i]).line) == lines[i])
        }),
{
    let d = prose_drawn(c, inner, prose, text, offset);
    let lines = wrapped(text, prose.width as nat);
    let rows = prose_rows(lines);
    assert forall|i: int| 0 <= i < rows.len() implies printed((#[trigger] rows[i]).line)
        == lines[i] by {
        lemma_prints_alone(rows[i].line);
    }
}

/// The source of an article is told without the scheme of its address, and an
/// address of any other kind as it is.
pub proof fn a_source_is_told_without_its_scheme(rest: Seq<char>, url: Seq<char>)
    ensures
        credit_of("https://"@ + rest) == rest,
        url.len() < 8 ==> credit_of(url) == url,
        url.len() >= 8 && url.take(8) != "https://"@ ==> credit_of(url) == url,
{
    reveal_strlit("https://");
    let full = "https://"@ + rest;
    assert(full.take(8) =~= "https://"@);
    assert(full.skip(8) =~= rest);
}

/// The box is headed by the artist's name.
pub proof fn the_box_is_headed_by_the_name(name: Seq<char>, area: Rect)
    ensures
        bio_title(name, area) == seq![' '] + trimmed(
            fitted(name, area.width.saturating_sub(4) as nat),
        ) + seq![' '],
{
    reveal_strlit(" ");
    assert(" "@ =~= seq![' ']);
}

/// The foot of the box says how to get about in it, and opposite that where the
/// article came from, where both fit.
pub proof fn the_foot_tells_the_source(c: Canvas, inner: Rect, credit: Seq<char>)
    ensures
        ({
            let d = footer_drawn(c, inner, credit);
            let last = inner.bottom().saturating_sub(1);
            &&& d.len() > c.len()
            &&& d[c.len() as int] matches OpView::Text { area, place, line } && area.y == last
                && printed(line) == "j / k  scroll · Esc  close"@
            &&& d.len() > c.len() + 1 ==> (d.last() matches OpView::Text { area, place, line }
                && area.y == last && printed(line) == credit)
        }),
{
    lemma_prints_alone(Seq::<Run>::empty().push(run(CONTROLS@, theme::dim())));
    lemma_prints_alone(Seq::<Run>::empty().push(run(credit, theme::dim().italic())));
}

/// The article's box leaves two cells of the screen on either side and a row over
/// and under it, is no larger than it has to be, and never larger than it may.
pub proof fn the_box_is_as_large_as_its_article(screen: Rect, lines: usize)
    requires
        screen.width >= 4,
        screen.height >= 2,
    ensures
        bio_w(screen) <= 76,
        bio_w(screen) == 76 || bio_w(screen) + 4 == screen.width,
        bio_h(screen, lines) <= 26,
        bio_h(screen, lines) + 2 <= screen.height,
        lines <= 22 && lines + 6 <= screen.height ==> bio_h(screen, lines) == lines + 4,
        lines > 22 && screen.height >= 28 ==> bio_h(screen, lines) == 26,
{
}

} // verus!
