//! The landing page: the destinations the player opens onto.

use vstd::prelude::*;
use vstd::string::*;
use vstd::utf8::*;

use crate::columns::{blank, word};
use crate::geometry::{min_usize, over, Position, Rect};
use crate::rows::{one, toned};
use crate::scene::{
    put_hit, row_of, rows_of, run, Canvas, Line, ListId, Op, OpView, Row, RowView, Run, Scene,
    Target,
};
use crate::state::{clamp_offset, HomeEntry};
use crate::table::{
    apply_selection, hover_row, hover_style, lemma_prints_alone, lemma_prints_first,
    lemma_same_texts_print, printed,
};
use crate::text::{
    cells, clipped, copies, fit, fitted, joined, repeated, spaces, trimmed, width, width_of,
};
use crate::theme;
use crate::theme::Style;

verus! {

/// Where `height` lines of a scrolled page from line `start` land on screen:
/// nowhere, once they are scrolled out of `inner`.
pub open spec fn entry_area(inner: Rect, offset: usize, start: nat, height: u16) -> Rect {
    if start < offset {
        Rect::zero()
    } else {
        let down = if start - offset <= u16::MAX {
            (start - offset) as u16
        } else {
            u16::MAX
        };
        inner.band(down, height).intersection(inner)
    }
}

pub fn entry_rect(inner: Rect, offset: usize, start: usize, height: u16) -> (r: Rect)
    ensures
        r == entry_area(inner, offset, start as nat, height),
{
    if start < offset {
        Rect::zero()
    } else {
        let down: u16 = min_usize(start - offset, u16::MAX as usize) as u16;
        inner.band(down, height).intersection(inner)
    }
}

/// Where entry `i` answers.
pub open spec fn home_rect(inner: Rect, offset: usize, i: int) -> Rect {
    entry_area(inner, offset, (i * 3) as nat, 2)
}

/// The title of an entry as it is printed, beside its count.
pub open spec fn home_title(entry: HomeEntry, name_w: usize) -> Seq<char> {
    trimmed(fitted(entry.title@, name_w.saturating_sub(width_of(entry.count@)) as nat))
}

/// The blanks between a title and its count.
pub open spec fn home_pad(entry: HomeEntry, name_w: usize) -> usize {
    name_w.saturating_sub(
        width_of(home_title(entry, name_w)).saturating_add(width_of(entry.count@)),
    )
}

/// The name row of an entry: the title, and the count at the far end of it.
/// Under the pointer the title lights.
pub open spec fn home_name(entry: HomeEntry, name_w: usize, selected: bool, lit: bool) -> Seq<Run> {
    let line = Seq::<Run>::empty().push(blank(2)).push(
        run(home_title(entry, name_w), theme::text()),
    ).push(blank(home_pad(entry, name_w))).push(run(entry.count@, theme::dim()));
    let line = toned(line, selected);
    if lit {
        line.update(1, run(line[1].text, hover_style(line[1].style)))
    } else {
        line
    }
}

/// The row under an entry's name.
pub open spec fn home_blurb(entry: HomeEntry, name_w: usize) -> Seq<Run> {
    one("  "@ + fitted(entry.blurb@, name_w as nat), theme::dim())
}

fn name_line(entry: &HomeEntry, name_w: usize, selected: bool, lit: bool) -> (line: Line)
    ensures
        line@ == home_name(*entry, name_w, selected, lit),
{
    let count_w: usize = width(entry.count.as_str());
    let title = clipped(entry.title.as_str(), name_w.saturating_sub(count_w));
    let pad: usize = name_w.saturating_sub(width(title.as_str()).saturating_add(count_w));
    let mut line = Line::empty();
    line.put(repeated(' ', 2), Style::plain());
    line.put(title, theme::text());
    line.put(repeated(' ', pad), Style::plain());
    line.put(entry.count.clone(), theme::dim());
    if selected {
        apply_selection(&mut line);
    }
    if lit {
        assert(line@.len() == 4);
        let style = hover_style(line.spans[1].style);
        line.restyle(1, style);
    }
    line
}

fn blurb_line(entry: &HomeEntry, name_w: usize) -> (line: Line)
    ensures
        line@ == home_blurb(*entry, name_w),
{
    let blurb = fit(entry.blurb.as_str(), name_w);
    Line::of(joined("  ", blurb.as_str()), theme::dim())
}

/// A page of lines, each with the entry it belongs to.
pub struct HomePage {
    pub rows: Seq<RowView>,
    pub owners: Seq<Option<usize>>,
    pub canvas: Canvas,
}

/// The first `n` entries of the page.
pub open spec fn home_page(
    c: Canvas,
    inner: Rect,
    items: Seq<HomeEntry>,
    n: nat,
    index: usize,
    offset: usize,
    mouse: Option<Position>,
) -> HomePage
    decreases n,
{
    if n == 0 {
        HomePage { rows: Seq::empty(), owners: Seq::empty(), canvas: c }
    } else {
        let p = home_page(c, inner, items, (n - 1) as nat, index, offset, mouse);
        let i = n - 1;
        let rect = home_rect(inner, offset, i);
        let name_w = (inner.width as usize).saturating_sub(2);
        let (rows, owners) = if n > 1 {
            (p.rows.push(row_of(Seq::empty(), false)), p.owners.push(None))
        } else {
            (p.rows, p.owners)
        };
        HomePage {
            rows: rows.push(
                row_of(home_name(items[i], name_w, i == index, over(mouse, rect)), false),
            ).push(row_of(home_blurb(items[i], name_w), false)),
            owners: owners.push(Some(i as usize)).push(Some(i as usize)),
            canvas: put_hit(p.canvas, rect, Target::HomeRow(i as usize)),
        }
    }
}

/// The canvas with the landing page on it.
pub open spec fn home_drawn(
    c: Canvas,
    inner: Rect,
    items: Seq<HomeEntry>,
    index: usize,
    offset: usize,
    mouse: Option<Position>,
) -> Canvas {
    if inner.width == 0 || inner.height == 0 {
        c
    } else {
        let at = clamp_offset(offset, word(items.len() * 3), inner.height as usize);
        let p = home_page(c, inner, items, items.len(), index, at, mouse);
        put_hit(
            p.canvas.push(OpView::LineRows { owners: p.owners }),
            inner,
            Target::MainList,
        ).push(OpView::List { id: ListId::Main, area: inner, offset: at, rows: p.rows })
    }
}

/// Three lines to an entry, held to a machine word.
fn home_len(n: usize) -> (r: usize)
    ensures
        r == word((n * 3) as nat),
{
    if n > usize::MAX / 3 {
        usize::MAX
    } else {
        n * 3
    }
}

/// The landing page: a name to each entry and a dim line saying what it holds.
/// Every entry is one control two lines tall.
pub fn draw_home(
    scene: &mut Scene,
    inner: Rect,
    items: &Vec<HomeEntry>,
    index: usize,
    offset: usize,
    mouse: Option<Position>,
)
    ensures
        final(scene)@ == home_drawn(old(scene)@, inner, items@, index, offset, mouse),
{
    if inner.width == 0 || inner.height == 0 {
        return;
    }
    let name_w: usize = (inner.width as usize).saturating_sub(2);
    let at: usize = clamp_offset(offset, home_len(items.len()), inner.height as usize);
    let ghost c = scene@;
    let mut rows: Vec<Row> = Vec::new();
    let mut owners: Vec<Option<usize>> = Vec::new();
    let mut i: usize = 0;
    assert(rows_of(rows@) =~= Seq::<RowView>::empty());
    while i < items.len()
        invariant
            i <= items@.len(),
            name_w == (inner.width as usize).saturating_sub(2),
            ({
                let p = home_page(c, inner, items@, i as nat, index, at, mouse);
                rows_of(rows@) == p.rows && owners@ == p.owners && scene@ == p.canvas
            }),
            rows@.len() == (if i == 0 {
                0
            } else {
                i * 3 - 1
            }),
        decreases items@.len() - i,
    {
        let ghost p = home_page(c, inner, items@, i as nat, index, at, mouse);
        if i > 0 {
            rows.push(hover_row(Line::empty(), false));
            owners.push(None);
            assert(rows_of(rows@) =~= p.rows.push(row_of(Seq::empty(), false)));
        }
        let ghost before = rows_of(rows@);
        let rect = entry_rect(inner, at, rows.len(), 2);
        assert(rect == home_rect(inner, at, i as int));
        scene.hit(rect, Target::HomeRow(i));
        let name = name_line(&items[i], name_w, i == index, over(mouse, rect));
        rows.push(hover_row(name, false));
        owners.push(Some(i));
        rows.push(hover_row(blurb_line(&items[i], name_w), false));
        owners.push(Some(i));
        assert(rows_of(rows@) =~= before.push(
            row_of(home_name(items@[i as int], name_w, i == index, over(mouse, rect)), false),
        ).push(row_of(home_blurb(items@[i as int], name_w), false)));
        i = i + 1;
    }
    scene.put(Op::LineRows { owners });
    scene.hit(inner, Target::MainList);
    scene.put(Op::List { id: ListId::Main, area: inner, offset: at, rows });
}

/// Entry `i` owns the two lines from its name on, and the blank before it is
/// nobody's: a click on either line lands on the entry drawn there.
pub proof fn home_lines_name_their_entry(
    c: Canvas,
    inner: Rect,
    items: Seq<HomeEntry>,
    n: nat,
    index: usize,
    offset: usize,
    mouse: Option<Position>,
)
    requires
        n <= items.len(),
        n <= usize::MAX,
    ensures
        ({
            let owners = home_page(c, inner, items, n, index, offset, mouse).owners;
            &&& owners.len() == (if n == 0 {
                0
            } else {
                n * 3 - 1
            })
            &&& owners.len() == home_page(c, inner, items, n, index, offset, mouse).rows.len()
            &&& forall|k: int|
                0 <= k < owners.len() ==> #[trigger] owners[k] == (if k % 3 == 2 {
                    None
                } else {
                    Some((k / 3) as usize)
                })
        }),
    decreases n,
{
    if n > 0 {
        home_lines_name_their_entry(c, inner, items, (n - 1) as nat, index, offset, mouse);
    }
}

/// An entry prints its title, cut to the room its count leaves, and the count
/// at the far end of the row; under it what it is about.
#[verifier::rlimit(60)]
pub proof fn an_entry_prints_its_title_and_count(
    entry: HomeEntry,
    name_w: usize,
    selected: bool,
    lit: bool,
)
    ensures
        ({
            let room = name_w.saturating_sub(width_of(entry.count@)) as nat;
            let title = trimmed(fitted(entry.title@, room));
            exists|pad: nat|
                {
                    &&& printed(home_name(entry, name_w, selected, lit)) == spaces(2) + title
                        + #[trigger] spaces(pad) + entry.count@
                    &&& cells(title) + cells(entry.count@) <= name_w ==> cells(title) + pad + cells(
                        entry.count@,
                    ) == name_w
                }
        }),
        printed(home_blurb(entry, name_w)) == spaces(2) + fitted(entry.blurb@, name_w as nat),
{
    reveal_strlit("  ");
    assert("  "@ =~= spaces(2));
    lemma_prints_alone(home_blurb(entry, name_w));
    let pad = home_pad(entry, name_w) as nat;
    let base = Seq::<Run>::empty().push(blank(2)).push(
        run(home_title(entry, name_w), theme::text()),
    ).push(blank(home_pad(entry, name_w))).push(run(entry.count@, theme::dim()));
    let line = home_name(entry, name_w, selected, lit);
    lemma_same_texts_print(base, line);
    lemma_prints_first(base, 4);
    lemma_prints_first(base, 3);
    lemma_prints_first(base, 2);
    lemma_prints_first(base, 1);
    assert(printed(base.take(0)) =~= Seq::<char>::empty());
    assert(base.take(4) =~= base);
    assert(copies(' ', 2) =~= spaces(2));
    assert(copies(' ', pad) =~= spaces(pad));
    assert(printed(base) =~= spaces(2) + home_title(entry, name_w) + spaces(pad) + entry.count@);
}

/// The page lists its entries in order, two rows to each and a blank between
/// two, and an entry answers on its own two rows.
#[verifier::rlimit(60)]
pub proof fn entries_are_listed_in_order(
    c: Canvas,
    inner: Rect,
    items: Seq<HomeEntry>,
    n: nat,
    index: usize,
    offset: usize,
    mouse: Option<Position>,
)
    requires
        n <= items.len(),
        n <= usize::MAX,
    ensures
        ({
            let p = home_page(c, inner, items, n, index, offset, mouse);
            let w = (inner.width as usize).saturating_sub(2);
            &&& p.canvas.len() == c.len() + n
            &&& forall|i: int|
                0 <= i < n ==> {
                    &&& (#[trigger] p.rows[3 * i]).line == home_name(
                        items[i],
                        w,
                        i == index,
                        over(mouse, home_rect(inner, offset, i)),
                    )
                    &&& p.rows[3 * i + 1].line == home_blurb(items[i], w)
                }
            &&& forall|i: int|
                0 <= i < n ==> #[trigger] p.canvas[c.len() + i] == (OpView::Hit {
                    area: home_rect(inner, offset, i),
                    target: Target::HomeRow(i as usize),
                })
        }),
    decreases n,
{
    home_lines_name_their_entry(c, inner, items, n, index, offset, mouse);
    if n > 0 {
        entries_are_listed_in_order(c, inner, items, (n - 1) as nat, index, offset, mouse);
        home_lines_name_their_entry(c, inner, items, (n - 1) as nat, index, offset, mouse);
        let b = home_page(c, inner, items, (n - 1) as nat, index, offset, mouse);
        let p = home_page(c, inner, items, n, index, offset, mouse);
        let w = (inner.width as usize).saturating_sub(2);
        assert forall|i: int| 0 <= i < n implies {
            &&& (#[trigger] p.rows[3 * i]).line == home_name(
                items[i],
                w,
                i == index,
                over(mouse, home_rect(inner, offset, i)),
            )
            &&& p.rows[3 * i + 1].line == home_blurb(items[i], w)
        } by {
            if i < n - 1 {
                assert(p.rows[3 * i] == b.rows[3 * i]);
                assert(p.rows[3 * i + 1] == b.rows[3 * i + 1]);
            }
        }
        assert forall|i: int| 0 <= i < n implies #[trigger] p.canvas[c.len() + i] == (OpView::Hit {
            area: home_rect(inner, offset, i),
            target: Target::HomeRow(i as usize),
        }) by {
            if i < n - 1 {
                assert(p.canvas[c.len() + i] == b.canvas[c.len() + i]);
            }
        }
    }
}

/// An entry on screen answers on the two rows it is printed on.
pub proof fn an_entry_answers_where_it_is_printed(inner: Rect, offset: usize, i: int, at: Position)
    requires
        0 <= i,
        inner.x + inner.width <= u16::MAX,
        inner.y + inner.height <= u16::MAX,
    ensures
        home_rect(inner, offset, i).contains(at) ==> inner.contains(at) && (at.y - inner.y + offset
            == 3 * i || at.y - inner.y + offset == 3 * i + 1),
        inner.contains(at) && at.y - inner.y + offset == 3 * i ==> home_rect(
            inner,
            offset,
            i,
        ).contains(at),
{
}

} // verus!
