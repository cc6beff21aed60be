//! A strip of tabs over a page.

use vstd::prelude::*;
use vstd::string::*;

use crate::geometry::Rect;
use crate::rows::one;
use crate::scene::{line_w, put_hit, put_text, run, Canvas, Line, OpView, Scene, Strip, Target};
use crate::state::{ArtistTab, Pen, RadioTab, SearchTab};
use crate::table::{
    lemma_prints_alone, light_changes_no_text, printed, segment, segment_rect, with_segment,
};
use crate::theme;
use crate::theme::Style;

verus! {

/// A tab of one of the strips.
#[derive(Debug, Clone, Copy, PartialEq, Eq, Structural)]
pub enum Tab {
    Radio(RadioTab),
    Search(SearchTab),
    Artist(ArtistTab),
}

impl Tab {
    /// What the tab says.
    #[verifier::allow_in_spec]
    pub fn title(self) -> &'static str
        returns
            (match self {
                Tab::Radio(t) => t.title(),
                Tab::Search(t) => t.title(),
                Tab::Artist(t) => t.title(),
            }),
    {
        match self {
            Tab::Radio(t) => t.title(),
            Tab::Search(t) => t.title(),
            Tab::Artist(t) => t.title(),
        }
    }

    /// Where a click on the tab leads.
    #[verifier::allow_in_spec]
    pub fn target(self) -> Target
        returns
            (match self {
                Tab::Radio(t) => Target::RadioTab(t),
                Tab::Search(t) => Target::SearchTab(t),
                Tab::Artist(t) => Target::ArtistTab(t),
            }),
    {
        match self {
            Tab::Radio(t) => Target::RadioTab(t),
            Tab::Search(t) => Target::SearchTab(t),
            Tab::Artist(t) => Target::ArtistTab(t),
        }
    }
}

/// The style of a tab: the open one in the accent, the rest behind the rows
/// they label.
pub open spec fn tab_style(open: bool, accent: u32) -> Style {
    if open {
        theme::accent(accent).bold()
    } else {
        theme::dim()
    }
}

/// A row after `n` tabs, two blanks between them.
pub open spec fn tabbed(
    c: Canvas,
    row: Rect,
    tabs: Seq<Tab>,
    n: nat,
    active: Tab,
    pen: Pen,
) -> Strip
    decreases n,
{
    if n == 0 {
        Strip { line: Seq::empty(), x: row.x, canvas: c }
    } else {
        let s = tabbed(c, row, tabs, (n - 1) as nat, active, pen);
        let tab = tabs[n - 1];
        let parts = one(tab.title()@, tab_style(tab == active, pen.accent));
        let (line, x) = if n > 1 {
            (s.line.push(run("  "@, Style::plain())), s.x.saturating_add(2))
        } else {
            (s.line, s.x)
        };
        Strip {
            line: with_segment(line, x, row, pen.mouse, parts),
            x: x.saturating_add(line_w(parts)),
            canvas: put_hit(s.canvas, segment_rect(x, row, parts), tab.target()),
        }
    }
}

/// Lay out a row of tabs, and record where each answers.
pub fn tab_segments(scene: &mut Scene, row: Rect, tabs: &Vec<Tab>, active: Tab, pen: Pen) -> (line:
    Line)
    ensures
        line@ == tabbed(old(scene)@, row, tabs@, tabs@.len(), active, pen).line,
        final(scene)@ == tabbed(old(scene)@, row, tabs@, tabs@.len(), active, pen).canvas,
{
    let ghost c = scene@;
    let mut line = Line::empty();
    let mut x: u16 = row.x;
    let mut i: usize = 0;
    while i < tabs.len()
        invariant
            i <= tabs@.len(),
            (Strip { line: line@, x, canvas: scene@ }) == tabbed(
                c,
                row,
                tabs@,
                i as nat,
                active,
                pen,
            ),
        decreases tabs@.len() - i,
    {
        if i > 0 {
            line.print("  ", Style::plain());
            x = x.saturating_add(2);
        }
        let tab = tabs[i];
        let style = if tab == active { theme::accent(pen.accent).bold() } else { theme::dim() };
        let part = Line::of(tab.title().to_owned(), style);
        let rect = segment(&mut line, &mut x, row, pen.mouse, part);
        scene.hit(rect, tab.target());
        i = i + 1;
    }
    line
}

/// The canvas with a strip of tabs on its row.
pub open spec fn tabs_drawn(c: Canvas, row: Rect, tabs: Seq<Tab>, active: Tab, pen: Pen) -> Canvas {
    let s = tabbed(c, row, tabs, tabs.len(), active, pen);
    put_text(s.canvas, row, s.line)
}

/// Draw a strip of tabs.
pub fn draw_tabs(scene: &mut Scene, row: Rect, tabs: &Vec<Tab>, active: Tab, pen: Pen)
    ensures
        final(scene)@ == tabs_drawn(old(scene)@, row, tabs@, active, pen),
{
    let line = tab_segments(scene, row, tabs, active, pen);
    scene.text(row, line);
}

/// The titles of tabs in order, two spaces between two of them.
pub open spec fn titles(tabs: Seq<Tab>, n: nat) -> Seq<char>
    decreases n,
{
    if n == 0 {
        Seq::empty()
    } else {
        titles(tabs, (n - 1) as nat) + (if n > 1 {
            seq![' ', ' ']
        } else {
            Seq::empty()
        }) + tabs[n - 1].title()@
    }
}

/// A row of tabs prints their titles in order, and each answers to itself; the
/// open one alone is in the accent.
pub proof fn tabs_are_printed_in_order(
    c: Canvas,
    row: Rect,
    tabs: Seq<Tab>,
    n: nat,
    active: Tab,
    pen: Pen,
)
    requires
        n <= tabs.len(),
    ensures
        ({
            let s = tabbed(c, row, tabs, n, active, pen);
            &&& printed(s.line) == titles(tabs, n)
            &&& s.canvas.len() == c.len() + n
            &&& s.canvas.take(c.len() as int) == c
            &&& forall|i: int|
                0 <= i < n ==> (#[trigger] s.canvas[c.len() + i] matches OpView::Hit { area, target }
                    && target == (match tabs[i] {
                    Tab::Radio(t) => Target::RadioTab(t),
                    Tab::Search(t) => Target::SearchTab(t),
                    Tab::Artist(t) => Target::ArtistTab(t),
                }))
        }),
        tab_style(true, pen.accent).fg == Some(pen.accent) && tab_style(true, pen.accent).bold,
        tab_style(false, pen.accent) == theme::dim(),
    decreases n,
{
    reveal_strlit("  ");
    assert("  "@ =~= seq![' ', ' ']);
    let s = tabbed(c, row, tabs, n, active, pen);
    if n == 0 {
        assert(s.canvas.take(c.len() as int) =~= c);
    } else {
        tabs_are_printed_in_order(c, row, tabs, (n - 1) as nat, active, pen);
        let b = tabbed(c, row, tabs, (n - 1) as nat, active, pen);
        let tab = tabs[n - 1];
        let parts = one(tab.title()@, tab_style(tab == active, pen.accent));
        let (line, x) = if n > 1 {
            (b.line.push(run("  "@, Style::plain())), b.x.saturating_add(2))
        } else {
            (b.line, b.x)
        };
        if n > 1 {
            assert(line.drop_last() =~= b.line);
        }
        lemma_prints_alone(parts);
        light_changes_no_text(
            line,
            x,
            row,
            pen.mouse,
            parts,
            Seq::empty(),
            Style::plain(),
            false,
        );
        assert(printed(s.line) =~= titles(tabs, n));
        assert(s.canvas.take(c.len() as int) =~= b.canvas.take(c.len() as int));
        assert forall|i: int| 0 <= i < n implies (#[trigger] s.canvas[c.len() + i] matches OpView::Hit {
            area,
            target,
        } && target == (match tabs[i] {
            Tab::Radio(t) => Target::RadioTab(t),
            Tab::Search(t) => Target::SearchTab(t),
            Tab::Artist(t) => Target::ArtistTab(t),
        })) by {
            if i < n - 1 {
                assert(s.canvas[c.len() + i] == b.canvas[c.len() + i]);
            }
        }
    }
}

/// What each tab is called.
pub proof fn tabs_say_what_they_list(r: RadioTab, s: SearchTab, a: ArtistTab)
    ensures
        Tab::Radio(r).title()@ == (match r {
            RadioTab::Popular => "Popular"@,
            RadioTab::Countries => "Countries"@,
            RadioTab::Genres => "Genres"@,
            RadioTab::Saved => "Saved"@,
        }),
        Tab::Search(s).title()@ == (match s {
            SearchTab::Tracks => "Tracks"@,
            SearchTab::Albums => "Albums"@,
            SearchTab::Artists => "Artists"@,
            SearchTab::Playlists => "Playlists"@,
            SearchTab::Stations => "Stations"@,
        }),
        Tab::Artist(a).title()@ == (match a {
            ArtistTab::Albums => "Albums"@,
            ArtistTab::Singles => "Singles"@,
            ArtistTab::Compilations => "Compilations"@,
            ArtistTab::AppearsOn => "Appears On"@,
        }),
{
}

} // verus!
