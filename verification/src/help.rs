//! The help box: the keys, and what the mouse does.

use vstd::prelude::*;
use vstd::string::*;

use crate::geometry::Rect;
use crate::playlist_picker::{draw_frame, framed, inside};
use crate::scene::{lines_of, run, Canvas, Line, Op, OpView, Run, Scene};
use crate::state::{Pen, UpdateState};
use crate::table::{centered, centered_rect, lemma_prints_first, printed};
use crate::text::{joined, low16, low_half, pad_right, padded_right, spaces};
use crate::theme;
use crate::theme::Style;

verus! {

/// How many groups the keys are shown in.
pub const GROUPS: usize = 4;

/// How many lines there are on the mouse.
pub const HINTS: usize = 24;

pub const HELP_W: u16 = 56;

/// A key and what it does.
#[derive(Debug, Clone, Copy)]
pub struct Binding {
    pub key: &'static str,
    pub action: &'static str,
}

#[verifier::allow_in_spec]
pub fn bind(key: &'static str, action: &'static str) -> Binding
    returns
        (Binding { key, action }),
{
    Binding { key, action }
}

/// What group `i` of the keys is called.
#[verifier::allow_in_spec]
pub fn group_name(i: usize) -> &'static str
    returns
        (if i == 0 {
            "Playback"
        } else if i == 1 {
            "Navigation"
        } else if i == 2 {
            "Browse & play"
        } else {
            "Other"
        }),
{
    if i == 0 {
        "Playback"
    } else if i == 1 {
        "Navigation"
    } else if i == 2 {
        "Browse & play"
    } else {
        "Other"
    }
}

/// How many keys group `i` has.
#[verifier::allow_in_spec]
pub fn group_len(i: usize) -> usize
    returns
        (if i == 0 {
            5usize
        } else if i == 1 {
            9usize
        } else if i == 2 {
            10usize
        } else {
            3usize
        }),
{
    if i == 0 {
        5usize
    } else if i == 1 {
        9usize
    } else if i == 2 {
        10usize
    } else {
        3usize
    }
}

/// Key `i` of the group "Playback".
#[verifier::allow_in_spec]
pub fn playback_key(i: usize) -> Binding
    returns
        (if i == 0 {
            bind("Space", "play / pause")
        } else if i == 1 {
            bind("n / p", "next / previous track or station")
        } else if i == 2 {
            bind("h / l", "seek -5s / +5s")
        } else if i == 3 {
            bind("- / =", "volume down / up")
        } else {
            bind("s", "toggle shuffle")
        }),
{
    if i == 0 {
        bind("Space", "play / pause")
    } else if i == 1 {
        bind("n / p", "next / previous track or station")
    } else if i == 2 {
        bind("h / l", "seek -5s / +5s")
    } else if i == 3 {
        bind("- / =", "volume down / up")
    } else {
        bind("s", "toggle shuffle")
    }
}

/// Key `i` of the group "Navigation".
#[verifier::allow_in_spec]
pub fn navigation_key(i: usize) -> Binding
    returns
        (if i == 0 {
            bind("j / k", "move down / up")
        } else if i == 1 {
            bind("g / G", "jump to top / bottom")
        } else if i == 2 {
            bind("Ctrl-d/u", "half page down / up")
        } else if i == 3 {
            bind("H", "go home")
        } else if i == 4 {
            bind("v", "toggle player view (Esc closes)")
        } else if i == 5 {
            bind("V", "cycle the visualizer (in the player view)")
        } else if i == 6 {
            bind("← / →", "switch search, artist or radio tab")
        } else if i == 7 {
            bind("Backspace", "back to previous view")
        } else {
            bind("Esc", "back / close overlay")
        }),
{
    if i == 0 {
        bind("j / k", "move down / up")
    } else if i == 1 {
        bind("g / G", "jump to top / bottom")
    } else if i == 2 {
        bind("Ctrl-d/u", "half page down / up")
    } else if i == 3 {
        bind("H", "go home")
    } else if i == 4 {
        bind("v", "toggle player view (Esc closes)")
    } else if i == 5 {
        bind("V", "cycle the visualizer (in the player view)")
    } else if i == 6 {
        bind("← / →", "switch search, artist or radio tab")
    } else if i == 7 {
        bind("Backspace", "back to previous view")
    } else {
        bind("Esc", "back / close overlay")
    }
}

/// Key `i` of the group "Browse & play".
#[verifier::allow_in_spec]
pub fn browse_key(i: usize) -> Binding
    returns
        (if i == 0 {
            bind("Enter", "open item / play selection")
        } else if i == 1 {
            bind("x", "play without opening")
        } else if i == 2 {
            bind("a", "play the selected track next")
        } else if i == 3 {
            bind("L", "like the track, or save the station")
        } else if i == 4 {
            bind("F", "save the playlist you are on")
        } else if i == 5 {
            bind("E", "edit a playlist of your own")
        } else if i == 6 {
            bind("b / B", "open track's album / artist")
        } else if i == 7 {
            bind("o / O", "cycle sort / flip direction")
        } else if i == 8 {
            bind("/", "search Spotify and radio")
        } else {
            bind("R", "refresh view & playlists")
        }),
{
    if i == 0 {
        bind("Enter", "open item / play selection")
    } else if i == 1 {
        bind("x", "play without opening")
    } else if i == 2 {
        bind("a", "play the selected track next")
    } else if i == 3 {
        bind("L", "like the track, or save the station")
    } else if i == 4 {
        bind("F", "save the playlist you are on")
    } else if i == 5 {
        bind("E", "edit a playlist of your own")
    } else if i == 6 {
        bind("b / B", "open track's album / artist")
    } else if i == 7 {
        bind("o / O", "cycle sort / flip direction")
    } else if i == 8 {
        bind("/", "search Spotify and radio")
    } else {
        bind("R", "refresh view & playlists")
    }
}

/// Key `i` of the group "Other".
#[verifier::allow_in_spec]
pub fn other_key(i: usize) -> Binding
    returns
        (if i == 0 {
            bind("?", "toggle this help")
        } else if i == 1 {
            bind("q", "quit")
        } else {
            bind("Ctrl-c", "quit")
        }),
{
    if i == 0 {
        bind("?", "toggle this help")
    } else if i == 1 {
        bind("q", "quit")
    } else {
        bind("Ctrl-c", "quit")
    }
}

/// Key `i` of group `g`.
#[verifier::allow_in_spec]
pub fn key_at(g: usize, i: usize) -> Binding
    returns
        (if g == 0 {
            playback_key(i)
        } else if g == 1 {
            navigation_key(i)
        } else if g == 2 {
            browse_key(i)
        } else {
            other_key(i)
        }),
{
    if g == 0 {
        playback_key(i)
    } else if g == 1 {
        navigation_key(i)
    } else if g == 2 {
        browse_key(i)
    } else {
        other_key(i)
    }
}

/// Line `i` on the mouse.
#[verifier::allow_in_spec]
pub fn mouse_hint(i: usize) -> &'static str
    returns
        (if i == 0 {
            "click ♫ spot, top left of either view, to go home"
        } else if i == 1 {
            "on Home, one click anywhere on a row opens it"
        } else if i == 2 {
            "click rows to select / open · double-click plays"
        } else if i == 3 {
            "every track row ends in ★ ⧉ +: like it, copy its link, or put it on a playlist"
        } else if i == 4 {
            "the same three sit on the bar and in the player, for what is playing"
        } else if i == 5 {
            "⧉ share beside ▶ shuffle copies the link to the page you are on"
        } else if i == 6 {
            "in that box, click a playlist to put the track on it or take it off"
        } else if i == 7 {
            "+ new playlist in that box makes one and puts the track on it"
        } else if i == 8 {
            "on a radio or artist page, click a tab to change what it lists"
        } else if i == 9 {
            "click an artist or album name to open its page"
        } else if i == 10 {
            "where a record credits several artists, each name opens its own"
        } else if i == 11 {
            "on a station, spot looks the announced track up on Spotify"
        } else if i == 12 {
            "on a station, ◂◂ and ▸▸ walk what you have listened to"
        } else if i == 13 {
            "on an album card: the name opens it, ▶ play starts it, ▶ shuffle mixes it"
        } else if i == 14 {
            "on a playlist page, ☆ save keeps it; edit renames one of your own"
        } else if i == 15 {
            "click a step of the path, beside the mark in either view, to go there"
        } else if i == 16 {
            "opening a page already on the path walks back to it"
        } else if i == 17 {
            "click tabs, transport, ▶ play, ▶ shuffle, sliders"
        } else if i == 18 {
            "click vol beside the slider to mute; mut puts the level back"
        } else if i == 19 {
            "when a page will not load, ↻ try again asks for it again; so does Enter"
        } else if i == 20 {
            "on a browse page, click the search row under the path to search"
        } else if i == 21 {
            "click the visualizer to play / pause"
        } else if i == 22 {
            "click any cover to see the whole sleeve; click again or Esc closes it"
        } else {
            "scroll lists; scroll over the bottom bar = volume"
        }),
{
    if i == 0 {
        "click ♫ spot, top left of either view, to go home"
    } else if i == 1 {
        "on Home, one click anywhere on a row opens it"
    } else if i == 2 {
        "click rows to select / open · double-click plays"
    } else if i == 3 {
        "every track row ends in ★ ⧉ +: like it, copy its link, or put it on a playlist"
    } else if i == 4 {
        "the same three sit on the bar and in the player, for what is playing"
    } else if i == 5 {
        "⧉ share beside ▶ shuffle copies the link to the page you are on"
    } else if i == 6 {
        "in that box, click a playlist to put the track on it or take it off"
    } else if i == 7 {
        "+ new playlist in that box makes one and puts the track on it"
    } else if i == 8 {
        "on a radio or artist page, click a tab to change what it lists"
    } else if i == 9 {
        "click an artist or album name to open its page"
    } else if i == 10 {
        "where a record credits several artists, each name opens its own"
    } else if i == 11 {
        "on a station, spot looks the announced track up on Spotify"
    } else if i == 12 {
        "on a station, ◂◂ and ▸▸ walk what you have listened to"
    } else if i == 13 {
        "on an album card: the name opens it, ▶ play starts it, ▶ shuffle mixes it"
    } else if i == 14 {
        "on a playlist page, ☆ save keeps it; edit renames one of your own"
    } else if i == 15 {
        "click a step of the path, beside the mark in either view, to go there"
    } else if i == 16 {
        "opening a page already on the path walks back to it"
    } else if i == 17 {
        "click tabs, transport, ▶ play, ▶ shuffle, sliders"
    } else if i == 18 {
        "click vol beside the slider to mute; mut puts the level back"
    } else if i == 19 {
        "when a page will not load, ↻ try again asks for it again; so does Enter"
    } else if i == 20 {
        "on a browse page, click the search row under the path to search"
    } else if i == 21 {
        "click the visualizer to play / pause"
    } else if i == 22 {
        "click any cover to see the whole sleeve; click again or Esc closes it"
    } else {
        "scroll lists; scroll over the bottom bar = volume"
    }
}

/// The build that runs, and what is known of a newer one.
pub open spec fn version_text(running: Seq<char>, update: UpdateState) -> Seq<char> {
    match update {
        UpdateState::Available(tag) => running + " · "@ + tag@ + " available"@,
        UpdateState::Installing => running + " · downloading an update"@,
        UpdateState::Installed => running + " · restart to finish the update"@,
        UpdateState::Failed | UpdateState::Current => running,
    }
}

pub fn version(running: &str, update: &UpdateState) -> (r: String)
    ensures
        r@ == version_text(running@, *update),
{
    match update {
        UpdateState::Available(tag) => {
            let head = joined(running, " · ");
            let named = joined(head.as_str(), tag.as_str());
            joined(named.as_str(), " available")
        },
        UpdateState::Installing => joined(running, " · downloading an update"),
        UpdateState::Installed => joined(running, " · restart to finish the update"),
        UpdateState::Failed | UpdateState::Current => running.to_owned(),
    }
}

/// A line of one run, two cells in.
pub open spec fn note(text: Seq<char>, style: Style) -> Seq<Run> {
    Seq::empty().push(run("  "@ + text, style))
}

fn put_line(lines: &mut Vec<Line>, text: &str, style: Style)
    ensures
        lines_of(final(lines)@) == lines_of(old(lines)@).push(note(text@, style)),
{
    let ghost before = lines_of(lines@);
    lines.push(Line::of(joined("  ", text), style));
    assert(lines_of(lines@) =~= before.push(note(text@, style)));
}

fn put_blank(lines: &mut Vec<Line>)
    ensures
        lines_of(final(lines)@) == lines_of(old(lines)@).push(Seq::empty()),
{
    let ghost before = lines_of(lines@);
    lines.push(Line::empty());
    assert(lines_of(lines@) =~= before.push(Seq::empty()));
}

/// A key's line: the key, padded, then what it does.
pub open spec fn key_line(b: Binding) -> Seq<Run> {
    Seq::empty().push(run("  "@ + padded_right(b.key@, 11), theme::text())).push(
        run(b.action@, Style::plain()),
    )
}

fn put_key(lines: &mut Vec<Line>, b: Binding)
    ensures
        lines_of(final(lines)@) == lines_of(old(lines)@).push(key_line(b)),
{
    let ghost before = lines_of(lines@);
    let key = pad_right(b.key, 11);
    let mut line = Line::empty();
    line.put(joined("  ", key.as_str()), theme::text());
    line.print(b.action, Style::plain());
    lines.push(line);
    assert(lines_of(lines@) =~= before.push(key_line(b)));
}

/// The first `n` keys of a group, after `acc`.
pub open spec fn keys_after(acc: Seq<Seq<Run>>, g: usize, n: nat) -> Seq<Seq<Run>>
    decreases n,
{
    if n == 0 {
        acc
    } else {
        keys_after(acc, g, (n - 1) as nat).push(key_line(key_at(g, (n - 1) as usize)))
    }
}

/// The first `n` groups, after `acc`: a blank, the group's name, its keys.
pub open spec fn groups_after(acc: Seq<Seq<Run>>, n: nat, accent: u32) -> Seq<Seq<Run>>
    decreases n,
{
    if n == 0 {
        acc
    } else {
        let g = (n - 1) as usize;
        let head = groups_after(acc, (n - 1) as nat, accent).push(Seq::empty()).push(
            note(group_name(g)@, theme::accent(accent).bold()),
        );
        keys_after(head, g, group_len(g) as nat)
    }
}

/// The first `n` lines on the mouse, after `acc`.
pub open spec fn hints_after(acc: Seq<Seq<Run>>, n: nat) -> Seq<Seq<Run>>
    decreases n,
{
    if n == 0 {
        acc
    } else {
        hints_after(acc, (n - 1) as nat).push(
            note(mouse_hint((n - 1) as usize)@, theme::text()),
        )
    }
}

/// Everything the box says: the version first, then the keys, then the mouse.
pub open spec fn help_text(version: Seq<char>, accent: u32) -> Seq<Seq<Run>> {
    let first = Seq::<Seq<Run>>::empty().push(note(version, theme::dim()));
    let keyed = groups_after(first, GROUPS as nat, accent).push(Seq::empty()).push(
        note("Mouse"@, theme::accent(accent).bold()),
    );
    hints_after(keyed, HINTS as nat)
}

fn help_lines(version: &str, accent: u32) -> (lines: Vec<Line>)
    ensures
        lines_of(lines@) == help_text(version@, accent),
{
    let bold = theme::accent(accent).bold();
    let mut lines: Vec<Line> = Vec::new();
    assert(lines_of(lines@) =~= Seq::<Seq<Run>>::empty());
    put_line(&mut lines, version, theme::dim());
    let ghost first = lines_of(lines@);
    let mut g: usize = 0;
    while g < GROUPS
        invariant
            g <= GROUPS,
            bold == theme::accent(accent).bold(),
            lines_of(lines@) == groups_after(first, g as nat, accent),
        decreases GROUPS - g,
    {
        put_blank(&mut lines);
        put_line(&mut lines, group_name(g), bold);
        let ghost head = lines_of(lines@);
        let n: usize = group_len(g);
        let mut i: usize = 0;
        while i < n
            invariant
                i <= n,
                lines_of(lines@) == keys_after(head, g, i as nat),
            decreases n - i,
        {
            put_key(&mut lines, key_at(g, i));
            i = i + 1;
        }
        g = g + 1;
    }
    put_blank(&mut lines);
    put_line(&mut lines, "Mouse", bold);
    let ghost keyed = lines_of(lines@);
    let mut i: usize = 0;
    while i < HINTS
        invariant
            i <= HINTS,
            lines_of(lines@) == hints_after(keyed, i as nat),
        decreases HINTS - i,
    {
        put_line(&mut lines, mouse_hint(i), theme::text());
        i = i + 1;
    }
    lines
}

/// Where the box is: as tall as what it says, and its frame.
pub open spec fn help_area(screen: Rect, lines: Seq<Seq<Run>>) -> Rect {
    centered_rect(screen, HELP_W, low16(lines.len() as usize as int).saturating_add(2))
}

/// The canvas with the help box on it.
pub open spec fn help_drawn(
    c: Canvas,
    screen: Rect,
    running: Seq<char>,
    update: UpdateState,
    pen: Pen,
) -> Canvas {
    let lines = help_text(version_text(running, update), pen.accent);
    let area = help_area(screen, lines);
    framed(c, area, " Help "@, pen.accent).push(OpView::Lines { area: inside(area), lines })
}

/// The help box, in the middle of the screen.
pub fn draw(scene: &mut Scene, screen: Rect, running: &str, update: &UpdateState, pen: Pen)
    ensures
        final(scene)@ == help_drawn(old(scene)@, screen, running@, *update, pen),
{
    let said = version(running, update);
    let lines = help_lines(said.as_str(), pen.accent);
    assert(lines_of(lines@).len() == lines@.len());
    let area = centered(screen, HELP_W, low_half(lines.len()).saturating_add(2));
    draw_frame(scene, area, " Help ".to_owned(), pen.accent);
    scene.put(Op::Lines { area: inside(area), lines });
}

/// The box says which build runs, and what is to be known of a newer one.
pub proof fn the_build_is_told(running: Seq<char>, update: UpdateState)
    ensures
        version_text(running, update) == (match update {
            UpdateState::Available(tag) => running + " · "@ + tag@ + " available"@,
            UpdateState::Installing => running + " · downloading an update"@,
            UpdateState::Installed => running + " · restart to finish the update"@,
            _ => running,
        }),
{
}

/// A key's line prints the key, in a column of its own, and what it does.
pub proof fn a_key_is_printed_before_what_it_does(b: Binding)
    ensures
        printed(key_line(b)) == spaces(2) + padded_right(b.key@, 11) + b.action@,
{
    reveal_strlit("  ");
    assert("  "@ =~= spaces(2));
    let line = key_line(b);
    lemma_prints_first(line, 2);
    lemma_prints_first(line, 1);
    assert(printed(line.take(0)) =~= Seq::<char>::empty());
    assert(line.take(2) =~= line);
    assert(printed(line) =~= spaces(2) + padded_right(b.key@, 11) + b.action@);
}

/// Every key of a group is listed under its heading, in order.
pub proof fn every_key_is_listed(acc: Seq<Seq<Run>>, g: usize, n: nat, i: int)
    requires
        0 <= i < n <= usize::MAX,
    ensures
        keys_after(acc, g, n).len() == acc.len() + n,
        keys_after(acc, g, n)[acc.len() + i] == key_line(key_at(g, i as usize)),
        keys_after(acc, g, n).take(acc.len() as int) == acc,
    decreases n,
{
    let before = keys_after(acc, g, (n - 1) as nat);
    if n > 1 {
        every_key_is_listed(acc, g, (n - 1) as nat, if i < n - 1 {
            i
        } else {
            0
        });
    } else {
        assert(before == acc);
    }
    assert(keys_after(acc, g, n).take(acc.len() as int) =~= acc) by {
        assert(before.take(acc.len() as int) =~= acc);
    }
}

} // verus!
