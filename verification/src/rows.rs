//! The rows of the browse tables, a cell at a time.

use vstd::prelude::*;
use vstd::string::*;

use crate::columns::{blank, flush_right, right, text_column, Cell, ColKey, RowCells};
use crate::scene::{run, Line, Run};
use crate::state::{
    a_reading_is_the_time, credit_names, duration_text, format_duration, is_text, reads_as,
    some_text, AlbumItem, ArtistItem, Credit, NowStatus, Playlist, RadioRow, Station, Track,
};
use crate::table::{
    action_runs, action_spans, apply_selection, credit_ink, credit_line, credit_row,
    credit_row_prints_its_cell, credit_runs, credit_spans, hover_style, lemma_same_texts_print,
    padded_mark, printed, selected_line, selection_style, CreditRun, RowAction, ADD_MARK,
    LIKED_MARK, SHARE_MARK,
};
use crate::text::{
    blanks, cells, clipped, copies, dec, decimal, fit, fitted, lemma_cells_concat,
    lemma_trimmed_cells, low16, low_half, repeated, spaces, to_upper, trim_end, trimmed,
    trimming_takes_white_space_alone, upper_case, width, width_of,
};
use crate::theme;
use crate::theme::Style;

verus! {

/// Which clickable cell of a track row the pointer is over.
#[derive(Debug, Clone, Copy, PartialEq, Eq, Structural)]
pub enum HoverCol {
    Like,
    Share,
    Add,
    /// One credited artist, named by the pointer's column inside the cell.
    Artist(u16),
    Album,
}

impl HoverCol {
    /// The control of the row's run this is, if it is one.
    #[verifier::allow_in_spec]
    pub fn action(self) -> Option<RowAction>
        returns
            (match self {
                HoverCol::Like => Some(RowAction::Like),
                HoverCol::Share => Some(RowAction::Share),
                HoverCol::Add => Some(RowAction::Add),
                HoverCol::Artist(_) | HoverCol::Album => None,
            }),
    {
        match self {
            HoverCol::Like => Some(RowAction::Like),
            HoverCol::Share => Some(RowAction::Share),
            HoverCol::Add => Some(RowAction::Add),
            HoverCol::Artist(_) | HoverCol::Album => None,
        }
    }
}

/// The control under the pointer, where it is on one.
#[verifier::allow_in_spec]
pub fn hover_action(hover: Option<HoverCol>) -> Option<RowAction>
    returns
        (match hover {
            Some(h) => h.action(),
            None => None,
        }),
{
    match hover {
        Some(h) => h.action(),
        None => None,
    }
}

/// Cells `text` prints in a `width`-cell cell.
pub open spec fn ink_w(text: Seq<char>, width: usize) -> u16 {
    low16(width_of(trimmed(fitted(text, width as nat))) as int)
}

/// Cells `text` prints in a `width`-cell cell, which is where a link on it
/// answers.
pub fn printed_w(text: &str, cell_w: usize) -> (w: u16)
    ensures
        w == ink_w(text@, cell_w),
{
    let ink = clipped(text, cell_w);
    low_half(width(ink.as_str()))
}

/// A cell holding `text`, lit when the pointer is on it. The light goes on the
/// text alone and the padding stays bare.
pub open spec fn cell_runs(text: Seq<char>, width: usize, style: Style, hovered: bool) -> Seq<Run> {
    let cell = fitted(text, width as nat);
    if hovered {
        let lit = trimmed(cell);
        Seq::empty().push(run(lit, hover_style(style))).push(
            blank(width.saturating_sub(width_of(lit))),
        )
    } else {
        Seq::empty().push(run(cell, style))
    }
}

pub fn cell_spans(text: &str, cell_w: usize, style: Style, hovered: bool) -> (line: Line)
    ensures
        line@ == cell_runs(text@, cell_w, style, hovered),
        cells(printed(line@)) == cell_w,
{
    let cell = fit(text, cell_w);
    if !hovered {
        proof {
            lemma_one_prints(cell@, style);
        }
        return Line::of(cell, style);
    }
    let lit = trim_end(cell.as_str());
    let bare = blanks(cell_w.saturating_sub(width(lit.as_str())));
    proof {
        lemma_trimmed_cells(cell@);
        lemma_cells_concat(lit@, bare@);
        lemma_one_prints(lit@, hover_style(style));
        lemma_put_prints(one(lit@, hover_style(style)), bare@, Style::plain());
    }
    let mut line = Line::empty();
    line.put(lit, hover_style(style));
    line.put(bare, Style::plain());
    line
}

/// A row with a run after it prints the run after what it printed.
proof fn lemma_put_prints(line: Seq<Run>, text: Seq<char>, style: Style)
    ensures
        printed(line.push(run(text, style))) == printed(line) + text,
{
    assert(line.push(run(text, style)).drop_last() =~= line);
}

/// One run prints its text.
proof fn lemma_one_prints(text: Seq<char>, style: Style)
    ensures
        printed(one(text, style)) == text,
{
    lemma_put_prints(Seq::empty(), text, style);
    assert(printed(Seq::<Run>::empty()) + text =~= text);
}

/// Marking a row as selected prints nothing else.
proof fn lemma_toned_prints(line: Seq<Run>, selected: bool)
    ensures
        printed(toned(line, selected)) == printed(line),
    decreases line.len(),
{
    if selected && line.len() > 0 {
        lemma_toned_prints(line.drop_last(), selected);
        assert(toned(line, selected).drop_last() =~= toned(line.drop_last(), selected));
    }
}

/// The first run from `i` on that covers column `dx` of its cell.
pub open spec fn run_at(runs: Seq<CreditRun>, dx: u16, i: int) -> Option<usize>
    decreases runs.len() - i,
{
    if i < 0 || i >= runs.len() {
        None
    } else if dx >= runs[i].dx && dx < runs[i].dx.saturating_add(runs[i].width) {
        Some(i as usize)
    } else {
        run_at(runs, dx, i + 1)
    }
}

/// The run of a credit cell that is lit.
pub open spec fn lit_run(runs: Seq<CreditRun>, hover: Option<HoverCol>) -> Option<usize> {
    match hover {
        Some(HoverCol::Artist(dx)) => run_at(runs, dx, 0),
        _ => None,
    }
}

/// A credit line in a `width`-cell cell, with the name under the pointer lit.
pub open spec fn credit_cell_runs(
    credits: Seq<Credit>,
    width: usize,
    style: Style,
    hover: Option<HoverCol>,
) -> Seq<Run> {
    let runs = credit_runs(credits, 0, 0, credit_ink(credits, width));
    credit_row(fitted(credit_names(credits), width as nat), runs, style, lit_run(runs, hover))
}

fn find_run(runs: &Vec<CreditRun>, dx: u16) -> (r: Option<usize>)
    ensures
        r == run_at(runs@, dx, 0),
{
    let mut i: usize = 0;
    while i < runs.len()
        invariant
            i <= runs@.len(),
            run_at(runs@, dx, 0) == run_at(runs@, dx, i as int),
        decreases runs@.len() - i,
    {
        if dx >= runs[i].dx && dx < runs[i].dx.saturating_add(runs[i].width) {
            return Some(i);
        }
        i = i + 1;
    }
    None
}

pub fn credit_cell(
    credits: &Vec<Credit>,
    cell_w: usize,
    style: Style,
    hover: Option<HoverCol>,
) -> (line: Line)
    ensures
        line@ == credit_cell_runs(credits@, cell_w, style, hover),
        cells(printed(line@)) == cell_w,
{
    let (cell, runs) = credit_line(credits, cell_w);
    let lit = match hover {
        Some(HoverCol::Artist(dx)) => find_run(&runs, dx),
        _ => None,
    };
    proof {
        credit_row_prints_its_cell(cell@, runs@, style, lit);
    }
    credit_spans(cell.as_str(), &runs, style, lit)
}

/// What a track row prints in the number column: its place on the record, or in
/// the order the list arrived. Either way it belongs to the track, not to the
/// row a sort put it on.
#[verifier::allow_in_spec]
pub fn track_no(track: &Track, index: usize, album: bool) -> u32
    returns
        (if album {
            track.track_number
        } else if index < u32::MAX {
            (index + 1) as u32
        } else {
            u32::MAX
        }),
{
    if album {
        track.track_number
    } else if index < u32::MAX as usize {
        index as u32 + 1
    } else {
        u32::MAX
    }
}

/// A style on a row, selected or not.
#[verifier::allow_in_spec]
pub fn tone(style: Style, selected: bool) -> Style
    returns
        (if selected {
            selection_style(style)
        } else {
            style
        }),
{
    if selected {
        selection_style(style)
    } else {
        style
    }
}

/// Runs on a row, selected or not.
pub open spec fn toned(runs: Seq<Run>, selected: bool) -> Seq<Run> {
    if selected {
        selected_line(runs)
    } else {
        runs
    }
}

/// A blank cell.
fn blank_cell_line(w: usize) -> (line: Line)
    ensures
        line@ == Seq::<Run>::empty().push(blank(w)),
        cells(printed(line@)) == w,
{
    let text = blanks(w);
    proof {
        lemma_one_prints(text@, Style::plain());
    }
    Line::of(text, Style::plain())
}

/// A cell of one run.
fn text_line(text: String, style: Style) -> (line: Line)
    ensures
        line@ == one(text@, style),
        printed(line@) == text@,
{
    proof {
        lemma_one_prints(text@, style);
    }
    Line::of(text, style)
}

/// Append runs to a row, selected or not.
fn put_toned(line: &mut Line, part: Line, selected: bool)
    ensures
        final(line)@ == old(line)@ + toned(part@, selected),
        printed(toned(part@, selected)) == printed(part@),
{
    proof {
        lemma_toned_prints(part@, selected);
    }
    let mut part = part;
    if selected {
        apply_selection(&mut part);
    }
    line.extend(part);
}

/// One run.
pub open spec fn one(text: Seq<char>, style: Style) -> Seq<Run> {
    Seq::empty().push(run(text, style))
}

/// A track row.
pub struct TrackRow<'a> {
    pub track: &'a Track,
    pub no: u32,
    pub playing: bool,
    pub selected: bool,
    pub liked: Option<bool>,
    pub hover: Option<HoverCol>,
    pub accent: u32,
}

/// The number of a track row; blank where there is none.
pub open spec fn no_text(no: u32) -> Seq<char> {
    if no > 0 {
        decimal(no as nat)
    } else {
        Seq::empty()
    }
}

impl<'a> TrackRow<'a> {
    /// A cell of the row, before it is marked as selected: the title at full
    /// weight, what supports it dim, the playing row in the accent.
    pub open spec fn base(&self, cell: Cell) -> Seq<Run> {
        let bold = theme::accent(self.accent).bold();
        let t = *self.track;
        match cell.key {
            ColKey::Mark => if self.playing {
                one("▶ "@, bold)
            } else {
                Seq::empty().push(blank(cell.width))
            },
            ColKey::No => one(flush_right(no_text(self.no), cell.width), theme::dim()),
            ColKey::Title => one(
                fitted(t.name@, cell.width as nat),
                if self.playing {
                    bold
                } else {
                    theme::text()
                },
            ),
            ColKey::Artist => credit_cell_runs(t.credits@, cell.width, theme::dim(), self.hover),
            ColKey::Album => cell_runs(
                t.album@,
                cell.width,
                theme::dim(),
                self.hover == Some(HoverCol::Album),
            ),
            ColKey::Year => one(fitted(t.release_year@, cell.width as nat), theme::dim()),
            ColKey::Actions => action_runs(self.liked, hover_action(self.hover), self.accent),
            ColKey::Time => one(
                flush_right(duration_text(t.duration_ms as nat), cell.width),
                theme::dim(),
            ),
            _ => Seq::empty().push(blank(cell.width)),
        }
    }

    fn base_line(&self, cell: &Cell) -> (line: Line)
        ensures
            line@ == self.base(*cell),
            text_column(cell.key) ==> cells(printed(line@)) == cell.width,
    {
        let bold = theme::accent(self.accent).bold();
        let t = self.track;
        match cell.key {
            ColKey::Mark => if self.playing {
                text_line("▶ ".to_owned(), bold)
            } else {
                blank_cell_line(cell.width)
            },
            ColKey::No => {
                let no = if self.no > 0 { dec(self.no as u64) } else { String::new() };
                text_line(right(no.as_str(), cell.width), theme::dim())
            },
            ColKey::Title => text_line(
                fit(t.name.as_str(), cell.width),
                if self.playing { bold } else { theme::text() },
            ),
            ColKey::Artist => credit_cell(&t.credits, cell.width, theme::dim(), self.hover),
            ColKey::Album => {
                let lit: bool = match self.hover {
                    Some(HoverCol::Album) => true,
                    _ => false,
                };
                cell_spans(t.album.as_str(), cell.width, theme::dim(), lit)
            },
            ColKey::Year => text_line(fit(t.release_year.as_str(), cell.width), theme::dim()),
            ColKey::Actions => action_spans(self.liked, hover_action(self.hover), self.accent),
            ColKey::Time => {
                let time = format_duration(t.duration_ms);
                text_line(right(time.as_str(), cell.width), theme::dim())
            },
            _ => blank_cell_line(cell.width),
        }
    }
}

impl<'a> RowCells for TrackRow<'a> {
    /// A selected row keeps the accent on the star of a saved track: it is the
    /// one row whose state cannot be checked by moving off it.
    open spec fn runs(&self, cell: Cell) -> Seq<Run> {
        let line = toned(self.base(cell), self.selected);
        if self.selected && cell.key == ColKey::Actions && self.liked == Some(true) {
            line.update(0, run(line[0].text, theme::accent(self.accent).bold()))
        } else {
            line
        }
    }

    open spec fn gap(&self) -> Style {
        tone(Style::plain(), self.selected)
    }

    fn put(&self, cell: &Cell, line: &mut Line) {
        let mut part = self.base_line(cell);
        proof {
            lemma_toned_prints(part@, self.selected);
        }
        if self.selected {
            apply_selection(&mut part);
            let saved: bool = match self.liked {
                Some(b) => b,
                None => false,
            };
            if cell.key == ColKey::Actions && saved {
                part.restyle(0, theme::accent(self.accent).bold());
            }
        }
        line.extend(part);
    }

    fn gap_style(&self) -> (s: Style) {
        tone(Style::plain(), self.selected)
    }
}

/// An album row.
pub struct AlbumRow<'a> {
    pub album: &'a AlbumItem,
    pub playing: bool,
    pub selected: bool,
    /// The pointer is on the name.
    pub hovered: bool,
    pub hover: Option<HoverCol>,
    pub accent: u32,
}

/// A count that is blank where it is not known.
pub open spec fn known_count(n: u32) -> Seq<char> {
    if n == 0 {
        Seq::empty()
    } else {
        decimal(n as nat)
    }
}

impl<'a> AlbumRow<'a> {
    pub open spec fn base(&self, cell: Cell) -> Seq<Run> {
        let a = *self.album;
        match cell.key {
            ColKey::Mark => if self.playing {
                one("♫ "@, theme::accent(self.accent))
            } else {
                Seq::empty().push(blank(cell.width))
            },
            ColKey::Album => cell_runs(a.name@, cell.width, theme::text(), self.hovered),
            ColKey::Artist => credit_cell_runs(a.credits@, cell.width, theme::dim(), self.hover),
            ColKey::Year => one(fitted(a.release_year@, cell.width as nat), theme::dim()),
            ColKey::Type => one(fitted(a.album_type@, cell.width as nat), theme::dim()),
            ColKey::Tracks => one(
                flush_right(known_count(a.track_count), cell.width),
                theme::dim(),
            ),
            _ => Seq::empty().push(blank(cell.width)),
        }
    }
}

impl<'a> RowCells for AlbumRow<'a> {
    open spec fn runs(&self, cell: Cell) -> Seq<Run> {
        toned(self.base(cell), self.selected)
    }

    open spec fn gap(&self) -> Style {
        tone(Style::plain(), self.selected)
    }

    fn put(&self, cell: &Cell, line: &mut Line) {
        let a = self.album;
        let part = match cell.key {
            ColKey::Mark => if self.playing {
                text_line("♫ ".to_owned(), theme::accent(self.accent))
            } else {
                blank_cell_line(cell.width)
            },
            ColKey::Album => cell_spans(a.name.as_str(), cell.width, theme::text(), self.hovered),
            ColKey::Artist => credit_cell(&a.credits, cell.width, theme::dim(), self.hover),
            ColKey::Year => text_line(fit(a.release_year.as_str(), cell.width), theme::dim()),
            ColKey::Type => text_line(fit(a.album_type.as_str(), cell.width), theme::dim()),
            ColKey::Tracks => {
                let n = if a.track_count == 0 {
                    String::new()
                } else {
                    dec(a.track_count as u64)
                };
                text_line(right(n.as_str(), cell.width), theme::dim())
            },
            _ => blank_cell_line(cell.width),
        };
        put_toned(line, part, self.selected);
    }

    fn gap_style(&self) -> (s: Style) {
        tone(Style::plain(), self.selected)
    }
}

/// An artist row.
pub struct ArtistRow<'a> {
    pub artist: &'a ArtistItem,
    pub selected: bool,
}

impl<'a> ArtistRow<'a> {
    pub open spec fn base(&self, cell: Cell) -> Seq<Run> {
        match cell.key {
            ColKey::Artist => one(fitted(self.artist.name@, cell.width as nat), theme::text()),
            _ => Seq::empty().push(blank(cell.width)),
        }
    }
}

impl<'a> RowCells for ArtistRow<'a> {
    open spec fn runs(&self, cell: Cell) -> Seq<Run> {
        toned(self.base(cell), self.selected)
    }

    open spec fn gap(&self) -> Style {
        tone(Style::plain(), self.selected)
    }

    fn put(&self, cell: &Cell, line: &mut Line) {
        let part = match cell.key {
            ColKey::Artist => text_line(fit(self.artist.name.as_str(), cell.width), theme::text()),
            _ => blank_cell_line(cell.width),
        };
        put_toned(line, part, self.selected);
    }

    fn gap_style(&self) -> (s: Style) {
        tone(Style::plain(), self.selected)
    }
}

/// A playlist row. `me` blanks the owner of the playlists you own.
pub struct PlaylistRow<'a> {
    pub playlist: &'a Playlist,
    pub me: &'a Option<String>,
    pub playing: bool,
    pub selected: bool,
    pub accent: u32,
}

/// The owner a playlist row names: nobody, where it is you.
pub open spec fn owner_text(p: Playlist, me: Option<String>) -> Seq<char> {
    if is_text(me, p.owner_id@) {
        Seq::empty()
    } else {
        p.owner@
    }
}

impl<'a> PlaylistRow<'a> {
    pub open spec fn base(&self, cell: Cell) -> Seq<Run> {
        let p = *self.playlist;
        match cell.key {
            ColKey::Mark => one(
                if self.playing {
                    "♫ "@
                } else {
                    copies(' ', cell.width as nat)
                },
                theme::accent(self.accent),
            ),
            ColKey::Title => one(fitted(p.name@, cell.width as nat), theme::text()),
            ColKey::Owner => one(
                fitted(owner_text(p, *self.me), cell.width as nat),
                theme::dim(),
            ),
            ColKey::Tracks => one(
                flush_right(decimal(p.track_count as nat), cell.width),
                theme::dim(),
            ),
            _ => Seq::empty().push(blank(cell.width)),
        }
    }
}

impl<'a> RowCells for PlaylistRow<'a> {
    open spec fn runs(&self, cell: Cell) -> Seq<Run> {
        toned(self.base(cell), self.selected)
    }

    open spec fn gap(&self) -> Style {
        tone(Style::plain(), self.selected)
    }

    fn put(&self, cell: &Cell, line: &mut Line) {
        let p = self.playlist;
        let part = match cell.key {
            ColKey::Mark => {
                let mark = if self.playing { "♫ ".to_owned() } else { repeated(' ', cell.width) };
                text_line(mark, theme::accent(self.accent))
            },
            ColKey::Title => text_line(fit(p.name.as_str(), cell.width), theme::text()),
            ColKey::Owner => {
                let mine: bool = some_text(self.me, &p.owner_id);
                let owner = if mine { String::new() } else { p.owner.clone() };
                text_line(fit(owner.as_str(), cell.width), theme::dim())
            },
            ColKey::Tracks => {
                let n = dec(p.track_count as u64);
                text_line(right(n.as_str(), cell.width), theme::dim())
            },
            _ => blank_cell_line(cell.width),
        };
        put_toned(line, part, self.selected);
    }

    fn gap_style(&self) -> (s: Style) {
        tone(Style::plain(), self.selected)
    }
}

/// A station row. `now` is what it is announcing, where the page asked.
pub struct StationRow<'a> {
    pub station: &'a Station,
    pub saved: bool,
    pub playing: bool,
    pub selected: bool,
    pub now: Option<NowStatus>,
    pub accent: u32,
}

/// What a station row says of its announcement. A station that says nothing
/// reads the same as one that would not answer.
pub open spec fn now_text(now: Option<NowStatus>) -> (Seq<char>, Style) {
    match now {
        Some(NowStatus::Title(t)) => (t@, theme::text()),
        Some(NowStatus::Probing) => ("…"@, theme::dim()),
        _ => ("—"@, theme::dim()),
    }
}

impl<'a> StationRow<'a> {
    /// A cell of the row. A station that cannot be played is listed dim.
    pub open spec fn base(&self, cell: Cell) -> Seq<Run> {
        let s = *self.station;
        match cell.key {
            ColKey::Mark => if self.playing {
                one("♫ "@, theme::accent(self.accent))
            } else {
                Seq::empty().push(blank(cell.width))
            },
            ColKey::Saved => one(
                fitted(
                    if self.saved {
                        LIKED_MARK@
                    } else {
                        ""@
                    },
                    cell.width as nat,
                ),
                theme::accent(self.accent),
            ),
            ColKey::Station => one(
                fitted(s.name@, cell.width as nat),
                if s.hls {
                    theme::dim()
                } else {
                    theme::text()
                },
            ),
            ColKey::Now => {
                let (text, style) = now_text(self.now);
                one(
                    fitted(text, cell.width as nat),
                    if self.playing {
                        theme::accent(self.accent)
                    } else {
                        style
                    },
                )
            },
            ColKey::Tags => one(fitted(s.tags@, cell.width as nat), theme::dim()),
            ColKey::Where => one(
                fitted(
                    if s.countrycode@.len() == 0 {
                        s.country@
                    } else {
                        s.countrycode@
                    },
                    cell.width as nat,
                ),
                theme::dim(),
            ),
            ColKey::Stream => one(flush_right(s.quality@, cell.width), theme::dim()),
            _ => Seq::empty().push(blank(cell.width)),
        }
    }

    fn now_line(&self, cell_w: usize) -> (line: Line)
        ensures
            cells(printed(line@)) == cell_w,
            line@ == one(
                fitted(now_text(self.now).0, cell_w as nat),
                if self.playing {
                    theme::accent(self.accent)
                } else {
                    now_text(self.now).1
                },
            ),
    {
        let (text, style) = match &self.now {
            Some(NowStatus::Title(t)) => (t.as_str(), theme::text()),
            Some(NowStatus::Probing) => ("…", theme::dim()),
            _ => ("—", theme::dim()),
        };
        let style = if self.playing { theme::accent(self.accent) } else { style };
        text_line(fit(text, cell_w), style)
    }
}

impl<'a> RowCells for StationRow<'a> {
    open spec fn runs(&self, cell: Cell) -> Seq<Run> {
        toned(self.base(cell), self.selected)
    }

    open spec fn gap(&self) -> Style {
        tone(Style::plain(), self.selected)
    }

    fn put(&self, cell: &Cell, line: &mut Line) {
        let s = self.station;
        let part = match cell.key {
            ColKey::Mark => if self.playing {
                text_line("♫ ".to_owned(), theme::accent(self.accent))
            } else {
                blank_cell_line(cell.width)
            },
            ColKey::Saved => text_line(
                fit(if self.saved { LIKED_MARK } else { "" }, cell.width),
                theme::accent(self.accent),
            ),
            ColKey::Station => text_line(
                fit(s.name.as_str(), cell.width),
                if s.hls { theme::dim() } else { theme::text() },
            ),
            ColKey::Now => self.now_line(cell.width),
            ColKey::Tags => text_line(fit(s.tags.as_str(), cell.width), theme::dim()),
            ColKey::Where => {
                let place = if s.countrycode.as_str().unicode_len() == 0 {
                    s.country.as_str()
                } else {
                    s.countrycode.as_str()
                };
                text_line(fit(place, cell.width), theme::dim())
            },
            ColKey::Stream => text_line(right(s.quality.as_str(), cell.width), theme::dim()),
            _ => blank_cell_line(cell.width),
        };
        put_toned(line, part, self.selected);
    }

    fn gap_style(&self) -> (s: Style) {
        tone(Style::plain(), self.selected)
    }
}

/// A country or genre row: a name and how many stations are behind it. A
/// station in its place prints its name alone.
pub struct FacetRow<'a> {
    pub row: &'a RadioRow,
    pub selected: bool,
}

/// The code, the name and the count a row of countries or genres prints.
pub open spec fn facet_texts(row: RadioRow) -> (Seq<char>, Seq<char>, u32) {
    match row {
        RadioRow::Facet { key, label, count } => (key@, label@, count),
        RadioRow::Station(s) => (""@, s.name@, 0),
    }
}

impl<'a> FacetRow<'a> {
    pub open spec fn base(&self, cell: Cell) -> Seq<Run> {
        let (key, label, count) = facet_texts(*self.row);
        match cell.key {
            ColKey::Code => one(fitted(upper_case(key), cell.width as nat), theme::dim()),
            ColKey::Name => one(fitted(label, cell.width as nat), theme::text()),
            ColKey::Stations => one(
                flush_right(decimal(count as nat), cell.width),
                theme::dim(),
            ),
            _ => Seq::empty().push(blank(cell.width)),
        }
    }
}

impl<'a> RowCells for FacetRow<'a> {
    open spec fn runs(&self, cell: Cell) -> Seq<Run> {
        toned(self.base(cell), self.selected)
    }

    open spec fn gap(&self) -> Style {
        tone(Style::plain(), self.selected)
    }

    fn put(&self, cell: &Cell, line: &mut Line) {
        let (key, label, count) = match self.row {
            RadioRow::Facet { key, label, count } => (key.as_str(), label.as_str(), *count),
            RadioRow::Station(s) => ("", s.name.as_str(), 0),
        };
        let part = match cell.key {
            ColKey::Code => {
                let code = to_upper(key);
                text_line(fit(code.as_str(), cell.width), theme::dim())
            },
            ColKey::Name => text_line(fit(label, cell.width), theme::text()),
            ColKey::Stations => {
                let n = dec(count as u64);
                text_line(right(n.as_str(), cell.width), theme::dim())
            },
            _ => blank_cell_line(cell.width),
        };
        put_toned(line, part, self.selected);
    }

    fn gap_style(&self) -> (s: Style) {
        tone(Style::plain(), self.selected)
    }
}

proof fn lemma_toned_one_prints(text: Seq<char>, style: Style, selected: bool)
    ensures
        printed(one(text, style)) == text,
        printed(toned(one(text, style), selected)) == text,
{
    let line = one(text, style);
    assert(line.drop_last() =~= Seq::<Run>::empty());
    assert(printed(line.drop_last()) =~= Seq::<char>::empty());
    assert(printed(line) =~= text);
    lemma_toned_prints(line, selected);
}

proof fn lemma_trimmed_spaces(s: Seq<char>, n: nat)
    ensures
        trimmed(s + copies(' ', n)) == trimmed(s),
    decreases n,
{
    let t = s + copies(' ', n);
    if n == 0 {
        assert(t =~= s);
    } else {
        assert(t.drop_last() =~= s + copies(' ', (n - 1) as nat));
        lemma_trimmed_spaces(s, (n - 1) as nat);
    }
}

proof fn lemma_cell_prints(text: Seq<char>, w: usize, style: Style, hovered: bool, selected: bool)
    ensures
        trimmed(printed(toned(cell_runs(text, w, style, hovered), selected))) == trimmed(
            fitted(text, w as nat),
        ),
        !hovered ==> printed(toned(cell_runs(text, w, style, hovered), selected)) == fitted(
            text,
            w as nat,
        ),
{
    let cell = fitted(text, w as nat);
    let runs = cell_runs(text, w, style, hovered);
    lemma_toned_prints(runs, selected);
    if hovered {
        let lit = trimmed(cell);
        let n = w.saturating_sub(width_of(lit)) as nat;
        assert(runs.drop_last().drop_last() =~= Seq::<Run>::empty());
        assert(printed(runs.drop_last().drop_last()) =~= Seq::<char>::empty());
        assert(printed(runs.drop_last()) =~= lit);
        assert(printed(runs) =~= lit + copies(' ', n));
        lemma_trimmed_spaces(lit, n);
        trimming_takes_white_space_alone(cell);
    } else {
        assert(runs =~= one(cell, style));
        lemma_toned_one_prints(cell, style, selected);
    }
}

/// A track's row prints, in each of its columns, what that column is about:
/// whatever is hovered or selected, its own name, the names credited on it, its
/// album, its year, its number, and how long it is.
#[verifier::rlimit(60)]
pub proof fn a_track_row_prints_its_track(row: TrackRow, cell: Cell)
    ensures
        ({
            let text = printed(row.runs(cell));
            let w = cell.width as nat;
            &&& cell.key == ColKey::Title ==> text == fitted(row.track.name@, w)
            &&& cell.key == ColKey::Artist ==> text == fitted(credit_names(row.track.credits@), w)
            &&& cell.key == ColKey::Album ==> trimmed(text) == trimmed(fitted(row.track.album@, w))
            &&& cell.key == ColKey::Year ==> text == fitted(row.track.release_year@, w)
            &&& cell.key == ColKey::No && row.no > 0 ==> text == flush_right(
                decimal(row.no as nat),
                cell.width,
            )
            &&& cell.key == ColKey::No && row.no == 0 ==> text == flush_right(
                Seq::empty(),
                cell.width,
            )
            &&& cell.key == ColKey::Time ==> exists|time: Seq<char>|
                {
                    &&& #[trigger] reads_as(time, (row.track.duration_ms / 1_000) as nat)
                    &&& text == flush_right(time, cell.width)
                }
            &&& cell.key == ColKey::Mark && row.playing ==> text == seq!['▶', ' ']
            &&& cell.key == ColKey::Mark && !row.playing ==> text == spaces(w)
            &&& cell.key == ColKey::Actions ==> text == seq![
                ' ',
                '★',
                ' ',
                ' ',
                '⧉',
                ' ',
                ' ',
                '+',
                ' ',
            ]
        }),
{
    let t = *row.track;
    let w = cell.width as nat;
    let base = row.base(cell);
    lemma_toned_prints(base, row.selected);
    if cell.key == ColKey::Album {
        lemma_cell_prints(
            t.album@,
            cell.width,
            theme::dim(),
            row.hover == Some(HoverCol::Album),
            row.selected,
        );
    } else if cell.key == ColKey::Artist {
        let runs = credit_runs(t.credits@, 0, 0, credit_ink(t.credits@, cell.width));
        credit_row_prints_its_cell(
            fitted(credit_names(t.credits@), w),
            runs,
            theme::dim(),
            lit_run(runs, row.hover),
        );
    } else if cell.key == ColKey::Actions {
        lemma_actions_print(row.liked, hover_action(row.hover), row.accent);
        let line = toned(base, row.selected);
        let lit = line.update(0, run(line[0].text, theme::accent(row.accent).bold()));
        lemma_same_texts_print(line, lit);
    } else if cell.key == ColKey::Mark {
        reveal_strlit("▶ ");
        if row.playing {
            lemma_toned_one_prints("▶ "@, theme::accent(row.accent).bold(), row.selected);
            assert("▶ "@ =~= seq!['▶', ' ']);
        } else {
            assert(base =~= one(copies(' ', w), Style::plain()));
            lemma_toned_one_prints(copies(' ', w), Style::plain(), row.selected);
            assert(copies(' ', w) =~= spaces(w));
        }
    } else if cell.key == ColKey::Time {
        let time = duration_text(t.duration_ms as nat);
        a_reading_is_the_time(t.duration_ms as nat);
        lemma_toned_one_prints(flush_right(time, cell.width), theme::dim(), row.selected);
        assert(reads_as(time, (t.duration_ms / 1_000) as nat));
    } else {
        lemma_toned_one_prints(base[0].text, base[0].style, row.selected);
        assert(base =~= one(base[0].text, base[0].style));
    }
}

proof fn lemma_actions_print(liked: Option<bool>, hover: Option<RowAction>, accent: u32)
    ensures
        printed(action_runs(liked, hover, accent)) == seq![
            ' ',
            '★',
            ' ',
            ' ',
            '⧉',
            ' ',
            ' ',
            '+',
            ' ',
        ],
{
    reveal_strlit(" ");
    reveal_strlit("★");
    reveal_strlit("⧉");
    reveal_strlit("+");
    let r = action_runs(liked, hover, accent);
    let (a, b) = (r.drop_last(), r.drop_last().drop_last());
    assert(b.drop_last() =~= Seq::<Run>::empty());
    assert(printed(b.drop_last()) =~= Seq::<char>::empty());
    assert(printed(b) =~= padded_mark(LIKED_MARK@));
    assert(printed(a) =~= padded_mark(LIKED_MARK@) + padded_mark(SHARE_MARK@));
    assert(printed(r) =~= padded_mark(LIKED_MARK@) + padded_mark(SHARE_MARK@) + padded_mark(
        ADD_MARK@,
    ));
    assert(printed(r) =~= seq![' ', '★', ' ', ' ', '⧉', ' ', ' ', '+', ' ']);
}

/// An album's row prints its name, the names credited on it, its year, its kind,
/// and how many tracks it has where that is known.
#[verifier::rlimit(60)]
pub proof fn an_album_row_prints_its_album(row: AlbumRow, cell: Cell)
    ensures
        ({
            let text = printed(row.runs(cell));
            let w = cell.width as nat;
            &&& cell.key == ColKey::Album ==> trimmed(text) == trimmed(fitted(row.album.name@, w))
            &&& cell.key == ColKey::Artist ==> text == fitted(credit_names(row.album.credits@), w)
            &&& cell.key == ColKey::Year ==> text == fitted(row.album.release_year@, w)
            &&& cell.key == ColKey::Type ==> text == fitted(row.album.album_type@, w)
            &&& cell.key == ColKey::Tracks && row.album.track_count > 0 ==> text == flush_right(
                decimal(row.album.track_count as nat),
                cell.width,
            )
            &&& cell.key == ColKey::Tracks && row.album.track_count == 0 ==> text == flush_right(
                Seq::empty(),
                cell.width,
            )
            &&& cell.key == ColKey::Mark && row.playing ==> text == seq!['♫', ' ']
            &&& cell.key == ColKey::Mark && !row.playing ==> text == spaces(w)
        }),
{
    let a = *row.album;
    let w = cell.width as nat;
    let base = row.base(cell);
    lemma_toned_prints(base, row.selected);
    reveal_strlit("♫ ");
    assert("♫ "@ =~= seq!['♫', ' ']);
    assert(copies(' ', w) =~= spaces(w));
    if cell.key == ColKey::Album {
        lemma_cell_prints(a.name@, cell.width, theme::text(), row.hovered, row.selected);
    } else if cell.key == ColKey::Artist {
        let runs = credit_runs(a.credits@, 0, 0, credit_ink(a.credits@, cell.width));
        credit_row_prints_its_cell(
            fitted(credit_names(a.credits@), w),
            runs,
            theme::dim(),
            lit_run(runs, row.hover),
        );
    } else {
        assert(base =~= one(base[0].text, base[0].style));
        lemma_toned_one_prints(base[0].text, base[0].style, row.selected);
    }
}

/// An artist's row prints the artist's name.
pub proof fn an_artist_row_prints_its_artist(row: ArtistRow, cell: Cell)
    ensures
        cell.key == ColKey::Artist ==> printed(row.runs(cell)) == fitted(
            row.artist.name@,
            cell.width as nat,
        ),
{
    let base = row.base(cell);
    assert(base =~= one(base[0].text, base[0].style));
    lemma_toned_one_prints(base[0].text, base[0].style, row.selected);
}

/// A playlist's row prints its name and how many tracks it has, and the name of
/// its owner unless that is you.
pub proof fn a_playlist_row_prints_its_playlist(row: PlaylistRow, cell: Cell)
    ensures
        ({
            let text = printed(row.runs(cell));
            let p = *row.playlist;
            let w = cell.width as nat;
            let yours = *row.me matches Some(me) && me@ == p.owner_id@;
            &&& cell.key == ColKey::Title ==> text == fitted(p.name@, w)
            &&& cell.key == ColKey::Owner && !yours ==> text == fitted(p.owner@, w)
            &&& cell.key == ColKey::Owner && yours ==> text == fitted(Seq::empty(), w)
            &&& cell.key == ColKey::Tracks ==> text == flush_right(
                decimal(p.track_count as nat),
                cell.width,
            )
            &&& cell.key == ColKey::Mark && row.playing ==> text == seq!['♫', ' ']
            &&& cell.key == ColKey::Mark && !row.playing ==> text == spaces(w)
        }),
{
    let base = row.base(cell);
    reveal_strlit("♫ ");
    assert("♫ "@ =~= seq!['♫', ' ']);
    assert(copies(' ', cell.width as nat) =~= spaces(cell.width as nat));
    assert(base =~= one(base[0].text, base[0].style));
    lemma_toned_one_prints(base[0].text, base[0].style, row.selected);
}

/// A station's row prints its name, what it plays, its genres, where it is, its
/// stream, and a star where it was saved. What it plays is a title where one was
/// read, a mark while it is being asked, and another where it says nothing.
#[verifier::rlimit(60)]
pub proof fn a_station_row_prints_its_station(row: StationRow, cell: Cell)
    ensures
        ({
            let text = printed(row.runs(cell));
            let s = *row.station;
            let w = cell.width as nat;
            &&& cell.key == ColKey::Station ==> text == fitted(s.name@, w)
            &&& cell.key == ColKey::Tags ==> text == fitted(s.tags@, w)
            &&& cell.key == ColKey::Where && s.countrycode@.len() > 0 ==> text == fitted(
                s.countrycode@,
                w,
            )
            &&& cell.key == ColKey::Where && s.countrycode@.len() == 0 ==> text == fitted(
                s.country@,
                w,
            )
            &&& cell.key == ColKey::Stream ==> text == flush_right(s.quality@, cell.width)
            &&& cell.key == ColKey::Saved && row.saved ==> text == fitted(seq!['★'], w)
            &&& cell.key == ColKey::Saved && !row.saved ==> text == fitted(Seq::empty(), w)
            &&& cell.key == ColKey::Now ==> (match row.now {
                Some(NowStatus::Title(t)) => text == fitted(t@, w),
                Some(NowStatus::Probing) => text == fitted(seq!['…'], w),
                _ => text == fitted(seq!['—'], w),
            })
            &&& cell.key == ColKey::Mark && row.playing ==> text == seq!['♫', ' ']
            &&& cell.key == ColKey::Mark && !row.playing ==> text == spaces(w)
        }),
{
    let base = row.base(cell);
    reveal_strlit("♫ ");
    reveal_strlit("★");
    reveal_strlit("");
    reveal_strlit("…");
    reveal_strlit("—");
    assert("♫ "@ =~= seq!['♫', ' ']);
    assert(LIKED_MARK@ =~= seq!['★']);
    assert(""@ =~= Seq::<char>::empty());
    assert("…"@ =~= seq!['…']);
    assert("—"@ =~= seq!['—']);
    assert(copies(' ', cell.width as nat) =~= spaces(cell.width as nat));
    assert(base =~= one(base[0].text, base[0].style));
    lemma_toned_one_prints(base[0].text, base[0].style, row.selected);
}

/// A row of countries or genres prints its name, its code in capitals, and how
/// many stations it has.
pub proof fn a_facet_row_prints_its_facet(row: FacetRow, cell: Cell)
    ensures
        *row.row matches RadioRow::Facet { key, label, count } ==> {
            let text = printed(row.runs(cell));
            &&& cell.key == ColKey::Name ==> text == fitted(label@, cell.width as nat)
            &&& cell.key == ColKey::Code ==> text == fitted(upper_case(key@), cell.width as nat)
            &&& cell.key == ColKey::Stations ==> text == flush_right(
                decimal(count as nat),
                cell.width,
            )
        },
{
    let base = row.base(cell);
    assert(base =~= one(base[0].text, base[0].style));
    lemma_toned_one_prints(base[0].text, base[0].style, row.selected);
}

/// A row says by its style what is selected, what plays and what is liked: a
/// selected row is bright and bold throughout, but for the star of a liked
/// track, which keeps the accent.
pub proof fn a_track_row_is_told_apart_by_its_style(row: TrackRow, cell: Cell)
    ensures
        ({
            let runs = row.runs(cell);
            let star = cell.key == ColKey::Actions && row.liked == Some(true);
            &&& row.selected ==> forall|i: int|
                0 <= i < runs.len() && !(star && i == 0) ==> (#[trigger] runs[i]).style.bold
                    && runs[i].style.fg == Some(theme::BRIGHT)
            &&& star && row.selected ==> runs[0].style.fg == Some(row.accent)
            &&& star && !row.selected && row.hover is None ==> runs[0].style.fg == Some(row.accent)
            &&& cell.key == ColKey::Actions && row.liked != Some(true) && !row.selected
                && row.hover is None ==> runs[0].style == theme::dim()
            &&& cell.key == ColKey::Title && row.playing && !row.selected ==> runs[0].style.fg
                == Some(row.accent) && runs[0].style.bold
            &&& cell.key == ColKey::Title && !row.playing && !row.selected ==> runs[0].style
                == theme::text()
        }),
{
}

/// A track's number is its own on an album, and its place in the list anywhere
/// else, counted from one.
pub proof fn a_number_is_the_albums_or_the_lists(track: Track, index: usize, album: bool)
    ensures
        album ==> track_no(&track, index, album) == track.track_number,
        !album && index < u32::MAX ==> track_no(&track, index, album) == index + 1,
{
}

} // verus!
