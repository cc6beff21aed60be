//! What a frame is made of: text, pictures, and the cells that answer a click.

use vstd::prelude::*;
use vstd::string::*;

use crate::columns::ColKey;
use crate::geometry::Rect;
use crate::state::{ArtistTab, Credit, CrumbTarget, RadioTab, SearchTab};
use crate::table::printed;
use crate::text::{low16, low_half, text_cells, text_width};
use crate::theme::Style;

verus! {

/// A run of text in one style.
#[derive(Debug, Clone, PartialEq, Eq)]
pub struct Span {
    pub text: String,
    pub style: Style,
}

/// A [`Span`] as a value.
pub struct Run {
    pub text: Seq<char>,
    pub style: Style,
}

/// The run of `text` in `style`.
pub open spec fn run(text: Seq<char>, style: Style) -> Run {
    Run { text, style }
}

impl View for Span {
    type V = Run;

    open spec fn view(&self) -> Run {
        Run { text: self.text@, style: self.style }
    }
}

/// A row of runs.
#[derive(Debug, Clone, PartialEq, Eq)]
pub struct Line {
    pub spans: Vec<Span>,
}

impl View for Line {
    type V = Seq<Run>;

    open spec fn view(&self) -> Seq<Run> {
        Seq::new(self.spans@.len(), |i: int| self.spans@[i]@)
    }
}

/// Every run of `line` put through `f`.
pub open spec fn restyled(line: Seq<Run>, f: spec_fn(Style) -> Style) -> Seq<Run> {
    Seq::new(line.len(), |i: int| run(line[i].text, f(line[i].style)))
}

/// The cells `n` runs of `line` take, by the measure a painted run has.
pub open spec fn line_cells(line: Seq<Run>) -> nat
    decreases line.len(),
{
    if line.len() == 0 {
        0
    } else {
        line_cells(line.drop_last()) + text_cells(line.last().text)
    }
}

/// [`line_cells`] as a coordinate.
pub open spec fn line_w(line: Seq<Run>) -> u16 {
    low16(line_cells(line) as int)
}

impl Line {
    /// A row with nothing on it.
    pub fn empty() -> (r: Line)
        ensures
            r@ == Seq::<Run>::empty(),
    {
        let r = Line { spans: Vec::new() };
        assert(r@ =~= Seq::<Run>::empty());
        r
    }

    /// One run, on a row of its own.
    pub fn of(text: String, style: Style) -> (r: Line)
        ensures
            r@ == Seq::<Run>::empty().push(run(text@, style)),
    {
        let mut r = Line::empty();
        r.put(text, style);
        r
    }

    /// Append a run.
    pub fn put(&mut self, text: String, style: Style)
        ensures
            final(self)@ == old(self)@.push(run(text@, style)),
    {
        let ghost before = self@;
        self.spans.push(Span { text, style });
        assert(self@ =~= before.push(run(text@, style)));
    }

    /// Append a run of fixed text.
    pub fn print(&mut self, text: &str, style: Style)
        ensures
            final(self)@ == old(self)@.push(run(text@, style)),
    {
        self.put(text.to_owned(), style);
    }

    /// Append every run of `other`.
    pub fn extend(&mut self, other: Line)
        ensures
            final(self)@ == old(self)@ + other@,
    {
        let ghost before = self@;
        let mut tail = other.spans;
        let ghost t = tail@;
        self.spans.append(&mut tail);
        assert(self@ =~= before + other@);
    }

    /// The same row again.
    pub fn copy(&self) -> (r: Line)
        ensures
            r@ == self@,
    {
        let mut spans: Vec<Span> = Vec::new();
        let mut i: usize = 0;
        while i < self.spans.len()
            invariant
                i <= self.spans@.len(),
                spans@.len() == i,
                forall|j: int| 0 <= j < i ==> (#[trigger] spans@[j])@ == self.spans@[j]@,
            decreases self.spans@.len() - i,
        {
            spans.push(Span { text: self.spans[i].text.clone(), style: self.spans[i].style });
            i = i + 1;
        }
        let r = Line { spans };
        assert(r@ =~= self@);
        r
    }

    /// Paint run `i` in another style.
    pub fn restyle(&mut self, i: usize, style: Style)
        requires
            i < old(self)@.len(),
        ensures
            final(self)@ == old(self)@.update(i as int, run(old(self)@[i as int].text, style)),
    {
        let ghost before = self@;
        let text = self.spans[i].text.clone();
        self.spans.set(i, Span { text, style });
        assert(self@ =~= before.update(i as int, run(before[i as int].text, style)));
    }

    /// How many runs the row has.
    pub fn len(&self) -> (n: usize)
        ensures
            n == self@.len(),
    {
        self.spans.len()
    }

    /// The cells the row takes, as a coordinate.
    pub fn width(&self) -> (w: u16)
        ensures
            w == line_w(self@),
    {
        let mut w: u16 = 0;
        let mut i: usize = 0;
        assert(self@.take(0) =~= Seq::empty());
        while i < self.spans.len()
            invariant
                i <= self.spans@.len(),
                w == line_w(self@.take(i as int)),
            decreases self.spans@.len() - i,
        {
            let ghost shown = self@.take(i as int);
            let ghost next = self@.take(i + 1);
            assert(next.drop_last() =~= shown);
            assert(next.last() == self.spans@[i as int]@);
            let add: u16 = low_half(text_width(self.spans[i].text.as_str()));
            proof {
                lemma_low16(line_cells(shown) as int, text_cells(next.last().text) as int);
            }
            w = w.wrapping_add(add);
            i = i + 1;
        }
        assert(self@.take(self@.len() as int) =~= self@);
        w
    }
}

pub proof fn lemma_low16(a: int, b: int)
    requires
        a >= 0,
        b >= 0,
    ensures
        low16(a) + low16(b) < 0x1_0000 ==> low16(a + b) == low16(a) + low16(b),
        low16(a) + low16(b) >= 0x1_0000 ==> low16(a + b) == low16(a) + low16(b) - 0x1_0000,
{
}

/// Which picture an art block shows.
#[derive(Debug, Clone, PartialEq, Eq)]
pub enum Picture {
    /// A stand-in swatch, until a cover arrives.
    Placeholder,
    /// The sleeve of the record on the deck.
    Playing,
    /// The sleeve of the page that is open.
    View,
    /// The picture at an address, where it has been fetched.
    Page(String),
}

/// Where a click leads.
#[derive(Debug, Clone, PartialEq, Eq)]
pub enum Target {
    Home,
    Status,
    SearchBox,
    ClosePlayer,
    Crumb(CrumbTarget),
    Previous,
    Play,
    Next,
    Gauge,
    Volume,
    NowPlaying,
    NowArtist(Credit),
    NowAlbum,
    Like,
    Share,
    AddTo,
    Shuffle,
    QueueName,
    SaveStation,
    RadioLive,
    StationCountry,
    Sleeve { seed: String },
    Header(ColKey),
    PlayerQueue,
    Visualizer,
    HeaderPlay,
    HeaderShuffle,
    HeaderShare,
    HeaderSave,
    HeaderEdit,
    HeaderArtist(Credit),
    MainList,
    HomeRow(usize),
    RadioTab(RadioTab),
    SearchTab(SearchTab),
    ArtistTab(ArtistTab),
    Retry,
    LikeColumn,
    ShareColumn,
    AddColumn,
    TrackArtist(Credit),
    AlbumArtist(Credit),
    AlbumName(usize),
    CardPlay(usize),
    CardShuffle(usize),
    PickerField,
    PickerList,
    PickerNew,
    EditName,
    EditDescription,
    EditSave,
    BioBox,
    BioBody,
}

/// Where a line sits in its area.
#[derive(Debug, Clone, Copy, PartialEq, Eq, Structural)]
pub enum Place {
    Left,
    Center,
    Right,
}

/// Which scrolled list a block of rows is.
#[derive(Debug, Clone, Copy, PartialEq, Eq, Structural)]
pub enum ListId {
    Main,
    Queue,
    Bio,
}

/// One row of a list, washed when the pointer is on it.
#[derive(Debug, Clone, PartialEq, Eq)]
pub struct Row {
    pub line: Line,
    pub wash: bool,
}

/// A [`Row`] as a value.
pub struct RowView {
    pub line: Seq<Run>,
    pub wash: bool,
}

impl View for Row {
    type V = RowView;

    open spec fn view(&self) -> RowView {
        RowView { line: self.line@, wash: self.wash }
    }
}

/// The row of `line`.
pub open spec fn row_of(line: Seq<Run>, wash: bool) -> RowView {
    RowView { line, wash }
}

/// Rows as values.
pub open spec fn rows_of(rows: Seq<Row>) -> Seq<RowView> {
    Seq::new(rows.len(), |i: int| rows[i]@)
}

/// Lines as values.
pub open spec fn lines_of(lines: Seq<Line>) -> Seq<Seq<Run>> {
    Seq::new(lines.len(), |i: int| lines[i]@)
}

/// One thing drawn or recorded.
#[derive(Debug, Clone, PartialEq, Eq)]
pub enum Op {
    /// A line in an area, cut at its edge.
    Text { area: Rect, place: Place, line: Line },
    /// Lines down an area.
    Lines { area: Rect, lines: Vec<Line> },
    /// A line in an area, wrapped at its edge.
    Wrapped { area: Rect, line: Line },
    /// A scrolled list.
    List { id: ListId, area: Rect, offset: usize, rows: Vec<Row> },
    /// A style over an area.
    Fill { area: Rect, style: Style },
    /// An area wiped clean.
    Clear { area: Rect },
    /// A rounded frame with a title on it.
    Frame { area: Rect, title: String, style: Style },
    /// A scrollbar for `len` rows scrolled to `offset`.
    Scrollbar { bar: Rect, len: usize, offset: usize },
    /// A picture the size of `area`, of which the cells inside `clip` show.
    Art { area: Rect, clip: Rect, picture: Picture, seed: String },
    /// How far a record has played, as a track `width` cells long between two
    /// readings.
    Progress {
        area: Rect,
        elapsed: Line,
        remaining: Line,
        width: u16,
        progress_ms: u64,
        duration_ms: u64,
    },
    /// The visualizer.
    Spectrum { area: Rect },
    /// Cells that answer a click.
    Hit { area: Rect, target: Target },
    /// The album cells of a table, by the width printed on each row.
    AlbumColumn { area: Rect, widths: Vec<u16> },
    /// The keys the shown table can be sorted by.
    SortKeys { keys: Vec<ColKey> },
    /// The row each line of the scrolled page belongs to.
    LineRows { owners: Vec<Option<usize>> },
}

/// An [`Op`] as a value.
pub enum OpView {
    Text { area: Rect, place: Place, line: Seq<Run> },
    Lines { area: Rect, lines: Seq<Seq<Run>> },
    Wrapped { area: Rect, line: Seq<Run> },
    List { id: ListId, area: Rect, offset: usize, rows: Seq<RowView> },
    Fill { area: Rect, style: Style },
    Clear { area: Rect },
    Frame { area: Rect, title: Seq<char>, style: Style },
    Scrollbar { bar: Rect, len: usize, offset: usize },
    Art { area: Rect, clip: Rect, picture: Picture, seed: Seq<char> },
    Progress {
        area: Rect,
        elapsed: Seq<Run>,
        remaining: Seq<Run>,
        width: u16,
        progress_ms: u64,
        duration_ms: u64,
    },
    Spectrum { area: Rect },
    Hit { area: Rect, target: Target },
    AlbumColumn { area: Rect, widths: Seq<u16> },
    SortKeys { keys: Seq<ColKey> },
    LineRows { owners: Seq<Option<usize>> },
}

impl View for Op {
    type V = OpView;

    open spec fn view(&self) -> OpView {
        match *self {
            Op::Text { area, place, line } => OpView::Text { area, place, line: line@ },
            Op::Lines { area, lines } => OpView::Lines { area, lines: lines_of(lines@) },
            Op::Wrapped { area, line } => OpView::Wrapped { area, line: line@ },
            Op::List { id, area, offset, rows } => OpView::List {
                id,
                area,
                offset,
                rows: rows_of(rows@),
            },
            Op::Fill { area, style } => OpView::Fill { area, style },
            Op::Clear { area } => OpView::Clear { area },
            Op::Frame { area, title, style } => OpView::Frame { area, title: title@, style },
            Op::Scrollbar { bar, len, offset } => OpView::Scrollbar { bar, len, offset },
            Op::Art { area, clip, picture, seed } => OpView::Art {
                area,
                clip,
                picture,
                seed: seed@,
            },
            Op::Progress { area, elapsed, remaining, width, progress_ms, duration_ms } =>
                OpView::Progress {
                area,
                elapsed: elapsed@,
                remaining: remaining@,
                width,
                progress_ms,
                duration_ms,
            },
            Op::Spectrum { area } => OpView::Spectrum { area },
            Op::Hit { area, target } => OpView::Hit { area, target },
            Op::AlbumColumn { area, widths } => OpView::AlbumColumn { area, widths: widths@ },
            Op::SortKeys { keys } => OpView::SortKeys { keys: keys@ },
            Op::LineRows { owners } => OpView::LineRows { owners: owners@ },
        }
    }
}

/// A frame, in the order it is drawn. A later entry lies over an earlier one,
/// and of two records of one target the later one stands.
#[derive(Debug, Clone, PartialEq, Eq)]
pub struct Scene {
    pub ops: Vec<Op>,
}

/// A [`Scene`] as a value.
pub type Canvas = Seq<OpView>;

impl View for Scene {
    type V = Seq<OpView>;

    open spec fn view(&self) -> Seq<OpView> {
        Seq::new(self.ops@.len(), |i: int| self.ops@[i]@)
    }
}

/// A row as far as it has been laid out: its runs, the column it has reached,
/// and what has been drawn and recorded on the way.
pub struct Strip {
    pub line: Seq<Run>,
    pub x: u16,
    pub canvas: Canvas,
}

/// `line` drawn at the left of `area`.
pub open spec fn put_text(c: Canvas, area: Rect, line: Seq<Run>) -> Canvas {
    c.push(OpView::Text { area, place: Place::Left, line })
}

/// `area` recorded as answering to `target`.
pub open spec fn put_hit(c: Canvas, area: Rect, target: Target) -> Canvas {
    c.push(OpView::Hit { area, target })
}

/// The offset a list was last drawn at.
pub open spec fn listed_at(c: Canvas, id: ListId) -> Option<usize>
    decreases c.len(),
{
    if c.len() == 0 {
        None
    } else {
        match c.last() {
            OpView::List { id: drawn, offset, .. } if drawn == id => Some(offset),
            _ => listed_at(c.drop_last(), id),
        }
    }
}

impl Scene {
    /// The offset a list was last drawn at.
    pub fn offset_of(&self, id: ListId) -> (r: Option<usize>)
        ensures
            r == listed_at(self@, id),
    {
        let mut n: usize = self.ops.len();
        assert(self@.take(n as int) =~= self@);
        while n > 0
            invariant
                n <= self.ops@.len(),
                listed_at(self@, id) == listed_at(self@.take(n as int), id),
            decreases n,
        {
            let ghost shown = self@.take(n as int);
            assert(shown.last() == self.ops@[n - 1]@);
            assert(shown.drop_last() =~= self@.take(n - 1));
            if let Op::List { id: drawn, offset, .. } = &self.ops[n - 1] {
                if *drawn == id {
                    return Some(*offset);
                }
            }
            n = n - 1;
        }
        None
    }

    /// A frame with nothing on it.
    pub fn empty() -> (r: Scene)
        ensures
            r@ == Seq::<OpView>::empty(),
    {
        let r = Scene { ops: Vec::new() };
        assert(r@ =~= Seq::<OpView>::empty());
        r
    }

    /// Draw or record one thing.
    pub fn put(&mut self, op: Op)
        ensures
            final(self)@ == old(self)@.push(op@),
    {
        let ghost before = self@;
        self.ops.push(op);
        assert(self@ =~= before.push(op@));
    }

    /// Draw `line` at the left of `area`.
    pub fn text(&mut self, area: Rect, line: Line)
        ensures
            final(self)@ == put_text(old(self)@, area, line@),
    {
        self.put(Op::Text { area, place: Place::Left, line });
    }

    /// Record `area` as answering to `target`.
    pub fn hit(&mut self, area: Rect, target: Target)
        ensures
            final(self)@ == put_hit(old(self)@, area, target),
    {
        self.put(Op::Hit { area, target });
    }
}

/// Whether `d` is `c` with more drawn over it: a frame only ever grows.
pub open spec fn keeps(c: Canvas, d: Canvas) -> bool {
    &&& c.len() <= d.len()
    &&& forall|i: int| 0 <= i < c.len() ==> #[trigger] d[i] == c[i]
}

/// Whether `op` writes `text` on the row `y`.
pub open spec fn writes(op: OpView, y: u16, text: Seq<char>) -> bool {
    op matches OpView::Text { area, place, line } && area.y == y && printed(line) == text
}

/// Whether `text` is written on the row `y` of a frame.
pub open spec fn written(c: Canvas, y: u16, text: Seq<char>) -> bool {
    exists|i: int| 0 <= i < c.len() && #[trigger] writes(c[i], y, text)
}

/// Whether `op` is drawn on a frame.
pub open spec fn drawn(c: Canvas, op: OpView) -> bool {
    exists|i: int| 0 <= i < c.len() && #[trigger] c[i] == op
}

/// What was written or drawn stays so as the frame grows.
pub proof fn lemma_keeps(a: Canvas, b: Canvas, y: u16, text: Seq<char>, op: OpView)
    requires
        keeps(a, b),
    ensures
        written(a, y, text) ==> written(b, y, text),
        drawn(a, op) ==> drawn(b, op),
{
    if written(a, y, text) {
        let i = choose|i: int| 0 <= i < a.len() && #[trigger] writes(a[i], y, text);
        assert(b[i] == a[i]);
        assert(writes(b[i], y, text));
    }
    if drawn(a, op) {
        let i = choose|i: int| 0 <= i < a.len() && #[trigger] a[i] == op;
        assert(b[i] == a[i]);
    }
}

} // verus!
