//! The one column engine every list pane resolves through.
//!
//! A table declares its columns as data; the header, the rows and the click
//! rects are all read back off the same resolved [`Layout`], so none of the
//! three can drift from the other two.

use vstd::prelude::*;
use vstd::string::*;

use crate::geometry::{max_usize, Position, Rect};
use crate::scene::{
    line_w, put_hit, put_text, run, Canvas, Line, Op, OpView, Run, Scene, Strip, Target,
};
use crate::state::Sort;
use crate::table::{
    lemma_prints_alone, lemma_prints_both, light_changes_no_text, printed, segment,
    segment_rect, with_segment, ACTIONS_MIN, ACTIONS_W,
};
use crate::text::{
    blanks, cells, clipped, copies, dec, decimal, fitted, joined, lemma_blank_cells,
    lemma_cells_concat, lemma_cells_spaces, lemma_fitted_cells, lemma_trimmed_cells, low16,
    low_half, repeated, spaces, trimmed, white_space, width, width_of,
};
use crate::theme;
use crate::theme::Style;

verus! {

/// What separates two columns.
pub const COL_GAP: &'static str = "   ";

/// Cells of [`COL_GAP`].
pub const COL_GAP_W: usize = 3;

/// Right-aligned duration cell.
pub const DUR_W: usize = 5;

/// Right-aligned "how long ago" cell.
pub const AGO_W: usize = 7;

/// Narrowest pane the column of [`AGO_W`] is worth its cells on.
pub const AGO_MIN: usize = 60;

/// Four-digit release year.
pub const YEAR_W: usize = 4;

/// Leading marker column. Every table carries one, so rows line up.
pub const PREFIX_W: usize = 2;

/// Narrowest the track-number column goes before the data widens it.
pub const NO_W: usize = 3;

/// The longest album type there is.
pub const TYPE_W: usize = 11;

/// Right-aligned track count.
pub const COUNT_W: usize = 6;

/// Right-aligned station count on a facet row.
pub const FACET_COUNT_W: usize = 8;

/// Country code on a facet row.
pub const FACET_CODE_W: usize = 6;

/// Right-aligned stream quality.
pub const QUALITY_W: usize = 10;

/// Country code, or the name where there is no code.
pub const WHERE_W: usize = 6;

/// The saved mark on a station row.
pub const SAVED_W: usize = 5;

/// Reserved at the right of every list pane: a blank column, then the
/// scrollbar.
pub const GUTTER: u16 = 2;

/// The scrollbar column for a content rect: the far side of the gutter.
#[verifier::allow_in_spec]
pub fn scroll_col(body: Rect) -> Rect
    returns
        (Rect { x: body.right().saturating_add(1), y: body.y, width: 1, height: body.height }),
{
    Rect { x: body.right().saturating_add(1), y: body.y, width: 1, height: body.height }
}

/// Every column identity in the app, and the sort key with it.
#[derive(Debug, Clone, Copy, PartialEq, Eq, Hash, Structural)]
pub enum ColKey {
    /// Fetch order.
    No,
    Title,
    Artist,
    Album,
    Year,
    Time,
    Type,
    Tracks,
    Owner,
    Station,
    /// What a station is announcing.
    Now,
    Tags,
    Where,
    Stream,
    Name,
    Stations,
    /// The country code a facet row queries by.
    Code,
    /// Whether a station is one you keep.
    Saved,
    /// How long ago a station announced a record.
    Ago,
    /// The run of controls at the end of a track row.
    Actions,
    /// The leading marker column.
    Mark,
}

impl ColKey {
    /// The column heading.
    #[verifier::allow_in_spec]
    pub fn head(self) -> &'static str
        returns
            (match self {
                ColKey::No => "#",
                ColKey::Title => "Title",
                ColKey::Artist => "Artist",
                ColKey::Album => "Album",
                ColKey::Year => "Year",
                ColKey::Type => "Type",
                ColKey::Tracks => "Tracks",
                ColKey::Owner => "Owner",
                ColKey::Station => "Station",
                ColKey::Now => "Now Playing",
                ColKey::Tags => "Tags",
                ColKey::Where => "Where",
                ColKey::Stream => "Stream",
                ColKey::Name => "Name",
                ColKey::Stations => "Stations",
                ColKey::Code => "Code",
                ColKey::Saved => "Saved",
                ColKey::Ago => "Ago",
                ColKey::Time | ColKey::Actions | ColKey::Mark => "",
            }),
    {
        match self {
            ColKey::No => "#",
            ColKey::Title => "Title",
            ColKey::Artist => "Artist",
            ColKey::Album => "Album",
            ColKey::Year => "Year",
            ColKey::Type => "Type",
            ColKey::Tracks => "Tracks",
            ColKey::Owner => "Owner",
            ColKey::Station => "Station",
            ColKey::Now => "Now Playing",
            ColKey::Tags => "Tags",
            ColKey::Where => "Where",
            ColKey::Stream => "Stream",
            ColKey::Name => "Name",
            ColKey::Stations => "Stations",
            ColKey::Code => "Code",
            ColKey::Saved => "Saved",
            ColKey::Ago => "Ago",
            // A row of marks and a column of times say what they are.
            ColKey::Time | ColKey::Actions | ColKey::Mark => "",
        }
    }
}

/// How a column claims its cells.
#[derive(Debug, Clone, Copy, PartialEq, Eq, Structural)]
pub enum Width {
    Fixed(usize),
    /// A share of what the fixed columns leave, by weight.
    Flex(u16),
    /// Fixed, but never narrower than the largest number the list prints in it.
    Grow(usize),
}

#[derive(Debug, Clone, Copy, PartialEq, Eq, Structural)]
pub enum Align {
    Left,
    Right,
}

/// One declared column.
#[derive(Debug, Clone, Copy)]
pub struct Column {
    pub key: ColKey,
    pub label: &'static str,
    pub width: Width,
    pub align: Align,
    /// Pane width under which the column is dropped; 0 is never.
    pub drop_below: usize,
    pub sortable: bool,
}

impl Column {
    #[verifier::allow_in_spec]
    pub fn new(key: ColKey, width: Width) -> Column
        returns
            (Column {
                key,
                label: key.head(),
                width,
                align: Align::Left,
                drop_below: 0,
                sortable: false,
            }),
    {
        Column {
            key,
            label: key.head(),
            width,
            align: Align::Left,
            drop_below: 0,
            sortable: false,
        }
    }

    #[verifier::allow_in_spec]
    pub fn labelled(self, label: &'static str) -> Column
        returns
            (Column {
                key: self.key,
                label,
                width: self.width,
                align: self.align,
                drop_below: self.drop_below,
                sortable: self.sortable,
            }),
    {
        Column {
            key: self.key,
            label,
            width: self.width,
            align: self.align,
            drop_below: self.drop_below,
            sortable: self.sortable,
        }
    }

    #[verifier::allow_in_spec]
    pub fn right(self) -> Column
        returns
            (Column {
                key: self.key,
                label: self.label,
                width: self.width,
                align: Align::Right,
                drop_below: self.drop_below,
                sortable: self.sortable,
            }),
    {
        Column {
            key: self.key,
            label: self.label,
            width: self.width,
            align: Align::Right,
            drop_below: self.drop_below,
            sortable: self.sortable,
        }
    }

    #[verifier::allow_in_spec]
    pub fn drop_below(self, width: usize) -> Column
        returns
            (Column {
                key: self.key,
                label: self.label,
                width: self.width,
                align: self.align,
                drop_below: width,
                sortable: self.sortable,
            }),
    {
        Column {
            key: self.key,
            label: self.label,
            width: self.width,
            align: self.align,
            drop_below: width,
            sortable: self.sortable,
        }
    }

    #[verifier::allow_in_spec]
    pub fn sortable(self) -> Column
        returns
            (Column {
                key: self.key,
                label: self.label,
                width: self.width,
                align: self.align,
                drop_below: self.drop_below,
                sortable: true,
            }),
    {
        Column {
            key: self.key,
            label: self.label,
            width: self.width,
            align: self.align,
            drop_below: self.drop_below,
            sortable: true,
        }
    }

    /// Whether a pane of `width` cells keeps the column.
    #[verifier::allow_in_spec]
    pub fn kept_at(self, width: usize) -> bool
        returns
            self.drop_below == 0 || width >= self.drop_below,
    {
        self.drop_below == 0 || width >= self.drop_below
    }

    /// The cells the column claims before the rest is shared out, given the
    /// digits of the largest number printed in it.
    #[verifier::allow_in_spec]
    pub fn claim(self, digits: usize) -> usize
        returns
            (match self.width {
                Width::Fixed(n) => n,
                Width::Grow(min) => max_usize(min, digits),
                Width::Flex(_) => 0usize,
            }),
    {
        match self.width {
            Width::Fixed(n) => n,
            Width::Grow(min) => max_usize(min, digits),
            Width::Flex(_) => 0usize,
        }
    }

    /// The weight a flexible column shares by.
    #[verifier::allow_in_spec]
    pub fn weight(self) -> u16
        returns
            (match self.width {
                Width::Flex(w) => w,
                _ => 0u16,
            }),
    {
        match self.width {
            Width::Flex(w) => w,
            _ => 0u16,
        }
    }
}

/// A column the pane was wide enough to keep, with the cells it holds.
#[derive(Debug, Clone, Copy)]
pub struct Cell {
    pub key: ColKey,
    pub label: &'static str,
    pub width: usize,
    pub align: Align,
    /// Cells from the row start.
    pub x: usize,
    pub sortable: bool,
}

/// The columns of one table at one pane width.
#[derive(Debug, Clone)]
pub struct Layout {
    pub cells: Vec<Cell>,
}

/// A count held to a machine word.
pub open spec fn word(n: nat) -> usize {
    if n <= usize::MAX {
        n as usize
    } else {
        usize::MAX
    }
}

/// The first `n` columns, those a pane of `width` cells keeps.
pub open spec fn kept_cols(cols: Seq<Column>, n: nat, width: usize) -> Seq<Column>
    decreases n,
{
    if n == 0 {
        Seq::empty()
    } else {
        let before = kept_cols(cols, (n - 1) as nat, width);
        if cols[n - 1].kept_at(width) {
            before.push(cols[n - 1])
        } else {
            before
        }
    }
}

/// Cells between a column and the one after it. The marker column runs straight
/// into its neighbour: it holds a glyph and a space.
#[verifier::allow_in_spec]
pub fn gap_after(key: ColKey) -> usize
    returns
        (if key == ColKey::Mark {
            0
        } else {
            COL_GAP_W
        }),
{
    if key == ColKey::Mark {
        0
    } else {
        COL_GAP_W
    }
}

/// The cells before column `i` that are a gap.
pub open spec fn gap_before(kept: Seq<Column>, i: int) -> usize {
    if i > 0 {
        gap_after(kept[i - 1].key)
    } else {
        0
    }
}

/// What the first `n` kept columns claim outright, gaps included.
pub open spec fn claimed(kept: Seq<Column>, n: nat, digits: usize) -> nat
    decreases n,
{
    if n == 0 {
        0
    } else {
        claimed(kept, (n - 1) as nat, digits) + kept[n - 1].claim(digits) as nat + gap_before(
            kept,
            n - 1,
        ) as nat
    }
}

/// The weight of the first `n` kept columns.
pub open spec fn weighed(kept: Seq<Column>, n: nat) -> nat
    decreases n,
{
    if n == 0 {
        0
    } else {
        weighed(kept, (n - 1) as nat) + kept[n - 1].weight() as nat
    }
}

/// The last flexible column of the first `n`.
pub open spec fn last_flex(kept: Seq<Column>, n: nat) -> Option<usize>
    decreases n,
{
    if n == 0 {
        None
    } else if kept[n - 1].width is Flex {
        Some((n - 1) as usize)
    } else {
        last_flex(kept, (n - 1) as nat)
    }
}

/// A table settled into a pane: the columns it keeps, and what there is to
/// share out among the flexible ones.
pub struct Plan {
    pub kept: Seq<Column>,
    pub digits: usize,
    pub leftover: usize,
    pub weight: usize,
    pub last: Option<usize>,
}

/// How `cols` settle into `width` cells, `grow` being the largest number the
/// list prints.
pub open spec fn plan(cols: Seq<Column>, width: usize, grow: usize) -> Plan {
    let kept = kept_cols(cols, cols.len(), width);
    let digits = word(decimal(grow as nat).len());
    Plan {
        kept,
        digits,
        leftover: width.saturating_sub(word(claimed(kept, kept.len(), digits))),
        weight: word(weighed(kept, kept.len())),
        last: last_flex(kept, kept.len()),
    }
}

impl Plan {
    /// The share of a column of weight `w`.
    pub open spec fn share(self, w: u16) -> nat {
        (self.leftover * w / (self.weight as int)) as nat
    }

    /// What the flexible columns before `n` have been given.
    pub open spec fn spent(self, n: nat) -> nat
        decreases n,
    {
        if n == 0 {
            0
        } else {
            let i = (n - 1) as nat;
            let before = self.spent(i);
            if self.shares(i as int) && self.last != Some(i as usize) {
                before + self.share(self.kept[i as int].weight())
            } else {
                before
            }
        }
    }

    /// Whether column `i` takes a share.
    pub open spec fn shares(self, i: int) -> bool {
        self.kept[i].width is Flex && self.weight > 0
    }

    /// The cells column `i` holds. The last flexible one takes the remainder,
    /// so rounding leaves no cell of the pane unclaimed.
    pub open spec fn cell_width(self, i: int) -> usize {
        if self.shares(i) {
            if self.last == Some(i as usize) {
                self.leftover.saturating_sub(word(self.spent(i as nat)))
            } else {
                word(self.share(self.kept[i].weight()))
            }
        } else {
            self.kept[i].claim(self.digits)
        }
    }

    /// Where column `i` starts.
    pub open spec fn start(self, i: nat) -> nat
        decreases i,
    {
        if i == 0 {
            0
        } else {
            self.start((i - 1) as nat) + self.cell_width(i - 1) as nat + gap_before(
                self.kept,
                i as int,
            ) as nat
        }
    }

    /// Column `i` as it is laid out.
    pub open spec fn cell(self, i: int) -> Cell {
        let c = self.kept[i];
        Cell {
            key: c.key,
            label: c.label,
            width: self.cell_width(i),
            align: c.align,
            x: word(self.start(i as nat)),
            sortable: c.sortable,
        }
    }

    /// Every column as it is laid out.
    pub open spec fn cells(self) -> Seq<Cell> {
        Seq::new(self.kept.len(), |i: int| self.cell(i))
    }
}

/// The first cell of `cells[i..]` with a key.
pub open spec fn cell_of(cells: Seq<Cell>, key: ColKey, i: int) -> Option<Cell>
    decreases cells.len() - i,
{
    if i < 0 || i >= cells.len() {
        None
    } else if cells[i].key == key {
        Some(cells[i])
    } else {
        cell_of(cells, key, i + 1)
    }
}

/// The cell a table shows a key in.
pub open spec fn shown(cells: Seq<Cell>, key: ColKey) -> Option<Cell> {
    cell_of(cells, key, 0)
}

/// The width a table shows a key at; 0 when it does not.
pub open spec fn shown_width(cells: Seq<Cell>, key: ColKey) -> usize {
    match shown(cells, key) {
        Some(c) => c.width,
        None => 0,
    }
}

/// The sortable keys of the first `n` cells.
pub open spec fn sort_keys_of(cells: Seq<Cell>, n: nat) -> Seq<ColKey>
    decreases n,
{
    if n == 0 {
        Seq::empty()
    } else {
        let before = sort_keys_of(cells, (n - 1) as nat);
        if cells[n - 1].sortable {
            before.push(cells[n - 1].key)
        } else {
            before
        }
    }
}

/// Every key a table can be sorted by is one it shows.
pub proof fn sort_keys_are_shown(cells: Seq<Cell>, n: nat)
    requires
        n <= cells.len(),
    ensures
        forall|k: int|
            0 <= k < sort_keys_of(cells, n).len() ==> shown(
                cells,
                #[trigger] sort_keys_of(cells, n)[k],
            ) is Some,
    decreases n,
{
    if n > 0 {
        sort_keys_are_shown(cells, (n - 1) as nat);
        lemma_shown(cells, n - 1, 0);
    }
}

proof fn lemma_shown(cells: Seq<Cell>, at: int, i: int)
    requires
        0 <= i <= at < cells.len(),
    ensures
        cell_of(cells, cells[at].key, i) is Some,
    decreases at - i,
{
    if i < at {
        lemma_shown(cells, at, i + 1);
    }
}

proof fn lemma_share_bound(p: Plan, n: nat)
    requires
        n <= p.kept.len(),
        p.weight == weighed(p.kept, p.kept.len()),
        p.weight > 0,
    ensures
        p.spent(n) * p.weight <= p.leftover * weighed(p.kept, n),
        weighed(p.kept, n) <= p.weight,
    decreases n,
{
    lemma_weighed_mono(p.kept, n, p.kept.len());
    if n == 0 {
        assert(0 * p.weight <= p.leftover * 0) by (nonlinear_arith);
    } else {
        let i = (n - 1) as nat;
        lemma_share_bound(p, i);
        let w = p.kept[i as int].weight();
        let s = p.share(w);
        assert(s * p.weight <= p.leftover * w) by (nonlinear_arith)
            requires
                s == p.leftover * w / (p.weight as int),
                p.weight > 0,
        ;
        assert((p.spent(i) + s) * p.weight == p.spent(i) * p.weight + s * p.weight)
            by (nonlinear_arith);
        assert(p.leftover * (weighed(p.kept, i) + w) == p.leftover * weighed(p.kept, i) + p.leftover
            * w) by (nonlinear_arith);
        assert(p.leftover * w >= 0) by (nonlinear_arith);
    }
}

proof fn lemma_weighed_mono(kept: Seq<Column>, a: nat, b: nat)
    requires
        a <= b,
    ensures
        weighed(kept, a) <= weighed(kept, b),
    decreases b,
{
    if a < b {
        lemma_weighed_mono(kept, a, (b - 1) as nat);
    }
}

/// What the flexible columns are given before the last of them is never more
/// than there is to share.
pub proof fn shares_never_overspend(p: Plan, n: nat)
    requires
        n <= p.kept.len(),
        p.weight == weighed(p.kept, p.kept.len()),
        p.weight > 0,
    ensures
        p.spent(n) <= p.leftover,
{
    lemma_share_bound(p, n);
    let s = p.spent(n);
    let total = weighed(p.kept, n);
    assert(p.leftover * total <= p.leftover * p.weight) by (nonlinear_arith)
        requires
            total <= p.weight,
    ;
    assert(s <= p.leftover) by (nonlinear_arith)
        requires
            s * p.weight <= p.leftover * p.weight,
            p.weight > 0,
    ;
}

/// What the first `n` columns hold between them, gaps before each included.
spec fn held(p: Plan, n: nat) -> nat
    decreases n,
{
    if n == 0 {
        0
    } else {
        held(p, (n - 1) as nat) + p.cell_width(n - 1) as nat + gap_before(p.kept, n - 1) as nat
    }
}

proof fn lemma_held_is_end(p: Plan, n: nat)
    requires
        0 < n,
    ensures
        held(p, n) == p.start((n - 1) as nat) + p.cell_width(n - 1),
    decreases n,
{
    reveal_with_fuel(held, 2);
    if n > 1 {
        lemma_held_is_end(p, (n - 1) as nat);
    }
}

proof fn lemma_last_flex(kept: Seq<Column>, n: nat)
    requires
        n <= usize::MAX,
    ensures
        last_flex(kept, n) matches Some(l) ==> l < n && kept[l as int].width is Flex,
        forall|i: int|
            0 <= i < n && (#[trigger] kept[i]).width is Flex ==> last_flex(kept, n) is Some && i
                <= last_flex(kept, n)->0,
    decreases n,
{
    if n > 0 {
        lemma_last_flex(kept, (n - 1) as nat);
    }
}

proof fn lemma_held(p: Plan, n: nat)
    requires
        n <= p.kept.len(),
        p.kept.len() <= usize::MAX,
        p.weight == weighed(p.kept, p.kept.len()),
        p.weight > 0,
        p.last == last_flex(p.kept, p.kept.len()),
        p.last is Some,
    ensures
        held(p, n) == claimed(p.kept, n, p.digits) + (if n <= p.last->0 {
            p.spent(n)
        } else {
            p.leftover as nat
        }),
    decreases n,
{
    lemma_last_flex(p.kept, p.kept.len());
    if n > 0 {
        let i = (n - 1) as nat;
        lemma_held(p, i);
        shares_never_overspend(p, i);
        shares_never_overspend(p, n);
        if p.shares(i as int) && p.last != Some(i as usize) {
            assert(p.share(p.kept[i as int].weight()) <= p.spent(n));
        }
        if i > p.last->0 {
            assert(!(p.kept[i as int].width is Flex));
        }
    }
}

/// A table with a column that flexes fills its pane exactly, wherever the
/// columns that do not flex leave it any room: its last cell ends where the
/// pane does.
pub proof fn a_flexible_table_fills_its_pane(cols: Seq<Column>, width: usize, grow: usize)
    requires
        ({
            let p = plan(cols, width, grow);
            &&& 0 < p.kept.len() <= usize::MAX
            &&& 0 < weighed(p.kept, p.kept.len()) <= usize::MAX
            &&& claimed(p.kept, p.kept.len(), p.digits) <= width
        }),
    ensures
        ({
            let p = plan(cols, width, grow);
            let end = p.kept.len() - 1;
            p.start(end as nat) + p.cell_width(end) == width
        }),
{
    let p = plan(cols, width, grow);
    lemma_has_flex(p.kept, p.kept.len());
    lemma_held(p, p.kept.len());
    lemma_last_flex(p.kept, p.kept.len());
    lemma_held_is_end(p, p.kept.len());
}

proof fn lemma_has_flex(kept: Seq<Column>, n: nat)
    requires
        weighed(kept, n) > 0,
    ensures
        last_flex(kept, n) is Some,
    decreases n,
{
    if n > 0 && !(kept[n - 1].width is Flex) {
        lemma_has_flex(kept, (n - 1) as nat);
    }
}

/// Each cell of a table starts where the one before it ended, past the gap
/// between the two.
pub proof fn cells_follow_one_another(cols: Seq<Column>, width: usize, grow: usize, i: int)
    requires
        0 <= i,
        i + 1 < plan(cols, width, grow).kept.len(),
        plan(cols, width, grow).start((i + 1) as nat) <= usize::MAX,
    ensures
        ({
            let cells = plan(cols, width, grow).cells();
            cells[i + 1].x == cells[i].x + cells[i].width + gap_after(cells[i].key)
        }),
{
}

/// A pane keeps a column exactly when it is wide enough for it.
pub proof fn a_narrow_pane_drops_columns(cols: Seq<Column>, n: nat, width: usize)
    requires
        n <= cols.len(),
    ensures
        forall|i: int|
            0 <= i < kept_cols(cols, n, width).len() ==> (#[trigger] kept_cols(
                cols,
                n,
                width,
            )[i]).kept_at(width) && cols.contains(kept_cols(cols, n, width)[i]),
        forall|j: int|
            0 <= j < n && (#[trigger] cols[j]).kept_at(width) ==> kept_cols(
                cols,
                n,
                width,
            ).contains(cols[j]),
    decreases n,
{
    if n > 0 {
        let k = (n - 1) as nat;
        a_narrow_pane_drops_columns(cols, k, width);
        let before = kept_cols(cols, k, width);
        let after = kept_cols(cols, n, width);
        assert forall|j: int| 0 <= j < n && (#[trigger] cols[j]).kept_at(width) implies after.contains(
            cols[j],
        ) by {
            if j == k {
                assert(after.last() == cols[j]);
            } else {
                let at = choose|a: int| 0 <= a < before.len() && before[a] == cols[j];
                assert(after[at] == cols[j]);
            }
        }
    }
}

/// The columns a pane of `width` cells keeps.
fn keep(cols: &Vec<Column>, width: usize) -> (kept: Vec<Column>)
    ensures
        kept@ == kept_cols(cols@, cols@.len(), width),
{
    let mut kept: Vec<Column> = Vec::new();
    let mut i: usize = 0;
    assert(kept@ =~= Seq::<Column>::empty());
    while i < cols.len()
        invariant
            i <= cols@.len(),
            kept@ == kept_cols(cols@, i as nat, width),
        decreases cols@.len() - i,
    {
        if cols[i].kept_at(width) {
            kept.push(cols[i]);
        }
        i = i + 1;
    }
    kept
}

impl Layout {
    /// Settle `cols` into a pane `width` cells wide. `grow` is the largest
    /// number the list prints in a growing column, which is what widens it.
    #[verifier::spinoff_prover]
    #[verifier::rlimit(60)]
    #[verifier::loop_isolation(false)]
    pub fn resolve(cols: &Vec<Column>, width: usize, grow: usize) -> (r: Layout)
        ensures
            r.cells@ == plan(cols@, width, grow).cells(),
    {
        let number = dec(grow as u64);
        let digits: usize = number.as_str().unicode_len();
        let kept = keep(cols, width);
        let n: usize = kept.len();
        let mut fixed: usize = 0;
        let mut weight: usize = 0;
        let mut last: Option<usize> = None;
        let mut i: usize = 0;
        while i < n
            invariant
                i <= n,
                fixed == word(claimed(kept@, i as nat, digits)),
                weight == word(weighed(kept@, i as nat)),
                last == last_flex(kept@, i as nat),
            decreases n - i,
        {
            fixed = fixed.saturating_add(kept[i].claim(digits));
            if i > 0 {
                fixed = fixed.saturating_add(gap_after(kept[i - 1].key));
            }
            weight = weight.saturating_add(kept[i].weight() as usize);
            if matches!(kept[i].width, Width::Flex(_)) {
                last = Some(i);
            }
            i = i + 1;
        }
        let leftover: usize = width.saturating_sub(fixed);
        let ghost p = plan(cols@, width, grow);
        assert(p == (Plan { kept: kept@, digits, leftover, weight, last }));
        let mut cells: Vec<Cell> = Vec::new();
        let mut spent: usize = 0;
        let mut x: usize = 0;
        let mut i: usize = 0;
        while i < n
            invariant
                i <= n,
                cells@.len() == i,
                forall|j: int| 0 <= j < i ==> #[trigger] cells@[j] == p.cell(j),
                spent == word(p.spent(i as nat)),
                i == 0 ==> x == 0,
                i > 0 ==> x == word(p.start((i - 1) as nat) + p.cell_width(i - 1) as nat),
            decreases n - i,
        {
            let c = kept[i];
            if i > 0 {
                x = x.saturating_add(gap_after(kept[i - 1].key));
            }
            assert(x == word(p.start(i as nat)));
            let flex: bool = matches!(c.width, Width::Flex(_)) && weight > 0;
            let is_last: bool = match last {
                Some(l) => l == i,
                None => false,
            };
            let cell_w: usize = if flex && is_last {
                leftover.saturating_sub(spent)
            } else if flex {
                let w: u16 = c.weight();
                proof {
                    lemma_weighed_mono(kept@, (i + 1) as nat, n as nat);
                    assert(w <= weight);
                    assert(leftover * w <= 0xFFFF_FFFF_FFFF_FFFF * 0xFFFF) by (nonlinear_arith)
                        requires
                            leftover <= 0xFFFF_FFFF_FFFF_FFFF,
                            w <= 0xFFFF,
                    ;
                    assert(leftover * w / (weight as int) <= leftover) by (nonlinear_arith)
                        requires
                            w <= weight,
                            weight > 0,
                    ;
                    assert(0 <= leftover * w / (weight as int)) by (nonlinear_arith)
                        requires
                            weight > 0,
                    ;
                }
                let share: u128 = leftover as u128 * w as u128 / weight as u128;
                spent = spent.saturating_add(share as usize);
                share as usize
            } else {
                c.claim(digits)
            };
            cells.push(
                Cell {
                    key: c.key,
                    label: c.label,
                    width: cell_w,
                    align: c.align,
                    x,
                    sortable: c.sortable,
                },
            );
            x = x.saturating_add(cell_w);
            i = i + 1;
        }
        assert(cells@ =~= p.cells());
        Layout { cells }
    }

    pub fn cells(&self) -> (r: &Vec<Cell>)
        ensures
            r@ == self.cells@,
    {
        &self.cells
    }

    /// The cell a key is shown in, where the pane was wide enough for it.
    pub fn cell(&self, key: ColKey) -> (r: Option<Cell>)
        ensures
            r == shown(self.cells@, key),
    {
        let mut i: usize = 0;
        while i < self.cells.len()
            invariant
                i <= self.cells@.len(),
                shown(self.cells@, key) == cell_of(self.cells@, key, i as int),
            decreases self.cells@.len() - i,
        {
            if self.cells[i].key == key {
                return Some(self.cells[i]);
            }
            i = i + 1;
        }
        None
    }

    /// Width of a column; 0 when the pane was too narrow to keep it.
    pub fn width_of(&self, key: ColKey) -> (w: usize)
        ensures
            w == shown_width(self.cells@, key),
    {
        match self.cell(key) {
            Some(c) => c.width,
            None => 0,
        }
    }

    /// The sortable columns this pane is showing.
    pub fn sort_keys(&self) -> (keys: Vec<ColKey>)
        ensures
            keys@ == sort_keys_of(self.cells@, self.cells@.len()),
    {
        let mut keys: Vec<ColKey> = Vec::new();
        let mut i: usize = 0;
        assert(keys@ =~= Seq::<ColKey>::empty());
        while i < self.cells.len()
            invariant
                i <= self.cells@.len(),
                keys@ == sort_keys_of(self.cells@, i as nat),
            decreases self.cells@.len() - i,
        {
            if self.cells[i].sortable {
                keys.push(self.cells[i].key);
            }
            i = i + 1;
        }
        keys
    }
}

/// A heading, with a mark on the column the list is ordered by. A column with
/// no heading still shows the mark.
pub open spec fn label_text(base: Seq<char>, key: ColKey, sort: Option<Sort>) -> Seq<char> {
    match sort {
        Some(s) => if s.key == key {
            let mark = if s.ascending {
                "▲"@
            } else {
                "▼"@
            };
            if base.len() == 0 {
                mark
            } else {
                base + " "@ + mark
            }
        } else {
            base
        },
        None => base,
    }
}

/// A heading, with a mark on the column the list is ordered by.
pub fn sort_label(base: &str, key: ColKey, sort: Option<Sort>) -> (r: String)
    ensures
        r@ == label_text(base@, key, sort),
{
    match sort {
        Some(s) => if s.key == key {
            let mark = if s.ascending { "▲" } else { "▼" };
            if base.unicode_len() == 0 {
                mark.to_owned()
            } else {
                let head = joined(base, " ");
                joined(head.as_str(), mark)
            }
        } else {
            base.to_owned()
        },
        None => base.to_owned(),
    }
}

/// `s` in exactly `w` cells, flush right.
pub open spec fn flush_right(s: Seq<char>, w: usize) -> Seq<char> {
    let ink = trimmed(fitted(s, w as nat));
    copies(' ', w.saturating_sub(width_of(ink)) as nat) + ink
}

/// `text` in exactly `w` cells, flush right.
pub fn right(text: &str, w: usize) -> (r: String)
    ensures
        r@ == flush_right(text@, w),
        cells(r@) == w,
{
    let ink = clipped(text, w);
    let mut r = blanks(w.saturating_sub(width(ink.as_str())));
    proof {
        lemma_cells_concat(r@, ink@);
    }
    r.append(ink.as_str());
    r
}

/// The heading a cell prints: its label, cut to the cell, without padding.
pub open spec fn heading(cell: Cell, sort: Option<Sort>) -> Seq<char> {
    trimmed(fitted(label_text(cell.label@, cell.key, sort), cell.width as nat))
}

/// A run of `n` blank cells.
pub open spec fn blank(n: usize) -> Run {
    run(copies(' ', n as nat), Style::plain())
}

/// A header with a gap after it, where cell `i` has one before it.
pub open spec fn header_gap(h: Strip, cells: Seq<Cell>, i: int) -> Strip {
    if i > 0 && cells[i - 1].key != ColKey::Mark {
        Strip {
            line: h.line.push(run(COL_GAP@, Style::plain())),
            x: h.x.saturating_add(3),
            canvas: h.canvas,
        }
    } else {
        h
    }
}

/// A header with padding after it, where there is any.
pub open spec fn header_pad(h: Strip, pad: usize) -> Strip {
    if pad > 0 {
        Strip {
            line: h.line.push(blank(pad)),
            x: h.x.saturating_add(low16(pad as int)),
            canvas: h.canvas,
        }
    } else {
        h
    }
}

/// A header with a sortable heading after it, and the heading recorded.
pub open spec fn header_control(
    h: Strip,
    key: ColKey,
    row: Rect,
    mouse: Option<Position>,
    part: Run,
) -> Strip {
    let parts = Seq::<Run>::empty().push(part);
    Strip {
        line: with_segment(h.line, h.x, row, mouse, parts),
        x: h.x.saturating_add(line_w(parts)),
        canvas: put_hit(h.canvas, segment_rect(h.x, row, parts), Target::Header(key)),
    }
}

/// A header with a cell after it. A sortable column that heads itself with
/// nothing takes its whole cell as the target.
pub open spec fn header_cell(
    h: Strip,
    cell: Cell,
    sort: Option<Sort>,
    row: Rect,
    mouse: Option<Position>,
) -> Strip {
    let text = heading(cell, sort);
    let pad = cell.width.saturating_sub(width_of(text));
    if cell.sortable && text.len() == 0 {
        header_control(h, cell.key, row, mouse, blank(cell.width))
    } else {
        let h = if cell.align == Align::Right {
            header_pad(h, pad)
        } else {
            h
        };
        let h = if cell.sortable {
            header_control(h, cell.key, row, mouse, run(text, theme::dim()))
        } else {
            Strip {
                line: h.line.push(run(text, theme::dim())),
                x: h.x.saturating_add(low16(width_of(text) as int)),
                canvas: h.canvas,
            }
        };
        if cell.align == Align::Left {
            header_pad(h, pad)
        } else {
            h
        }
    }
}

/// The header of the first `n` cells.
pub open spec fn headed(
    cells: Seq<Cell>,
    n: nat,
    sort: Option<Sort>,
    row: Rect,
    mouse: Option<Position>,
    c: Canvas,
) -> Strip
    decreases n,
{
    if n == 0 {
        Strip {
            line: Seq::empty(),
            x: row.x,
            canvas: c.push(OpView::SortKeys { keys: sort_keys_of(cells, cells.len()) }),
        }
    } else {
        let before = headed(cells, (n - 1) as nat, sort, row, mouse, c);
        header_cell(header_gap(before, cells, n - 1), cells[n - 1], sort, row, mouse)
    }
}

/// The rows under a header: past it and, where there is room, a blank.
#[verifier::allow_in_spec]
pub fn below_header(inner: Rect) -> Rect
    returns
        (if inner.height < 2 {
            inner
        } else if inner.height >= 3 {
            inner.band(2, (inner.height - 2) as u16)
        } else {
            inner.band(1, (inner.height - 1) as u16)
        }),
{
    if inner.height < 2 {
        inner
    } else if inner.height >= 3 {
        inner.band(2, inner.height - 2)
    } else {
        inner.band(1, inner.height - 1)
    }
}

/// The canvas with a table's header on it, where there is room for one.
pub open spec fn header_drawn(
    c: Canvas,
    cells: Seq<Cell>,
    inner: Rect,
    sort: Option<Sort>,
    mouse: Option<Position>,
) -> Canvas {
    if inner.height < 2 {
        c
    } else {
        let row = inner.tall(1);
        let h = headed(cells, cells.len(), sort, row, mouse, c);
        put_text(h.canvas, row, h.line)
    }
}

impl Layout {
    /// The header's spans, with where each sortable label answers recorded.
    ///
    /// `row` is the screen row the header lands on. Off screen every rect is
    /// clipped to nothing, so a label cannot be clicked where it is not drawn.
    pub fn header_line(
        &self,
        sort: Option<Sort>,
        row: Rect,
        mouse: Option<Position>,
        scene: &mut Scene,
    ) -> (line: Line)
        ensures
            ({
                let h = headed(self.cells@, self.cells@.len(), sort, row, mouse, old(scene)@);
                line@ == h.line && final(scene)@ == h.canvas
            }),
    {
        let ghost c = scene@;
        scene.put(Op::SortKeys { keys: self.sort_keys() });
        let mut line = Line::empty();
        let mut x: u16 = row.x;
        let mut i: usize = 0;
        while i < self.cells.len()
            invariant
                i <= self.cells@.len(),
                (Strip { line: line@, x, canvas: scene@ }) == headed(
                    self.cells@,
                    i as nat,
                    sort,
                    row,
                    mouse,
                    c,
                ),
            decreases self.cells@.len() - i,
        {
            let cell = self.cells[i];
            if i > 0 && self.cells[i - 1].key != ColKey::Mark {
                line.print(COL_GAP, Style::plain());
                x = x.saturating_add(3);
            }
            let label = sort_label(cell.label, cell.key, sort);
            let text = clipped(label.as_str(), cell.width);
            let text_w: usize = width(text.as_str());
            let pad: usize = cell.width.saturating_sub(text_w);
            if cell.sortable && text.as_str().unicode_len() == 0 {
                let part = Line::of(repeated(' ', cell.width), Style::plain());
                let rect = segment(&mut line, &mut x, row, mouse, part);
                scene.hit(rect, Target::Header(cell.key));
            } else {
                if cell.align == Align::Right && pad > 0 {
                    line.put(repeated(' ', pad), Style::plain());
                    x = x.saturating_add(low_half(pad));
                }
                if cell.sortable {
                    let part = Line::of(text, theme::dim());
                    let rect = segment(&mut line, &mut x, row, mouse, part);
                    scene.hit(rect, Target::Header(cell.key));
                } else {
                    line.put(text, theme::dim());
                    x = x.saturating_add(low_half(text_w));
                }
                if cell.align == Align::Left && pad > 0 {
                    line.put(repeated(' ', pad), Style::plain());
                    x = x.saturating_add(low_half(pad));
                }
            }
            i = i + 1;
        }
        line
    }

    /// Draw the header and the blank under it, and return the rows below them.
    ///
    /// The blank goes in only where there is room: on a two-row pane a header
    /// and one row beat a header and a blank.
    pub fn draw_header(
        &self,
        scene: &mut Scene,
        inner: Rect,
        sort: Option<Sort>,
        mouse: Option<Position>,
    ) -> (r: Rect)
        ensures
            final(scene)@ == header_drawn(old(scene)@, self.cells@, inner, sort, mouse),
            r == below_header(inner),
    {
        if inner.height < 2 {
            return inner;
        }
        let row = inner.tall(1);
        let line = self.header_line(sort, row, mouse, scene);
        scene.text(row, line);
        below_header(inner)
    }
}

/// Whether a column holds text: neither the marker nor the run of controls.
pub open spec fn text_column(key: ColKey) -> bool {
    key != ColKey::Mark && key != ColKey::Actions
}

/// A row's contents, a cell at a time. Whatever a row says in a column of text,
/// it prints exactly the column's cells, so the columns after it line up from
/// row to row.
pub trait RowCells {
    /// What the row prints in a cell.
    spec fn runs(&self, cell: Cell) -> Seq<Run>;

    /// What the gaps between its cells are painted with.
    spec fn gap(&self) -> Style;

    fn put(&self, cell: &Cell, line: &mut Line)
        ensures
            final(line)@ == old(line)@ + self.runs(*cell),
            text_column(cell.key) ==> cells(printed(self.runs(*cell))) == cell.width,
    ;

    fn gap_style(&self) -> (s: Style)
        ensures
            s == self.gap(),
    ;
}

/// The first `n` cells of a row, a gap between those that have one.
pub open spec fn row_upto<R: RowCells>(row: R, cells: Seq<Cell>, n: nat) -> Seq<Run>
    decreases n,
{
    if n == 0 {
        Seq::empty()
    } else {
        let before = row_upto(row, cells, (n - 1) as nat);
        let spaced = if n > 1 && cells[n - 2].key != ColKey::Mark {
            before.push(run(COL_GAP@, row.gap()))
        } else {
            before
        };
        spaced + row.runs(cells[n - 1])
    }
}

/// A row through a table's cells.
pub open spec fn row_line<R: RowCells>(row: R, cells: Seq<Cell>) -> Seq<Run> {
    row_upto(row, cells, cells.len())
}

/// Build a row through `layout`: `row` fills each kept column, and the gap
/// between them is put in here.
///
/// A row and its header walk the same cells in the same order, which is what
/// stops the two coming to disagree about where a column starts.
pub fn row_spans<R: RowCells>(layout: &Layout, row: &R) -> (line: Line)
    ensures
        line@ == row_line(*row, layout.cells@),
        forall|k: int|
            0 <= k < layout.cells@.len() && text_column((#[trigger] layout.cells@[k]).key)
                ==> cells(printed(row.runs(layout.cells@[k]))) == layout.cells@[k].width,
{
    let mut line = Line::empty();
    let mut i: usize = 0;
    while i < layout.cells.len()
        invariant
            i <= layout.cells@.len(),
            line@ == row_upto(*row, layout.cells@, i as nat),
            forall|k: int|
                0 <= k < i && text_column((#[trigger] layout.cells@[k]).key) ==> cells(
                    printed(row.runs(layout.cells@[k])),
                ) == layout.cells@[k].width,
        decreases layout.cells@.len() - i,
    {
        if i > 0 && layout.cells[i - 1].key != ColKey::Mark {
            line.print(COL_GAP, row.gap_style());
        }
        row.put(&layout.cells[i], &mut line);
        i = i + 1;
    }
    line
}

/// The columns of a track list.
pub open spec fn track_columns(album: bool) -> Seq<Column> {
    let head = Seq::empty().push(Column::new(ColKey::Mark, Width::Fixed(PREFIX_W))).push(
        Column::new(ColKey::No, Width::Grow(NO_W)).right().drop_below(40).sortable(),
    ).push(Column::new(ColKey::Title, Width::Flex(4)).sortable()).push(
        Column::new(ColKey::Artist, Width::Flex(3)).sortable(),
    );
    let named = if album {
        head
    } else {
        head.push(Column::new(ColKey::Album, Width::Flex(3)).drop_below(50).sortable())
    };
    named.push(Column::new(ColKey::Year, Width::Fixed(YEAR_W)).drop_below(70).sortable()).push(
        Column::new(ColKey::Actions, Width::Fixed(ACTIONS_W)).drop_below(ACTIONS_MIN),
    ).push(Column::new(ColKey::Time, Width::Fixed(DUR_W)).right().sortable())
}

/// Track lists, artist top tracks, and the Tracks tab of a search.
///
/// Narrow panes drop the year first, then the album, then the track number; the
/// controls outlive all three. An album page has no Album column at any width.
pub fn tracks(album: bool) -> (cols: Vec<Column>)
    ensures
        cols@ == track_columns(album),
{
    let mut cols: Vec<Column> = Vec::new();
    assert(cols@ =~= Seq::<Column>::empty());
    cols.push(Column::new(ColKey::Mark, Width::Fixed(PREFIX_W)));
    cols.push(Column::new(ColKey::No, Width::Grow(NO_W)).right().drop_below(40).sortable());
    cols.push(Column::new(ColKey::Title, Width::Flex(4)).sortable());
    cols.push(Column::new(ColKey::Artist, Width::Flex(3)).sortable());
    if !album {
        cols.push(Column::new(ColKey::Album, Width::Flex(3)).drop_below(50).sortable());
    }
    cols.push(Column::new(ColKey::Year, Width::Fixed(YEAR_W)).drop_below(70).sortable());
    cols.push(Column::new(ColKey::Actions, Width::Fixed(ACTIONS_W)).drop_below(ACTIONS_MIN));
    cols.push(Column::new(ColKey::Time, Width::Fixed(DUR_W)).right().sortable());
    cols
}

/// The columns of a list of albums.
pub open spec fn album_columns() -> Seq<Column> {
    Seq::empty().push(Column::new(ColKey::Mark, Width::Fixed(PREFIX_W))).push(
        Column::new(ColKey::Album, Width::Flex(1)).sortable(),
    ).push(Column::new(ColKey::Artist, Width::Flex(1)).sortable()).push(
        Column::new(ColKey::Year, Width::Fixed(YEAR_W)).drop_below(55).sortable(),
    ).push(Column::new(ColKey::Type, Width::Fixed(TYPE_W)).drop_below(55).sortable()).push(
        Column::new(ColKey::Tracks, Width::Fixed(COUNT_W)).right().drop_below(70).sortable(),
    )
}

/// The Albums tab of a search.
pub fn albums() -> (cols: Vec<Column>)
    ensures
        cols@ == album_columns(),
{
    let mut cols: Vec<Column> = Vec::new();
    assert(cols@ =~= Seq::<Column>::empty());
    cols.push(Column::new(ColKey::Mark, Width::Fixed(PREFIX_W)));
    cols.push(Column::new(ColKey::Album, Width::Flex(1)).sortable());
    cols.push(Column::new(ColKey::Artist, Width::Flex(1)).sortable());
    cols.push(Column::new(ColKey::Year, Width::Fixed(YEAR_W)).drop_below(55).sortable());
    cols.push(Column::new(ColKey::Type, Width::Fixed(TYPE_W)).drop_below(55).sortable());
    cols.push(Column::new(ColKey::Tracks, Width::Fixed(COUNT_W)).right().drop_below(70).sortable());
    cols
}

/// The columns of a list of playlists.
pub open spec fn playlist_columns() -> Seq<Column> {
    Seq::empty().push(Column::new(ColKey::Mark, Width::Fixed(PREFIX_W))).push(
        Column::new(ColKey::Title, Width::Flex(6)).sortable(),
    ).push(Column::new(ColKey::Owner, Width::Flex(4)).sortable()).push(
        Column::new(ColKey::Tracks, Width::Fixed(COUNT_W)).right().sortable(),
    )
}

/// The Playlists page, and the Playlists tab of a search.
pub fn playlists() -> (cols: Vec<Column>)
    ensures
        cols@ == playlist_columns(),
{
    let mut cols: Vec<Column> = Vec::new();
    assert(cols@ =~= Seq::<Column>::empty());
    cols.push(Column::new(ColKey::Mark, Width::Fixed(PREFIX_W)));
    cols.push(Column::new(ColKey::Title, Width::Flex(6)).sortable());
    cols.push(Column::new(ColKey::Owner, Width::Flex(4)).sortable());
    cols.push(Column::new(ColKey::Tracks, Width::Fixed(COUNT_W)).right().sortable());
    cols
}

/// The columns of a list of artists.
pub open spec fn artist_columns() -> Seq<Column> {
    Seq::empty().push(Column::new(ColKey::Mark, Width::Fixed(PREFIX_W))).push(
        Column::new(ColKey::Artist, Width::Flex(1)).sortable(),
    )
}

/// The Artists tab of a search.
pub fn artists() -> (cols: Vec<Column>)
    ensures
        cols@ == artist_columns(),
{
    let mut cols: Vec<Column> = Vec::new();
    assert(cols@ =~= Seq::<Column>::empty());
    cols.push(Column::new(ColKey::Mark, Width::Fixed(PREFIX_W)));
    cols.push(Column::new(ColKey::Artist, Width::Flex(1)).sortable());
    cols
}

/// The columns of a list of stations.
pub open spec fn station_columns(now: bool) -> Seq<Column> {
    let head = Seq::empty().push(Column::new(ColKey::Mark, Width::Fixed(PREFIX_W))).push(
        Column::new(ColKey::Station, Width::Flex(5)).sortable(),
    );
    let named = if now {
        head.push(Column::new(ColKey::Now, Width::Flex(6)).drop_below(60))
    } else {
        head
    };
    let tags_min = if now {
        100usize
    } else {
        65usize
    };
    named.push(Column::new(ColKey::Tags, Width::Flex(5)).drop_below(tags_min).sortable()).push(
        Column::new(ColKey::Where, Width::Fixed(WHERE_W)).sortable(),
    ).push(Column::new(ColKey::Saved, Width::Fixed(SAVED_W))).push(
        Column::new(ColKey::Stream, Width::Fixed(QUALITY_W)).right().sortable(),
    )
}

/// Radio pages and the Stations tab of a search. Tags are the first thing
/// dropped, and `now` adds what each station is announcing.
pub fn stations(now: bool) -> (cols: Vec<Column>)
    ensures
        cols@ == station_columns(now),
{
    let mut cols: Vec<Column> = Vec::new();
    assert(cols@ =~= Seq::<Column>::empty());
    cols.push(Column::new(ColKey::Mark, Width::Fixed(PREFIX_W)));
    cols.push(Column::new(ColKey::Station, Width::Flex(5)).sortable());
    if now {
        cols.push(Column::new(ColKey::Now, Width::Flex(6)).drop_below(60));
    }
    let tags_min: usize = if now { 100 } else { 65 };
    cols.push(Column::new(ColKey::Tags, Width::Flex(5)).drop_below(tags_min).sortable());
    cols.push(Column::new(ColKey::Where, Width::Fixed(WHERE_W)).sortable());
    cols.push(Column::new(ColKey::Saved, Width::Fixed(SAVED_W)));
    cols.push(Column::new(ColKey::Stream, Width::Fixed(QUALITY_W)).right().sortable());
    cols
}

/// The columns of a list of countries or genres.
pub open spec fn facet_columns(label: &'static str, code: bool) -> Seq<Column> {
    let head = Seq::empty().push(Column::new(ColKey::Mark, Width::Fixed(PREFIX_W)));
    let coded = if code {
        head.push(Column::new(ColKey::Code, Width::Fixed(FACET_CODE_W)).sortable())
    } else {
        head
    };
    coded.push(Column::new(ColKey::Name, Width::Flex(1)).labelled(label).sortable()).push(
        Column::new(ColKey::Stations, Width::Fixed(FACET_COUNT_W)).right().sortable(),
    )
}

/// The Countries and Genres pages of the radio directory. `label` heads the
/// names, and `code` adds the code a country is queried by.
pub fn facets(label: &'static str, code: bool) -> (cols: Vec<Column>)
    ensures
        cols@ == facet_columns(label, code),
{
    let mut cols: Vec<Column> = Vec::new();
    assert(cols@ =~= Seq::<Column>::empty());
    cols.push(Column::new(ColKey::Mark, Width::Fixed(PREFIX_W)));
    if code {
        cols.push(Column::new(ColKey::Code, Width::Fixed(FACET_CODE_W)).sortable());
    }
    cols.push(Column::new(ColKey::Name, Width::Flex(1)).labelled(label).sortable());
    cols.push(Column::new(ColKey::Stations, Width::Fixed(FACET_COUNT_W)).right().sortable());
    cols
}

/// The digits of a queue's last row, two at least.
pub open spec fn queue_digits(len: usize) -> usize {
    max_usize(word(decimal(len as nat).len()), 2)
}

/// The columns of the queue.
pub open spec fn queue_columns(len: usize) -> Seq<Column> {
    Seq::empty().push(Column::new(ColKey::Mark, Width::Fixed(PREFIX_W))).push(
        Column::new(ColKey::No, Width::Grow(2)).right(),
    ).push(Column::new(ColKey::Title, Width::Flex(60))).push(
        Column::new(ColKey::Artist, Width::Flex(40)).drop_below(
            queue_digits(len).saturating_add(40),
        ),
    ).push(Column::new(ColKey::Actions, Width::Fixed(ACTIONS_W)).drop_below(ACTIONS_MIN)).push(
        Column::new(ColKey::Time, Width::Fixed(DUR_W)).right(),
    )
}

/// The queue in the player view. Nothing here is sortable: row `i` plays at
/// position `i`.
pub fn queue(len: usize) -> (cols: Vec<Column>)
    ensures
        cols@ == queue_columns(len),
{
    let number = dec(len as u64);
    let num: usize = max_usize(number.as_str().unicode_len(), 2);
    let mut cols: Vec<Column> = Vec::new();
    assert(cols@ =~= Seq::<Column>::empty());
    cols.push(Column::new(ColKey::Mark, Width::Fixed(PREFIX_W)));
    cols.push(Column::new(ColKey::No, Width::Grow(2)).right());
    cols.push(Column::new(ColKey::Title, Width::Flex(60)));
    cols.push(
        Column::new(ColKey::Artist, Width::Flex(40)).drop_below(num.saturating_add(40)),
    );
    cols.push(Column::new(ColKey::Actions, Width::Fixed(ACTIONS_W)).drop_below(ACTIONS_MIN));
    cols.push(Column::new(ColKey::Time, Width::Fixed(DUR_W)).right());
    cols
}

/// The columns of a station's own list: the queue's, and when each was heard.
pub open spec fn heard_columns(len: usize) -> Seq<Column> {
    queue_columns(len).push(Column::new(ColKey::Ago, Width::Fixed(AGO_W)).right().drop_below(AGO_MIN))
}

/// A station's own list in the player view: what it has played, oldest first.
/// Its extra column is the first thing a narrow pane gives up.
pub fn heard(len: usize) -> (cols: Vec<Column>)
    ensures
        cols@ == heard_columns(len),
{
    let mut cols = queue(len);
    cols.push(Column::new(ColKey::Ago, Width::Fixed(AGO_W)).right().drop_below(AGO_MIN));
    cols
}

/// No column of the queue, and none of a station's own list, sorts.
pub proof fn a_queue_never_sorts(len: usize)
    ensures
        forall|i: int|
            0 <= i < heard_columns(len).len() ==> !(#[trigger] heard_columns(len)[i]).sortable,
        forall|i: int|
            0 <= i < queue_columns(len).len() ==> !(#[trigger] queue_columns(len)[i]).sortable,
{
}

/// Wherever a station's own list shows the artist column, a pane too narrow for
/// the reading of when each was heard has dropped that reading first.
pub proof fn a_reading_goes_before_a_name(len: usize, width: usize)
    ensures
        heard_columns(len)[6].kept_at(width) ==> heard_columns(len)[3].kept_at(width),
        heard_columns(len)[6].key == ColKey::Ago,
        heard_columns(len)[3].key == ColKey::Artist,
{
    reveal_with_fuel(decimal, 21);
}

/// A text set flush right ends where its cell ends, with spaces before it: it is
/// all there where it fits, and the cell is filled either way.
pub proof fn flush_right_ends_with_the_text(s: Seq<char>, w: usize)
    ensures
        ({
            let r = flush_right(s, w);
            let ink = trimmed(fitted(s, w as nat));
            let n = r.len() - ink.len();
            &&& cells(r) == w
            &&& 0 <= n
            &&& r.skip(n) == ink
            &&& forall|i: int| 0 <= i < n ==> #[trigger] r[i] == ' '
        }),
        w > 0 && cells(s) <= w && (s.len() > 0 ==> !white_space(s.last())) ==> trimmed(
            fitted(s, w as nat),
        ) == s,
{
    lemma_blank_cells();
    let ink = trimmed(fitted(s, w as nat));
    lemma_fitted_cells(s, w as nat);
    lemma_trimmed_cells(fitted(s, w as nat));
    let pad = w.saturating_sub(width_of(ink)) as nat;
    let r = flush_right(s, w);
    assert(copies(' ', pad) =~= spaces(pad));
    lemma_cells_spaces(pad);
    lemma_cells_concat(spaces(pad), ink);
    assert(r.skip(r.len() - ink.len()) =~= ink);
    if w > 0 && cells(s) <= w && (s.len() > 0 ==> !white_space(s.last())) {
        lemma_trims_to(s, (w - cells(s)) as nat);
    }
}

proof fn lemma_trims_to(s: Seq<char>, n: nat)
    requires
        s.len() > 0 ==> !white_space(s.last()),
    ensures
        trimmed(s + spaces(n)) == s,
    decreases n,
{
    let t = s + spaces(n);
    if n == 0 {
        assert(t =~= s);
    } else {
        assert(t.drop_last() =~= s + spaces((n - 1) as nat));
        lemma_trims_to(s, (n - 1) as nat);
    }
}

/// The heading a table is sorted by says so, and which way: an arrow up for a
/// rising order and one down for a falling one. No other heading is marked.
pub proof fn the_arrow_is_on_the_sorted_column(base: Seq<char>, key: ColKey, sort: Option<Sort>)
    ensures
        ({
            let t = label_text(base, key, sort);
            &&& (sort matches Some(s) && s.key == key && s.ascending) ==> t.last() == '▲'
            &&& (sort matches Some(s) && s.key == key && !s.ascending) ==> t.last() == '▼'
            &&& (sort matches Some(s) && s.key == key) ==> t.len() > base.len() && t.take(
                base.len() as int,
            ) == base
            &&& !(sort matches Some(s) && s.key == key) ==> t == base
        }),
{
    reveal_strlit("▲");
    reveal_strlit("▼");
    reveal_strlit(" ");
    let t = label_text(base, key, sort);
    if t.len() > base.len() {
        assert(t.take(base.len() as int) =~= base);
    }
}

/// A row prints its columns in their order, and three spaces between two of
/// them but none behind the mark.
pub proof fn a_row_prints_its_columns_in_order<R: RowCells>(row: R, cells: Seq<Cell>, n: nat)
    requires
        n < cells.len(),
    ensures
        printed(row_upto(row, cells, 0)) == Seq::<char>::empty(),
        printed(row_upto(row, cells, n + 1)) == printed(row_upto(row, cells, n)) + (if n > 0
            && cells[n - 1].key != ColKey::Mark {
            seq![' ', ' ', ' ']
        } else {
            Seq::empty()
        }) + printed(row.runs(cells[n as int])),
{
    reveal_strlit("   ");
    assert(COL_GAP@ =~= seq![' ', ' ', ' ']);
    let before = row_upto(row, cells, n);
    let gapped = n > 0 && cells[n - 1].key != ColKey::Mark;
    let spaced = if gapped {
        before.push(run(COL_GAP@, row.gap()))
    } else {
        before
    };
    if gapped {
        assert(spaced.drop_last() =~= before);
    }
    lemma_prints_both(spaced, row.runs(cells[n as int]));
    assert(printed(before) + Seq::<char>::empty() =~= printed(before));
}

/// The columns of each table, in the order they are shown, and which of them an
/// album page leaves out.
#[verifier::rlimit(60)]
pub proof fn tables_show_their_columns_in_order(
    i: int,
    album: bool,
    now: bool,
    label: &'static str,
    code: bool,
    len: usize,
)
    ensures
        ({
            let t = track_columns(album);
            let k = |j: int| t[j].key;
            &&& t.len() == if album {
                7int
            } else {
                8
            }
            &&& k(0) == ColKey::Mark
            &&& k(1) == ColKey::No
            &&& k(2) == ColKey::Title
            &&& k(3) == ColKey::Artist
            &&& !album ==> k(4) == ColKey::Album
            &&& k(t.len() - 3) == ColKey::Year
            &&& k(t.len() - 2) == ColKey::Actions
            &&& k(t.len() - 1) == ColKey::Time
        }),
        ({
            let a = album_columns();
            &&& a.len() == 6
            &&& a[0].key == ColKey::Mark
            &&& a[1].key == ColKey::Album
            &&& a[2].key == ColKey::Artist
            &&& a[3].key == ColKey::Year
            &&& a[4].key == ColKey::Type
            &&& a[5].key == ColKey::Tracks
        }),
        ({
            let p = playlist_columns();
            &&& p.len() == 4
            &&& p[1].key == ColKey::Title
            &&& p[2].key == ColKey::Owner
            &&& p[3].key == ColKey::Tracks
        }),
        ({
            let s = station_columns(now);
            &&& s[1].key == ColKey::Station
            &&& now ==> s[2].key == ColKey::Now
            &&& s[s.len() - 4].key == ColKey::Tags
            &&& s[s.len() - 3].key == ColKey::Where
            &&& s[s.len() - 2].key == ColKey::Saved
            &&& s[s.len() - 1].key == ColKey::Stream
        }),
        ({
            let f = facet_columns(label, code);
            &&& code ==> f[1].key == ColKey::Code
            &&& f[f.len() - 2].key == ColKey::Name && f[f.len() - 2].label == label
            &&& f[f.len() - 1].key == ColKey::Stations
        }),
        0 <= i < track_columns(album).len() ==> (track_columns(album)[i].sortable
            <==> track_columns(album)[i].key != ColKey::Mark && track_columns(album)[i].key
            != ColKey::Actions),
        0 <= i < album_columns().len() ==> (album_columns()[i].sortable <==> album_columns()[i].key
            != ColKey::Mark),
        0 <= i < playlist_columns().len() ==> (playlist_columns()[i].sortable
            <==> playlist_columns()[i].key != ColKey::Mark),
        0 <= i < station_columns(now).len() ==> (station_columns(now)[i].sortable
            <==> station_columns(now)[i].key != ColKey::Mark && station_columns(now)[i].key
            != ColKey::Now && station_columns(now)[i].key != ColKey::Saved),
{
}

/// Every heading that says something says something else.
#[verifier::rlimit(60)]
pub proof fn headings_are_told_apart(a: ColKey, b: ColKey)
    ensures
        a != b && a.head()@ == b.head()@ ==> a.head()@.len() == 0,
{
    reveal_strlit("#");
    reveal_strlit("Title");
    reveal_strlit("Artist");
    reveal_strlit("Album");
    reveal_strlit("Year");
    reveal_strlit("Type");
    reveal_strlit("Tracks");
    reveal_strlit("Owner");
    reveal_strlit("Station");
    reveal_strlit("Now Playing");
    reveal_strlit("Tags");
    reveal_strlit("Where");
    reveal_strlit("Stream");
    reveal_strlit("Name");
    reveal_strlit("Stations");
    reveal_strlit("Code");
    reveal_strlit("Saved");
    reveal_strlit("Ago");
    reveal_strlit("");
    let (x, y) = (a.head()@, b.head()@);
    assert(x.len() != y.len() || x.len() == 0 || x[0] != y[0] || x[1] != y[1] || x[2] != y[2] || a
        == b);
}

/// A heading is printed over its column: behind the headings before it and the
/// gap, its label flush with the side its column is, and filled to the column.
#[verifier::spinoff_prover]
#[verifier::rlimit(60)]
pub proof fn headings_are_printed_over_their_columns(
    cells: Seq<Cell>,
    n: nat,
    sort: Option<Sort>,
    row: Rect,
    mouse: Option<Position>,
    c: Canvas,
)
    requires
        n < cells.len(),
    ensures
        ({
            let cell = cells[n as int];
            let text = heading(cell, sort);
            let pad = cell.width.saturating_sub(width_of(text)) as nat;
            let before = printed(headed(cells, n, sort, row, mouse, c).line);
            let gap = if n > 0 && cells[n - 1].key != ColKey::Mark {
                spaces(3)
            } else {
                Seq::empty()
            };
            let h = headed(cells, n + 1, sort, row, mouse, c);
            &&& cell.align == Align::Left && text.len() > 0 ==> printed(h.line) == before + gap + text
                + spaces(pad)
            &&& cell.align == Align::Right && text.len() > 0 ==> printed(h.line) == before + gap
                + spaces(pad) + text
            &&& text.len() == 0 ==> printed(h.line) == before + gap + spaces(cell.width as nat)
            &&& cell.sortable ==> (h.canvas.last() matches OpView::Hit { area, target } && target
                == Target::Header(cell.key))
            &&& !cell.sortable ==> h.canvas == headed(cells, n, sort, row, mouse, c).canvas
        }),
{
    reveal_strlit("   ");
    let none = Seq::<char>::empty();
    let cell = cells[n as int];
    let text = heading(cell, sort);
    let pad = cell.width.saturating_sub(width_of(text));
    let h0 = headed(cells, n, sort, row, mouse, c);
    let h1 = header_gap(h0, cells, n as int);
    let gap = if n > 0 && cells[n - 1].key != ColKey::Mark {
        spaces(3)
    } else {
        none
    };
    assert(COL_GAP@ =~= spaces(3));
    if n > 0 && cells[n - 1].key != ColKey::Mark {
        assert(h1.line.drop_last() =~= h0.line);
    }
    assert(printed(h1.line) =~= printed(h0.line) + gap);
    assert(copies(' ', pad as nat) =~= spaces(pad as nat));
    assert(copies(' ', cell.width as nat) =~= spaces(cell.width as nat));
    lemma_control_printed(h1, cell.key, row, mouse, blank(cell.width));
    let h2 = if cell.align == Align::Right {
        header_pad(h1, pad)
    } else {
        h1
    };
    lemma_pad_printed(h1, pad);
    lemma_control_printed(h2, cell.key, row, mouse, run(text, theme::dim()));
    let plain = h2.line.push(run(text, theme::dim()));
    assert(plain.drop_last() =~= h2.line);
    let h3 = if cell.sortable {
        header_control(h2, cell.key, row, mouse, run(text, theme::dim()))
    } else {
        Strip {
            line: plain,
            x: h2.x.saturating_add(low16(width_of(text) as int)),
            canvas: h2.canvas,
        }
    };
    assert(printed(h3.line) == printed(h2.line) + text);
    lemma_pad_printed(h3, pad);
    let h = headed(cells, n + 1, sort, row, mouse, c);
    let before = printed(h0.line);
    if text.len() == 0 {
        assert(text =~= none);
        assert(width_of(text) == 0);
        assert(printed(h.line) =~= before + gap + spaces(cell.width as nat));
    } else if cell.align == Align::Left {
        assert(printed(h.line) =~= before + gap + text + spaces(pad as nat));
    } else {
        assert(printed(h.line) =~= before + gap + spaces(pad as nat) + text);
    }
}

proof fn lemma_pad_printed(h: Strip, pad: usize)
    ensures
        printed(header_pad(h, pad).line) == printed(h.line) + spaces(pad as nat),
        header_pad(h, pad).canvas == h.canvas,
{
    assert(copies(' ', pad as nat) =~= spaces(pad as nat));
    if pad > 0 {
        assert(header_pad(h, pad).line.drop_last() =~= h.line);
    } else {
        assert(printed(h.line) + spaces(0) =~= printed(h.line));
    }
}

proof fn lemma_control_printed(
    h: Strip,
    key: ColKey,
    row: Rect,
    mouse: Option<Position>,
    part: Run,
)
    ensures
        printed(header_control(h, key, row, mouse, part).line) == printed(h.line) + part.text,
{
    let parts = Seq::<Run>::empty().push(part);
    lemma_prints_alone(parts);
    light_changes_no_text(h.line, h.x, row, mouse, parts, Seq::empty(), part.style, false);
}

/// A table can be sorted by every column of it that sorts, in order, and by no
/// other.
pub proof fn every_sorting_column_is_a_key(cells: Seq<Cell>, n: nat)
    requires
        n < cells.len(),
    ensures
        sort_keys_of(cells, 0).len() == 0,
        cells[n as int].sortable ==> sort_keys_of(cells, n + 1) == sort_keys_of(cells, n).push(
            cells[n as int].key,
        ),
        !cells[n as int].sortable ==> sort_keys_of(cells, n + 1) == sort_keys_of(cells, n),
{
}

/// A column is dropped below the width it asks for and at no other.
pub proof fn a_column_is_kept_at_its_width(c: Column, width: usize)
    ensures
        c.kept_at(width) <==> c.drop_below == 0 || width >= c.drop_below,
        Column::new(c.key, c.width).label@ == c.key.head()@,
        c.right().align == Align::Right && c.sortable().sortable && c.drop_below(width).drop_below
            == width && c.labelled(c.label).label == c.label,
{
}

/// The rows of a table are under its header, a blank row between the two where
/// there are three, and all the rest of the pane; its scrollbar is beside them, a
/// cell apart.
pub proof fn rows_are_under_their_header(inner: Rect)
    requires
        inner.x + inner.width < u16::MAX,
        inner.y + inner.height <= u16::MAX,
    ensures
        ({
            let r = below_header(inner);
            &&& r.y + r.height == inner.y + inner.height
            &&& inner.height >= 3 ==> r.y == inner.y + 2
            &&& inner.height == 2 ==> r.y == inner.y + 1
            &&& inner.height < 2 ==> r == inner
            &&& r.x == inner.x && r.width == inner.width
            &&& scroll_col(r).x == r.x + r.width + 1
            &&& scroll_col(r).y == r.y && scroll_col(r).height == r.height && scroll_col(r).width == 1
        }),
{
}

} // verus!
