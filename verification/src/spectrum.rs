//! The visualizer: bars of lights, a gap between each two.

use vstd::prelude::*;

use crate::geometry::{Position, Rect};
use crate::player::{band_count, band_layout, BAND_STRIDE};
use crate::theme::Led;

verus! {

/// The height of one band, in half rows.
#[derive(Debug, Clone, Copy, PartialEq, Eq, Structural)]
pub struct Band {
    /// The half rows the bar fills.
    pub full: u32,
    /// The half rows the bar reaches into: as many, or one more.
    pub part: u32,
    /// The half rows the afterglow fills, where the bar was a moment ago.
    pub glow: u32,
}

/// One light of the field, `slot` rows up from the floor.
#[derive(Debug, Clone, Copy, PartialEq, Eq, Structural)]
pub struct LedCell {
    pub at: Position,
    pub slot: u16,
    /// How it is lit; not at all, where there is no signal.
    pub led: Option<Led>,
}

/// How the light `slot` rows up is lit: fully where the bar fills its row, half
/// where the bar ends past the middle of it, and as a trail where the afterglow
/// still reaches the middle.
#[verifier::allow_in_spec]
pub fn viz_cell(band: Band, slot: u16) -> Option<Led>
    returns
        (if band.full >= 2 * slot {
            Some(Led::Lit)
        } else if band.part > 2 * slot - 1 {
            Some(Led::Half)
        } else if band.glow >= 2 * slot - 1 {
            Some(Led::Trail)
        } else {
            None
        }),
{
    let top: u32 = 2 * slot as u32;
    if band.full >= top {
        Some(Led::Lit)
    } else if band.part >= top {
        Some(Led::Half)
    } else if band.glow >= top - 1 {
        Some(Led::Trail)
    } else {
        None
    }
}

/// The light in row `row` of the bar of band `b`. A bar is one cell wide, and
/// the cell after it is left as it is.
pub open spec fn led_cell(area: Rect, bands: Seq<Band>, b: int, row: int) -> LedCell {
    let slot = (area.height - row) as u16;
    LedCell {
        at: Position {
            x: (area.x + b * BAND_STRIDE) as u16,
            y: (area.y + row) as u16,
        },
        slot,
        led: viz_cell(bands[b], slot),
    }
}

/// The lights of one bar, top to bottom.
pub open spec fn led_column(area: Rect, bands: Seq<Band>, b: int) -> Seq<LedCell> {
    Seq::new(area.height as nat, |row: int| led_cell(area, bands, b, row))
}

/// The lights of the first `n` bars.
pub open spec fn led_columns(area: Rect, bands: Seq<Band>, n: nat) -> Seq<LedCell>
    decreases n,
{
    if n == 0 {
        Seq::empty()
    } else {
        led_columns(area, bands, (n - 1) as nat) + led_column(area, bands, n - 1)
    }
}

/// The lights of a field: none, where the fewest bars would spill past it.
pub open spec fn field_leds(area: Rect, bands: Seq<Band>) -> Seq<LedCell> {
    let n = band_count(area.width);
    if n * BAND_STRIDE - 1 > area.width || area.height == 0 {
        Seq::empty()
    } else {
        led_columns(area, bands, n as nat)
    }
}

/// The lights of the visualizer's field.
pub fn draw_visualizer(area: Rect, bands: &Vec<Band>) -> (leds: Vec<LedCell>)
    requires
        area.x + area.width <= u16::MAX,
        area.y + area.height <= u16::MAX,
        band_count(area.width) <= bands@.len(),
    ensures
        leds@ == field_leds(area, bands@),
{
    let mut leds: Vec<LedCell> = Vec::new();
    let (n, used) = band_layout(area.width);
    if used > area.width || area.height == 0 {
        return leds;
    }
    let mut b: usize = 0;
    while b < n
        invariant
            b <= n,
            n == band_count(area.width),
            n <= bands@.len(),
            n * BAND_STRIDE - 1 <= area.width,
            area.x + area.width <= u16::MAX,
            area.y + area.height <= u16::MAX,
            leds@ == led_columns(area, bands@, b as nat),
        decreases n - b,
    {
        let ghost before = leds@;
        let x: u16 = area.x + b as u16 * BAND_STRIDE;
        let mut row: u16 = 0;
        assert(leds@ =~= before + led_column(area, bands@, b as int).take(0));
        while row < area.height
            invariant
                row <= area.height,
                b < n,
                n <= bands@.len(),
                x == area.x + b * BAND_STRIDE,
                area.y + area.height <= u16::MAX,
                leds@ == before + led_column(area, bands@, b as int).take(row as int),
            decreases area.height - row,
        {
            let slot: u16 = area.height - row;
            leds.push(
                LedCell {
                    at: Position { x, y: area.y + row },
                    slot,
                    led: viz_cell(bands[b], slot),
                },
            );
            let ghost column = led_column(area, bands@, b as int);
            assert(column.take(row + 1) =~= column.take(row as int).push(column[row as int]));
            row = row + 1;
            assert(leds@ =~= before + column.take(row as int));
        }
        let ghost column = led_column(area, bands@, b as int);
        assert(column.take(area.height as int) =~= column);
        b = b + 1;
    }
    leds
}

/// A light is never brighter than one below it in the same bar.
pub proof fn a_bar_fades_upward(band: Band, low: u16, high: u16)
    requires
        low <= high,
    ensures
        viz_cell(band, high) == Some(Led::Lit) ==> viz_cell(band, low) == Some(Led::Lit),
        viz_cell(band, high) == Some(Led::Half) ==> viz_cell(band, low) == Some(Led::Lit)
            || viz_cell(band, low) == Some(Led::Half),
        viz_cell(band, low) is None ==> viz_cell(band, high) is None,
{
}

/// Silence lights nothing: there is no row of lights along the floor.
pub proof fn silence_is_dark(slot: u16)
    requires
        slot > 0,
    ensures
        viz_cell(Band { full: 0, part: 0, glow: 0 }, slot) is None,
{
}

/// Every light is inside the field, on a bar and not on a gap between two.
pub proof fn lights_stay_on_their_bars(area: Rect, bands: Seq<Band>, b: int, row: int)
    requires
        area.x + area.width <= u16::MAX,
        area.y + area.height <= u16::MAX,
        band_count(area.width) * BAND_STRIDE - 1 <= area.width,
        0 <= b < band_count(area.width),
        0 <= row < area.height,
    ensures
        area.contains(led_cell(area, bands, b, row).at),
        (led_cell(area, bands, b, row).at.x - area.x) % 2 == 0,
{
}

/// A light is lit where its band reaches it whole, half lit where the band ends
/// inside it, and trails where the band has just been.
pub proof fn a_light_shows_how_far_its_band_reaches(band: Band, slot: u16)
    requires
        slot > 0,
    ensures
        viz_cell(band, slot) == Some(Led::Lit) <==> band.full >= 2 * slot,
        viz_cell(band, slot) == Some(Led::Half) <==> band.full < 2 * slot && band.part >= 2 * slot,
        viz_cell(band, slot) == Some(Led::Trail) <==> band.full < 2 * slot && band.part < 2 * slot
            && band.glow + 1 >= 2 * slot,
{
}

/// The lights of a field are those of its bands in order, each bar's counted
/// from the bottom row up.
pub proof fn lights_follow_their_bands(area: Rect, bands: Seq<Band>, n: nat, b: int, row: int)
    requires
        0 <= b < n,
        0 <= row < area.height,
    ensures
        led_columns(area, bands, n).len() == n * area.height,
        b * area.height + row < n * area.height,
        led_columns(area, bands, n)[b * area.height + row].slot == area.height - row,
        led_columns(area, bands, n)[b * area.height + row].led == viz_cell(
            bands[b],
            (area.height - row) as u16,
        ),
    decreases n,
{
    let h = area.height as int;
    lemma_columns_len(area, bands, n);
    lemma_columns_len(area, bands, (n - 1) as nat);
    let before = led_columns(area, bands, (n - 1) as nat);
    assert(b * h + row < n * h) by (nonlinear_arith)
        requires
            0 <= b < n,
            0 <= row < h,
    ;
    if b < n - 1 {
        lights_follow_their_bands(area, bands, (n - 1) as nat, b, row);
        assert(led_columns(area, bands, n)[b * h + row] == before[b * h + row]);
    } else {
        assert(b * h == (n - 1) * h);
        assert(led_columns(area, bands, n)[b * h + row] == led_column(area, bands, n - 1)[row]);
    }
}

proof fn lemma_columns_len(area: Rect, bands: Seq<Band>, n: nat)
    ensures
        led_columns(area, bands, n).len() == n * area.height,
    decreases n,
{
    if n > 0 {
        lemma_columns_len(area, bands, (n - 1) as nat);
        assert((n - 1) * area.height + area.height == n * area.height) by (nonlinear_arith);
    } else {
        assert(n * area.height == 0) by (nonlinear_arith)
            requires
                n == 0,
        ;
    }
}

/// Each bar stands in its own column, a blank one behind it, and each of its
/// lights on its own row.
pub proof fn bars_stand_in_their_columns(area: Rect, bands: Seq<Band>, b: int, row: int)
    requires
        0 <= b,
        0 <= row < area.height,
        area.x + 2 * b <= u16::MAX,
        area.y + area.height <= u16::MAX,
    ensures
        led_cell(area, bands, b, row).at.x == area.x + 2 * b,
        led_cell(area, bands, b, row).at.y == area.y + row,
        led_cell(area, bands, b, row).slot == area.height - row,
{
}

} // verus!
