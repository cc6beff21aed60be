//! The palette, and the styles drawn from it.
//!
//! A colour is packed `0x00RRGGBB`. The accent is handed in wherever it is
//! used: it follows the sleeve that is playing.

use vstd::prelude::*;

verus! {

/// The resting accent, a gold.
pub const ACCENT: u32 = 0xE8A02E;
pub const TEXT: u32 = 0xAAB2B6;
pub const DIM: u32 = 0x586166;
/// Search box and toasts.
pub const WARN: u32 = 0xF0DC8A;
/// The selected row and the playing track's own row.
pub const BRIGHT: u32 = 0xE8F0F2;
/// The search field's resting fill.
pub const FIELD: u32 = 0x22272B;
/// The same field under the pointer.
pub const FIELD_HOVER: u32 = 0x31383D;
/// The green of a live broadcast.
pub const GREEN: u32 = 0x5FBF62;

/// The packed value that says no colour is installed.
pub const NO_OVERRIDE: u32 = 0xFFFF_FFFF;

/// What a run of text is painted with. `None` leaves what is there.
#[derive(Debug, Clone, Copy, PartialEq, Eq, Structural)]
pub struct Style {
    pub fg: Option<u32>,
    pub bg: Option<u32>,
    pub bold: bool,
    pub italic: bool,
}

impl Style {
    /// A style that changes nothing.
    #[verifier::allow_in_spec]
    pub fn plain() -> Style
        returns
            (Style { fg: None, bg: None, bold: false, italic: false }),
    {
        Style { fg: None, bg: None, bold: false, italic: false }
    }

    #[verifier::allow_in_spec]
    pub fn ink(fg: u32) -> Style
        returns
            (Style { fg: Some(fg), bg: None, bold: false, italic: false }),
    {
        Style { fg: Some(fg), bg: None, bold: false, italic: false }
    }

    #[verifier::allow_in_spec]
    pub fn on(self, bg: u32) -> Style
        returns
            (Style { fg: self.fg, bg: Some(bg), bold: self.bold, italic: self.italic }),
    {
        Style { fg: self.fg, bg: Some(bg), bold: self.bold, italic: self.italic }
    }

    #[verifier::allow_in_spec]
    pub fn bold(self) -> Style
        returns
            (Style { fg: self.fg, bg: self.bg, bold: true, italic: self.italic }),
    {
        Style { fg: self.fg, bg: self.bg, bold: true, italic: self.italic }
    }

    #[verifier::allow_in_spec]
    pub fn italic(self) -> Style
        returns
            (Style { fg: self.fg, bg: self.bg, bold: self.bold, italic: true }),
    {
        Style { fg: self.fg, bg: self.bg, bold: self.bold, italic: true }
    }
}

/// How brightly one visualizer LED is lit.
#[derive(Debug, Clone, Copy, PartialEq, Eq, Structural)]
pub enum Led {
    /// The bar reaches past this row.
    Lit,
    /// The bar's top row, only partly into this LED.
    Half,
    /// The bar was here recently and is falling away.
    Trail,
}

#[verifier::allow_in_spec]
pub fn accent(ink: u32) -> Style
    returns
        Style::ink(ink),
{
    Style::ink(ink)
}

#[verifier::allow_in_spec]
pub fn text() -> Style
    returns
        Style::ink(TEXT),
{
    Style::ink(TEXT)
}

#[verifier::allow_in_spec]
pub fn dim() -> Style
    returns
        Style::ink(DIM),
{
    Style::ink(DIM)
}

#[verifier::allow_in_spec]
pub fn bright() -> Style
    returns
        Style::ink(BRIGHT),
{
    Style::ink(BRIGHT)
}

/// Something is in flight.
#[verifier::allow_in_spec]
pub fn warn() -> Style
    returns
        Style::ink(WARN),
{
    Style::ink(WARN)
}

#[verifier::allow_in_spec]
pub fn green() -> Style
    returns
        Style::ink(GREEN),
{
    Style::ink(GREEN)
}

/// The search field's ground, or its lit ground with the pointer in it. A
/// background alone: the runs drawn over it bring their own foregrounds.
#[verifier::allow_in_spec]
pub fn field(hover: bool) -> Style
    returns
        Style::plain().on(if hover { FIELD_HOVER } else { FIELD }),
{
    Style::plain().on(if hover { FIELD_HOVER } else { FIELD })
}

/// The wash behind the row under the pointer.
#[verifier::allow_in_spec]
pub fn row_hover() -> Style
    returns
        Style::plain().on(FIELD),
{
    Style::plain().on(FIELD)
}

/// The rule above the bottom bar.
#[verifier::allow_in_spec]
pub fn rule() -> Style
    returns
        Style::ink(DIM),
{
    Style::ink(DIM)
}

/// The red, green and blue of a packed colour.
pub open spec fn channels(c: u32) -> (u32, u32, u32) {
    (c / 0x1_0000 % 256, c / 256 % 256, c % 256)
}

/// Each channel of a colour put through `f`.
pub open spec fn per_channel(c: u32, f: spec_fn(u32) -> int) -> int {
    let (r, g, b) = channels(c);
    f(r) * 0x1_0000 + f(g) * 256 + f(b)
}

/// One channel, two fifths of the way to white, to the nearest step.
pub open spec fn lightened(v: u32) -> int {
    (6 * v + 1025) / 10
}

/// One channel at `percent` of itself, to the nearest step.
pub open spec fn dimmed(v: u32, percent: u32) -> int {
    (v * percent + 50) / 100
}

fn lighten(v: u32) -> (r: u32)
    requires
        v < 256,
    ensures
        r == lightened(v),
        r < 256,
{
    (6 * v + 1025) / 10
}

fn shade(v: u32, percent: u32) -> (r: u32)
    requires
        v < 256,
        percent <= 100,
    ensures
        r == dimmed(v, percent),
        r < 256,
{
    assert(v * percent <= 25500) by (nonlinear_arith)
        requires
            v <= 255,
            percent <= 100,
    ;
    assert(0 <= v * percent) by (nonlinear_arith);
    (v * percent + 50) / 100
}

/// The hover accent: the accent in force pulled toward white.
pub fn accent_bright(ink: u32) -> (r: u32)
    ensures
        r == per_channel(ink, |v: u32| lightened(v)),
{
    lighten(ink / 0x1_0000 % 256) * 0x1_0000 + lighten(ink / 256 % 256) * 256 + lighten(ink % 256)
}

/// A colour at `percent` of its brightness.
pub fn at_percent(ink: u32, percent: u32) -> (r: u32)
    requires
        percent <= 100,
    ensures
        r == per_channel(ink, |v: u32| dimmed(v, percent)),
{
    shade(ink / 0x1_0000 % 256, percent) * 0x1_0000 + shade(ink / 256 % 256, percent) * 256 + shade(
        ink % 256,
        percent,
    )
}

/// How brightly an LED is lit, as a percentage of its ramp colour.
#[verifier::allow_in_spec]
pub fn led_percent(led: Led) -> u32
    returns
        (match led {
            Led::Lit => 100u32,
            Led::Half => 55u32,
            Led::Trail => 35u32,
        }),
{
    match led {
        Led::Lit => 100u32,
        Led::Half => 55u32,
        Led::Trail => 35u32,
    }
}

/// How far [`stopped_dim`] pulls the accent back.
pub const PAUSED_FADE: u32 = 62;

/// What [`stopped_dim`] paints.
pub open spec fn stopped_style(ink: u32) -> Style {
    Style::ink(per_channel(ink, |v: u32| dimmed(v, PAUSED_FADE)) as u32)
}

/// What a hovered knob is painted with.
pub open spec fn knob_style(ink: u32) -> Style {
    Style::ink(per_channel(ink, |v: u32| lightened(v)) as u32).bold()
}

/// The stopped transport's colour: the accent in force, held back.
pub fn stopped_dim(ink: u32) -> (s: Style)
    ensures
        s == stopped_style(ink),
{
    Style::ink(at_percent(ink, PAUSED_FADE))
}

/// The hovered knob of a slider.
pub fn knob_lit(ink: u32) -> (s: Style)
    ensures
        s == knob_style(ink),
{
    Style::ink(accent_bright(ink)).bold()
}

/// A colour or its absence, in one word.
pub open spec fn packed(rgb: Option<[u8; 3]>) -> u32 {
    match rgb {
        Some(c) => (c[0] * 0x1_0000 + c[1] * 0x100 + c[2]) as u32,
        None => NO_OVERRIDE,
    }
}

pub fn pack(rgb: Option<[u8; 3]>) -> (p: u32)
    ensures
        p == packed(rgb),
{
    match rgb {
        Some(c) => c[0] as u32 * 0x1_0000 + c[1] as u32 * 0x100 + c[2] as u32,
        None => NO_OVERRIDE,
    }
}

pub fn unpack(p: u32) -> (rgb: Option<[u8; 3]>)
    ensures
        p == NO_OVERRIDE <==> rgb is None,
        rgb matches Some(c) ==> (c[0] as u32, c[1] as u32, c[2] as u32) == channels(p),
{
    if p == NO_OVERRIDE {
        None
    } else {
        Some([(p / 0x1_0000 % 256) as u8, (p / 256 % 256) as u8, (p % 256) as u8])
    }
}

/// Unpacking gives back what was packed, a colour or its absence.
pub proof fn packing_round_trips(rgb: Option<[u8; 3]>)
    ensures
        packed(rgb) == NO_OVERRIDE <==> rgb is None,
        rgb matches Some(c) ==> channels(packed(rgb)) == (c[0] as u32, c[1] as u32, c[2] as u32),
{
}

/// The colours a decoded cover gives the screen.
#[derive(Debug, Clone, Copy, PartialEq, Eq)]
pub struct CoverColors {
    pub accent: Option<[u8; 3]>,
    /// The two hues of the visualizer's ramp.
    pub ramp: Option<[[u8; 3]; 2]>,
}

/// The three installed colours, packed.
#[derive(Debug, Clone, Copy, PartialEq, Eq, Structural)]
pub struct Installed {
    pub accent: u32,
    pub viz_a: u32,
    pub viz_b: u32,
}

/// What a cover installs: the accent and both hues together, or none of them.
pub open spec fn installed(cover: Option<CoverColors>) -> Installed {
    let accent = match cover {
        Some(c) => c.accent,
        None => None,
    };
    let ramp = match cover {
        Some(c) => c.ramp,
        None => None,
    };
    match ramp {
        Some(r) => Installed {
            accent: packed(accent),
            viz_a: packed(Some(r[0])),
            viz_b: packed(Some(r[1])),
        },
        None => Installed { accent: packed(accent), viz_a: NO_OVERRIDE, viz_b: NO_OVERRIDE },
    }
}

/// The colours to install for the playing album, or for none.
///
/// One call for all of them: they come off one cover, and a track change moves
/// them together.
pub fn set_cover_colors(cover: Option<CoverColors>) -> (r: Installed)
    ensures
        r == installed(cover),
{
    let accent = match cover {
        Some(c) => c.accent,
        None => None,
    };
    let ramp = match cover {
        Some(c) => c.ramp,
        None => None,
    };
    match ramp {
        Some(r) => Installed {
            accent: pack(accent),
            viz_a: pack(Some(r[0])),
            viz_b: pack(Some(r[1])),
        },
        None => Installed { accent: pack(accent), viz_a: pack(None), viz_b: pack(None) },
    }
}

/// The cover ramp's two hues, or nothing when the built-in ramp applies.
pub fn viz_pair(colors: Installed) -> (pair: Option<[[u8; 3]; 2]>)
    ensures
        pair is None <==> (colors.viz_a == NO_OVERRIDE || colors.viz_b == NO_OVERRIDE),
        pair matches Some(p) ==> {
            &&& (p[0][0] as u32, p[0][1] as u32, p[0][2] as u32) == channels(colors.viz_a)
            &&& (p[1][0] as u32, p[1][1] as u32, p[1][2] as u32) == channels(colors.viz_b)
        },
{
    match (unpack(colors.viz_a), unpack(colors.viz_b)) {
        (Some(a), Some(b)) => Some([a, b]),
        _ => None,
    }
}

/// The accent in force: the installed one, or the resting gold.
#[verifier::allow_in_spec]
pub fn accent_color(colors: Installed) -> u32
    returns
        (if colors.accent == NO_OVERRIDE { ACCENT } else { colors.accent }),
{
    if colors.accent == NO_OVERRIDE { ACCENT } else { colors.accent }
}

/// A cover with no ramp, or no cover, leaves the built-in ramp in force, and a
/// cover with one installs both its hues.
pub proof fn a_ramp_is_installed_whole(cover: Option<CoverColors>)
    ensures
        (installed(cover).viz_a == NO_OVERRIDE) == (installed(cover).viz_b == NO_OVERRIDE),
        installed(cover).viz_a == NO_OVERRIDE <==> !(cover matches Some(c) && c.ramp is Some),
{
}

/// A shade is as near to its share of a channel as a whole number comes, and a
/// lighter one as near to two fifths of the way to white.
pub proof fn shades_are_rounded(v: u32, percent: u32)
    requires
        v <= 255,
        percent <= 100,
    ensures
        0 <= dimmed(v, percent) <= v,
        -50 < 100 * dimmed(v, percent) - v * percent <= 50,
        dimmed(v, 100) == v,
        v <= lightened(v) <= 255,
        -5 <= 10 * lightened(v) - (10 * v + 4 * (255 - v)) <= 5,
{
    assert(0 <= v * percent <= 100 * v) by (nonlinear_arith)
        requires
            percent <= 100,
    ;
}

/// A colour that is shaded is shaded channel by channel.
pub proof fn channels_are_shaded_apart(c: u32)
    ensures
        ({
            let (r, g, b) = channels(c);
            &&& r <= 255 && g <= 255 && b <= 255
            &&& c <= 0xFF_FFFF ==> r * 0x1_0000 + g * 0x100 + b == c
            &&& c <= 0xFF_FFFF ==> per_channel(c, |v: u32| v as int) == c
        }),
{
}

/// With no colours of a cover's own installed the built-in accent is in force.
pub proof fn a_cover_lends_its_accent(cover: Option<CoverColors>)
    ensures
        cover is None ==> accent_color(installed(cover)) == ACCENT,
        cover matches Some(c) ==> (c.accent is None ==> accent_color(installed(cover)) == ACCENT),
        cover matches Some(c) ==> (c.accent matches Some(rgb) ==> channels(
            accent_color(installed(cover)),
        ) == (rgb[0] as u32, rgb[1] as u32, rgb[2] as u32)),
{
    if let Some(c) = cover {
        packing_round_trips(c.accent);
    }
}

} // verus!
