//! An artist's page: a band about the artist, then one scrolling list of the
//! top tracks and the records.

use vstd::prelude::*;
use vstd::string::*;

use crate::band::{
    art_area, draw_controls, lemma_name_prints, name_area, name_runs, name_spans, note_area,
    note_w, note_width, pills_drawn, text_area, HeaderControls, ART_BAND_H, ART_GAP, ART_H,
    MIN_BAND_PANE, MIN_META_W, MIN_TABLE_H, TEXT_BAND_H,
};
use crate::geometry::{min_usize, Rect};
use crate::rows::one;
use crate::scene::{put_text, Canvas, Line, OpView, Picture, Scene};
use crate::state::{ArtistView, Pen};
use crate::table::{art_w, draw_art, lemma_prints_alone, pictured, printed};
use crate::text::{
    a_number_reads_back, dec, decimal, digits_alone, joined, number_in, width, width_of,
};
use crate::theme;

verus! {

/// Rows a card's sleeve spans. It is twice as many cells wide.
pub const CARD_ART_H: u16 = 4;

/// Cells a card's sleeve takes across.
pub const CARD_ART_W: u16 = 8;

/// Cells between a card's sleeve and its text.
pub const CARD_GAP: u16 = 2;

/// The narrowest text a card keeps its sleeve for.
pub const MIN_CARD_TEXT_W: u16 = 24;

/// The row of a card its controls are on, from the top of its sleeve.
pub const CARD_PLAY_ROW: u16 = 2;

/// The first `n` genres, one after another.
pub open spec fn genres_upto(genres: Seq<String>, n: nat) -> Seq<char>
    decreases n,
{
    if n == 0 {
        Seq::empty()
    } else if n == 1 {
        genres[0]@
    } else {
        genres_upto(genres, (n - 1) as nat) + " · "@ + genres[n - 1]@
    }
}

/// What an artist plays, in three genres at most.
pub open spec fn genres_text(genres: Seq<String>) -> Seq<char> {
    genres_upto(
        genres,
        if genres.len() < 3 {
            genres.len()
        } else {
            3
        },
    )
}

fn genres_line(genres: &Vec<String>) -> (r: String)
    ensures
        r@ == genres_text(genres@),
{
    let most: usize = min_usize(genres.len(), 3);
    let mut r = String::new();
    let mut i: usize = 0;
    while i < most
        invariant
            i <= most,
            most <= genres@.len(),
            r@ == genres_upto(genres@, i as nat),
        decreases most - i,
    {
        if i > 0 {
            r.append(" · ");
        }
        r.append(genres[i].as_str());
        proof {
            if i == 0 {
                assert(r@ =~= genres@[0]@);
            }
        }
        i = i + 1;
    }
    r
}

/// How many records the artist has: the whole catalogue, whichever tab is open.
pub open spec fn counts_text(v: ArtistView) -> Seq<char> {
    let n = v.albums.items@.len();
    if n == 0 {
        ""@
    } else if n == 1 {
        "1 record"@
    } else {
        decimal(n) + " records"@
    }
}

/// "30 records", or nothing until the catalogue lands.
pub fn artist_counts(v: &ArtistView) -> (r: String)
    ensures
        r@ == counts_text(*v),
{
    let n: usize = v.albums.items.len();
    if n == 0 {
        "".to_owned()
    } else if n == 1 {
        "1 record".to_owned()
    } else {
        let count = dec(n as u64);
        joined(count.as_str(), " records")
    }
}

/// Whether an artist's band has room for a portrait.
#[verifier::allow_in_spec]
pub fn holds_portrait(inner: Rect) -> bool
    returns
        inner.height >= 17 && inner.width >= 63,
{
    inner.height >= ART_BAND_H + MIN_TABLE_H && inner.width >= art_w(ART_H) + ART_GAP + MIN_META_W
}

/// Whether the artist's band has a portrait, and with it the stacked shape.
pub open spec fn portrayed(inner: Rect, v: ArtistView) -> bool {
    v.image_url is Some && holds_portrait(inner)
}

/// Where a picture comes from: its address, where it has one.
pub open spec fn picture_at(url: Option<String>) -> Picture {
    match url {
        Some(u) => Picture::Page(u),
        None => Picture::Placeholder,
    }
}

pub fn picture_of(url: &Option<String>) -> (r: Picture)
    ensures
        r == picture_at(*url),
{
    match url {
        Some(u) => Picture::Page(u.clone()),
        None => Picture::Placeholder,
    }
}

/// Whether the genres share the name's row: only where the whole run fits.
pub open spec fn genres_share(v: ArtistView, text: Rect, stacked: bool) -> bool {
    let genres = genres_text(v.genres@);
    let room = name_area(text, note_w(counts_text(v), text, stacked)).width;
    genres.len() > 0 && !stacked && width_of(v.name@).saturating_add(width_of(genres)).saturating_add(
        2,
    ) <= room
}

/// The canvas with the lines of an artist's band on it, above its controls.
pub open spec fn portrait_lines(c: Canvas, v: ArtistView, text: Rect, stacked: bool) -> Canvas {
    let genres = genres_text(v.genres@);
    let note = counts_text(v);
    let w = note_w(note, text, stacked);
    let also = if genres_share(v, text, stacked) {
        Some(genres)
    } else {
        None
    };
    let c = put_text(c, name_area(text, w), name_runs(v.name@, also));
    if stacked {
        if genres.len() > 0 {
            put_text(
                put_text(c, text.band(1, 1), one(genres, theme::text())),
                text.band(2, 1),
                one(note, theme::dim()),
            )
        } else {
            put_text(c, text.band(1, 1), one(note, theme::dim()))
        }
    } else {
        put_text(c, note_area(text, w), one(note, theme::dim()))
    }
}

/// What an artist's page offers beyond playing itself: it is opened by its id,
/// so there is always a link to give.
#[verifier::allow_in_spec]
pub fn artist_controls() -> HeaderControls
    returns
        (HeaderControls { save: None, edit: false, share: true }),
{
    HeaderControls { save: None, edit: false, share: true }
}

/// The canvas with an artist's band on it.
pub open spec fn portrait_drawn(c: Canvas, inner: Rect, v: ArtistView, pen: Pen) -> Canvas {
    if inner.height < 8 {
        c
    } else {
        let stacked = portrayed(inner, v);
        let text = text_area(inner, stacked);
        let c = if stacked {
            let area = art_area(inner);
            pictured(c, area, area, picture_at(v.image_url), v.id@)
        } else {
            c
        };
        pills_drawn(
            portrait_lines(c, v, text, stacked),
            text.band(
                if stacked {
                    4
                } else {
                    1
                },
                1,
            ),
            artist_controls(),
            pen,
        )
    }
}

/// What an artist's band leaves for the list below it.
pub open spec fn below_portrait(inner: Rect, v: ArtistView) -> Rect {
    let used: u16 = if portrayed(inner, v) {
        11
    } else {
        3
    };
    if inner.height < 8 {
        inner
    } else {
        inner.band(used, (inner.height - used) as u16)
    }
}

fn draw_portrait_lines(scene: &mut Scene, v: &ArtistView, text: Rect, stacked: bool)
    ensures
        final(scene)@ == portrait_lines(old(scene)@, *v, text, stacked),
{
    let genres = genres_line(&v.genres);
    let note = artist_counts(v);
    let w: u16 = note_width(&note, text, stacked);
    let area = name_area(text, w);
    let there: bool = genres.as_str().unicode_len() > 0;
    let sharing: usize = width(v.name.as_str()).saturating_add(
        width(genres.as_str()),
    ).saturating_add(2);
    let also = if there && !stacked && sharing <= area.width as usize {
        Some(genres.as_str())
    } else {
        None
    };
    scene.text(area, name_spans(&v.name, also));
    if stacked {
        let mut n: u16 = 1;
        if there {
            scene.text(text.band(1, 1), Line::of(genres, theme::text()));
            n = 2;
        }
        scene.text(text.band(n, 1), Line::of(note, theme::dim()));
    } else {
        scene.text(note_area(text, w), Line::of(note, theme::dim()));
    }
}

/// The band of an artist's page: the photo, the name, the genres, what the page
/// holds, and a control to play it. The same shape as a record's, because they
/// are the same kind of page. Returns the area left for the list.
pub fn artist_band(scene: &mut Scene, inner: Rect, v: &ArtistView, pen: Pen) -> (r: Rect)
    ensures
        final(scene)@ == portrait_drawn(old(scene)@, inner, *v, pen),
        r == below_portrait(inner, *v),
{
    if inner.height < MIN_BAND_PANE {
        return inner;
    }
    let stacked: bool = v.image_url.is_some() && holds_portrait(inner);
    if stacked {
        draw_art(scene, art_area(inner), picture_of(&v.image_url), v.id.clone());
    }
    let text = text_area(inner, stacked);
    draw_portrait_lines(scene, v, text, stacked);
    draw_controls(scene, text.band(if stacked { 4 } else { 1 }, 1), artist_controls(), pen);
    let used: u16 = if stacked { ART_BAND_H } else { TEXT_BAND_H };
    inner.band(used, inner.height - used)
}

/// One line of the scrolling list.
#[derive(Debug, Clone, Copy, PartialEq, Eq, Structural)]
pub enum ArtistLine {
    /// The label over the top tracks.
    TopHeading,
    /// The label over the records.
    AlbumsHeading,
    /// The header of the track table.
    TrackHeader,
    /// A top track, by its row.
    Track(usize),
    /// The strip of record groups.
    Tabs,
    /// A row of a card, counted from the top of its sleeve.
    Card { album: usize, row: u16 },
    Blank,
}

impl ArtistLine {
    /// The row of the page the line belongs to: the top tracks first, then the
    /// records, which start at `split`.
    #[verifier::allow_in_spec]
    pub fn item(self, split: usize) -> Option<usize>
        returns
            (match self {
                ArtistLine::Track(i) => Some(i),
                ArtistLine::Card { album, .. } => Some(split.saturating_add(album)),
                _ => None,
            }),
    {
        match self {
            ArtistLine::Track(i) => Some(i),
            ArtistLine::Card { album, .. } => Some(split.saturating_add(album)),
            _ => None,
        }
    }
}

/// The lines of the top tracks: a heading, the table's header, the rows.
pub open spec fn track_lines(split: nat) -> Seq<ArtistLine> {
    if split == 0 {
        Seq::empty()
    } else {
        seq![
            ArtistLine::TopHeading,
            ArtistLine::Blank,
            ArtistLine::TrackHeader,
            ArtistLine::Blank,
        ] + Seq::new(split, |i: int| ArtistLine::Track(i as usize)) + seq![ArtistLine::Blank]
    }
}

/// Line `k` of the cards: four rows to a card, and a blank after it.
pub open spec fn line_of_card(k: int) -> ArtistLine {
    if k % 5 == 4 {
        ArtistLine::Blank
    } else {
        ArtistLine::Card { album: (k / 5) as usize, row: (k % 5) as u16 }
    }
}

/// The lines of the cards alone.
pub open spec fn card_lines(cards: nat) -> Seq<ArtistLine> {
    Seq::new(cards * 5, |k: int| line_of_card(k))
}

/// The lines over the cards: a heading, and a strip where there is a choice.
pub open spec fn strip_lines(strip: bool) -> Seq<ArtistLine> {
    if strip {
        seq![
            ArtistLine::AlbumsHeading,
            ArtistLine::Blank,
            ArtistLine::Tabs,
            ArtistLine::Blank,
        ]
    } else {
        seq![ArtistLine::AlbumsHeading, ArtistLine::Blank]
    }
}

/// The lines of the records.
pub open spec fn album_lines(cards: nat, strip: bool) -> Seq<ArtistLine> {
    if cards == 0 {
        Seq::empty()
    } else {
        strip_lines(strip) + card_lines(cards)
    }
}

/// Every line of the list.
pub open spec fn page_lines(split: nat, cards: nat, strip: bool) -> Seq<ArtistLine> {
    track_lines(split) + album_lines(cards, strip)
}

/// The row each line belongs to.
pub open spec fn owners(lines: Seq<ArtistLine>, split: usize) -> Seq<Option<usize>> {
    Seq::new(lines.len(), |k: int| lines[k].item(split))
}

/// Every line of a card belongs to the card's own row, the lines of the top
/// tracks to theirs, and no row has a line elsewhere: a click lands on what is
/// drawn under it.
pub proof fn lines_name_their_row(split: usize, cards: usize, strip: bool, k: int)
    requires
        split + cards <= usize::MAX,
        0 <= k < page_lines(split as nat, cards as nat, strip).len(),
    ensures
        ({
            let owner = owners(page_lines(split as nat, cards as nat, strip), split)[k];
            let from = track_lines(split as nat).len() + strip_lines(strip).len();
            &&& split > 0 && 4 <= k < 4 + split ==> owner == Some((k - 4) as usize)
            &&& k >= from && (k - from) % 5 != 4 ==> owner == Some(
                (split + (k - from) / 5) as usize,
            )
            &&& owner matches Some(row) ==> row < split + cards
        }),
{
}

/// The lines of the list, top to bottom.
#[verifier::rlimit(40)]
pub fn plan_lines(split: usize, cards: usize, strip: bool) -> (lines: Vec<ArtistLine>)
    ensures
        lines@ == page_lines(split as nat, cards as nat, strip),
{
    let mut lines: Vec<ArtistLine> = Vec::new();
    if split > 0 {
        lines.push(ArtistLine::TopHeading);
        lines.push(ArtistLine::Blank);
        lines.push(ArtistLine::TrackHeader);
        lines.push(ArtistLine::Blank);
        let ghost head = lines@;
        let mut i: usize = 0;
        assert(lines@ =~= head + Seq::new(0, |i: int| ArtistLine::Track(i as usize)));
        while i < split
            invariant
                i <= split,
                lines@ == head + Seq::new(i as nat, |i: int| ArtistLine::Track(i as usize)),
            decreases split - i,
        {
            lines.push(ArtistLine::Track(i));
            i = i + 1;
            assert(lines@ =~= head + Seq::new(i as nat, |i: int| ArtistLine::Track(i as usize)));
        }
        lines.push(ArtistLine::Blank);
        assert(lines@ =~= track_lines(split as nat));
    }
    if cards > 0 {
        lines.push(ArtistLine::AlbumsHeading);
        lines.push(ArtistLine::Blank);
        if strip {
            lines.push(ArtistLine::Tabs);
            lines.push(ArtistLine::Blank);
        }
        assert(lines@ =~= track_lines(split as nat) + strip_lines(strip));
        let ghost head = lines@;
        let mut album: usize = 0;
        assert(lines@ =~= head + card_lines(0));
        while album < cards
            invariant
                album <= cards,
                lines@ == head + card_lines(album as nat),
            decreases cards - album,
        {
            lines.push(ArtistLine::Card { album, row: 0 });
            lines.push(ArtistLine::Card { album, row: 1 });
            lines.push(ArtistLine::Card { album, row: 2 });
            lines.push(ArtistLine::Card { album, row: 3 });
            lines.push(ArtistLine::Blank);
            proof {
                let before = card_lines(album as nat);
                let after = card_lines((album + 1) as nat);
                assert(after =~= before.push(line_of_card(album * 5)).push(
                    line_of_card(album * 5 + 1),
                ).push(line_of_card(album * 5 + 2)).push(line_of_card(album * 5 + 3)).push(
                    line_of_card(album * 5 + 4),
                ));
                assert(lines@ =~= head + after);
            }
            album = album + 1;
        }
    }
    assert(lines@ =~= page_lines(split as nat, cards as nat, strip));
    lines
}

pub fn owners_of(lines: &Vec<ArtistLine>, split: usize) -> (r: Vec<Option<usize>>)
    ensures
        r@ == owners(lines@, split),
{
    let mut r: Vec<Option<usize>> = Vec::new();
    let mut k: usize = 0;
    while k < lines.len()
        invariant
            k <= lines@.len(),
            r@.len() == k,
            forall|j: int| 0 <= j < k ==> #[trigger] r@[j] == lines@[j].item(split),
        decreases lines@.len() - k,
    {
        r.push(lines[k].item(split));
        k = k + 1;
    }
    assert(r@ =~= owners(lines@, split));
    r
}

/// An artist's genres are the first three there are, in order, a dot between two
/// of them.
pub proof fn three_genres_are_named(genres: Seq<String>)
    ensures
        genres.len() == 0 ==> genres_text(genres) == Seq::<char>::empty(),
        genres.len() == 1 ==> genres_text(genres) == genres[0]@,
        genres.len() == 2 ==> genres_text(genres) == genres[0]@ + " · "@ + genres[1]@,
        genres.len() >= 3 ==> genres_text(genres) == genres[0]@ + " · "@ + genres[1]@ + " · "@
            + genres[2]@,
{
    reveal_with_fuel(genres_upto, 4);
}

/// An artist's page counts the whole catalogue.
pub proof fn the_catalogue_is_counted(v: ArtistView)
    ensures
        ({
            let n = v.albums.items@.len();
            let t = counts_text(v);
            &&& n == 0 ==> t.len() == 0
            &&& n == 1 ==> t == "1 record"@
            &&& n > 1 ==> exists|number: Seq<char>|
                {
                    &&& #[trigger] digits_alone(number)
                    &&& number_in(number) == n
                    &&& t == number + " records"@
                }
        }),
{
    reveal_strlit("");
    a_number_reads_back(v.albums.items@.len());
    assert(digits_alone(decimal(v.albums.items@.len())));
}

/// An artist's band says the artist's name first, and how much there is of them
/// last, with the genres between the two where it has the room.
pub proof fn a_portrait_is_told(c: Canvas, v: ArtistView, text: Rect, stacked: bool)
    ensures
        ({
            let d = portrait_lines(c, v, text, stacked);
            let genres = genres_text(v.genres@);
            let beside = genres_share(v, text, stacked);
            &&& d.len() > c.len() + 1
            &&& d[c.len() as int] matches OpView::Text { area, place, line } && area.y == text.y
                && printed(line) == v.name@ + (if beside {
                "  "@ + genres
            } else {
                Seq::<char>::empty()
            })
            &&& d.last() matches OpView::Text { area, place, line } && printed(line) == counts_text(
                v,
            )
            &&& stacked && genres.len() > 0 ==> (d[(c.len() + 1) as int] matches OpView::Text {
                area,
                place,
                line,
            } && printed(line) == genres)
            &&& beside ==> !stacked && genres.len() > 0
        }),
{
    let genres = genres_text(v.genres@);
    let also = if genres_share(v, text, stacked) {
        Some(genres)
    } else {
        None
    };
    lemma_name_prints(v.name@, also);
    lemma_prints_alone(one(counts_text(v), theme::dim()));
    lemma_prints_alone(one(genres, theme::text()));
}

/// The page below a portrait starts under it, or under the two rows that stand
/// in its place, and is all the rest.
pub proof fn the_page_is_under_its_portrait(inner: Rect, v: ArtistView)
    requires
        inner.y + inner.height <= u16::MAX,
    ensures
        ({
            let r = below_portrait(inner, v);
            let used = r.y - inner.y;
            &&& r.height == inner.height - used
            &&& r.x == inner.x && r.width == inner.width
            &&& inner.height < 8 ==> used == 0
            &&& inner.height >= 8 && portrayed(inner, v) ==> used == 11
            &&& inner.height >= 8 && !portrayed(inner, v) ==> used == 3
        }),
{
}

} // verus!
