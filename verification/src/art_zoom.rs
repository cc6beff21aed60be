//! The picture a click expanded, filling the screen.

use vstd::prelude::*;
use vstd::string::*;

use crate::geometry::{min16, Rect};
use crate::now_playing::{draw_toast, toast_drawn};
use crate::scene::{Canvas, Op, OpView, Picture, Scene};
use crate::state::{ArtZoom, Toast};
use crate::table::{art_rows, art_w, draw_art, pictured};

verus! {

/// Columns of daylight either side of the picture.
pub const PAD: u16 = 1;

/// The rows of the largest whole picture a screen seats.
#[verifier::allow_in_spec]
pub fn zoom_rows(screen: Rect) -> u16
    returns
        (if screen.width <= 2 {
            0u16
        } else {
            min16(screen.height, art_rows((screen.width - 2) as u16))
        }),
{
    if screen.width <= 2 * PAD {
        0
    } else {
        min16(screen.height, art_rows(screen.width - 2 * PAD))
    }
}

/// Where the picture goes: square, whole, and centred in what the longer side
/// has left over.
#[verifier::allow_in_spec]
pub fn zoom_rect(screen: Rect) -> Rect
    returns
        ({
            let rows = zoom_rows(screen);
            let cols = art_w(rows);
            Rect {
                x: screen.x.saturating_add((screen.width.saturating_sub(cols) / 2) as u16),
                y: screen.y.saturating_add((screen.height.saturating_sub(rows) / 2) as u16),
                width: cols,
                height: rows,
            }
        }),
{
    let rows: u16 = zoom_rows(screen);
    let cols: u16 = art_w(rows);
    Rect {
        x: screen.x.saturating_add(screen.width.saturating_sub(cols) / 2),
        y: screen.y.saturating_add(screen.height.saturating_sub(rows) / 2),
        width: cols,
        height: rows,
    }
}

/// The picture lies whole on the screen, twice as wide as it is tall, and there
/// is no room for a larger one.
pub proof fn the_picture_is_whole(screen: Rect)
    requires
        screen.x + screen.width <= 0xFFFF,
        screen.y + screen.height <= 0xFFFF,
        zoom_rows(screen) > 0,
    ensures
        zoom_rect(screen).intersection(screen) == zoom_rect(screen),
        zoom_rect(screen).width == 2 * zoom_rect(screen).height,
        zoom_rect(screen).height == screen.height || zoom_rect(screen).width + 2 + 2 * PAD
            > screen.width,
{
}

/// The canvas with the picture over everything, and the message back on top.
pub open spec fn zoom_drawn(
    c: Canvas,
    screen: Rect,
    zoom: ArtZoom,
    toast: Option<Toast>,
) -> Canvas {
    if zoom_rows(screen) == 0 {
        c
    } else {
        let block = zoom_rect(screen);
        let c = pictured(
            c.push(OpView::Clear { area: screen }),
            block,
            block,
            zoom.picture,
            zoom.seed@,
        );
        match toast {
            Some(t) => toast_drawn(
                c,
                Rect {
                    x: screen.x,
                    y: screen.bottom().saturating_sub(1),
                    width: screen.width,
                    height: 1,
                },
                t.text@,
            ),
            None => c,
        }
    }
}

/// The same picture again.
fn copy_picture(p: &Picture) -> (r: Picture)
    ensures
        r == *p,
{
    match p {
        Picture::Placeholder => Picture::Placeholder,
        Picture::Playing => Picture::Playing,
        Picture::View => Picture::View,
        Picture::Page(url) => Picture::Page(url.clone()),
    }
}

/// Paint the whole picture, as large as the screen can seat it, over everything
/// on it.
pub fn draw(scene: &mut Scene, screen: Rect, zoom: &ArtZoom, toast: &Option<Toast>)
    ensures
        final(scene)@ == zoom_drawn(old(scene)@, screen, *zoom, *toast),
{
    if zoom_rows(screen) == 0 {
        return;
    }
    scene.put(Op::Clear { area: screen });
    draw_art(scene, zoom_rect(screen), copy_picture(&zoom.picture), zoom.seed.clone());
    match toast {
        Some(t) => draw_toast(
            scene,
            Rect {
                x: screen.x,
                y: screen.bottom().saturating_sub(1),
                width: screen.width,
                height: 1,
            },
            t.text.as_str(),
        ),
        None => {},
    }
}

/// The expanded sleeve is the one that was clicked, over a cleared screen, with
/// the message that is up over it.
pub proof fn the_clicked_sleeve_is_expanded(
    c: Canvas,
    screen: Rect,
    zoom: ArtZoom,
    toast: Option<Toast>,
)
    requires
        zoom_rows(screen) > 0,
    ensures
        ({
            let d = zoom_drawn(c, screen, zoom, toast);
            let block = zoom_rect(screen);
            &&& d[c.len() as int] == OpView::Clear { area: screen }
            &&& !block.is_empty() ==> d[(c.len() + 1) as int] == OpView::Art {
                area: block,
                clip: block,
                picture: zoom.picture,
                seed: zoom.seed@,
            }
        }),
{
}

} // verus!
