//! The edit-playlist box: the name and the blurb of a playlist you own.

use vstd::prelude::*;
use vstd::string::*;

use crate::geometry::{max16, over, Rect};
use crate::playlist_picker::{draw_frame, framed, inside};
use crate::scene::{put_hit, put_text, run, Canvas, Line, Op, OpView, Run, Scene, Target};
use crate::state::{EditField, Pen, PlaylistEdit};
use crate::table::{
    centered, centered_rect, lemma_prints_alone, lemma_prints_first, light_changes_no_text,
    printed, segment, segment_rect, with_segment,
};
use crate::text::{fit, fitted, joined};
use crate::theme;

verus! {

pub const EDIT_W: u16 = 52;

/// Rows the blurb field spends.
pub const DESCRIPTION_H: u16 = 3;

pub const SAVE_LABEL: &'static str = "save";

pub const CREATE_LABEL: &'static str = "create";

pub const NAME_LABEL: &'static str = "name";

pub const DESCRIPTION_LABEL: &'static str = "about";

/// Widest label, so the two fields start at the same cell.
pub const LABEL_W: u16 = 6;

/// What a field holds.
pub open spec fn field_value(edit: PlaylistEdit, field: EditField) -> Seq<char> {
    match field {
        EditField::Name => edit.name@,
        EditField::Description => edit.description@,
    }
}

/// Whether the keys go to a field.
#[verifier::allow_in_spec]
pub fn focused(edit: &PlaylistEdit, field: EditField) -> bool
    returns
        edit.field == field && !edit.pending,
{
    edit.field == field && !edit.pending
}

/// A field's text: its value, with a caret where the keys go to it.
pub open spec fn field_text(edit: PlaylistEdit, field: EditField) -> Seq<char> {
    if focused(&edit, field) {
        field_value(edit, field) + "▏"@
    } else {
        field_value(edit, field)
    }
}

/// The canvas with one field on it.
pub open spec fn edit_field_drawn(
    c: Canvas,
    area: Rect,
    label: Seq<char>,
    edit: PlaylistEdit,
    field: EditField,
    pen: Pen,
) -> Canvas {
    let ground = theme::field(over(pen.mouse, area));
    let style = if field_value(edit, field).len() == 0 && !focused(&edit, field) {
        theme::dim()
    } else {
        theme::text()
    };
    let body = area.wide(max16(area.width, LABEL_W));
    c.push(OpView::Fill { area, style: ground }).push(
        OpView::Fill { area: body, style: ground },
    ).push(
        OpView::Wrapped {
            area: body,
            line: Seq::empty().push(run(fitted(label, LABEL_W as nat), theme::dim())).push(
                run(field_text(edit, field), style),
            ),
        },
    )
}

/// One field: a label, then what is typed into it.
fn draw_field(
    scene: &mut Scene,
    area: Rect,
    label: &str,
    edit: &PlaylistEdit,
    field: EditField,
    pen: Pen,
)
    ensures
        final(scene)@ == edit_field_drawn(old(scene)@, area, label@, *edit, field, pen),
{
    let ground = theme::field(over(pen.mouse, area));
    scene.put(Op::Fill { area, style: ground });
    let live: bool = focused(edit, field);
    let value = match field {
        EditField::Name => &edit.name,
        EditField::Description => &edit.description,
    };
    let text = if live { joined(value.as_str(), "▏") } else { value.clone() };
    let style = if value.as_str().unicode_len() == 0 && !live {
        theme::dim()
    } else {
        theme::text()
    };
    let body = area.wide(max16(area.width, LABEL_W));
    let mut line = Line::empty();
    line.put(fit(label, LABEL_W as usize), theme::dim());
    line.put(text, style);
    scene.put(Op::Fill { area: body, style: ground });
    scene.put(Op::Wrapped { area: body, line });
}

/// What the control says: what it does, or that it is doing it.
#[verifier::allow_in_spec]
pub fn save_face(pending: bool, making: bool) -> &'static str
    returns
        (match (pending, making) {
            (true, true) => "creating…",
            (true, false) => "saving…",
            (false, true) => CREATE_LABEL,
            (false, false) => SAVE_LABEL,
        }),
{
    match (pending, making) {
        (true, true) => "creating…",
        (true, false) => "saving…",
        (false, true) => CREATE_LABEL,
        (false, false) => SAVE_LABEL,
    }
}

/// The canvas with the control row on it. The control is inert while a change
/// is in flight.
pub open spec fn save_drawn(c: Canvas, controls: Rect, edit: PlaylistEdit, pen: Pen) -> Canvas {
    let parts = Seq::<Run>::empty().push(
        run(
            save_face(edit.pending, edit.making)@,
            if edit.pending {
                theme::dim()
            } else {
                theme::accent(pen.accent)
            },
        ),
    );
    let rect = if edit.pending {
        Rect::zero()
    } else {
        segment_rect(controls.x, controls, parts)
    };
    put_text(
        put_hit(c, rect, Target::EditSave),
        controls,
        with_segment(Seq::empty(), controls.x, controls, pen.mouse, parts).push(
            run("   tab switches · esc cancels"@, theme::dim()),
        ),
    )
}

fn draw_save(scene: &mut Scene, controls: Rect, edit: &PlaylistEdit, pen: Pen)
    ensures
        final(scene)@ == save_drawn(old(scene)@, controls, *edit, pen),
{
    let style = if edit.pending { theme::dim() } else { theme::accent(pen.accent) };
    let part = Line::of(save_face(edit.pending, edit.making).to_owned(), style);
    let mut line = Line::empty();
    let mut x: u16 = controls.x;
    let rect = segment(&mut line, &mut x, controls, pen.mouse, part);
    scene.hit(if edit.pending { Rect::zero() } else { rect }, Target::EditSave);
    line.print("   tab switches · esc cancels", theme::dim());
    scene.text(controls, line);
}

/// Where the box is: two fields, a blank, the control, a refusal where there is
/// one, and the frame.
pub open spec fn edit_area(screen: Rect, edit: PlaylistEdit) -> Rect {
    centered_rect(
        screen,
        EDIT_W,
        if edit.error is Some {
            9
        } else {
            8
        },
    )
}

/// The canvas with the inside of the box on it.
pub open spec fn edit_body_drawn(c: Canvas, inner: Rect, edit: PlaylistEdit, pen: Pen) -> Canvas {
    let name = inner.tall(1);
    let c = put_hit(
        edit_field_drawn(c, name, NAME_LABEL@, edit, EditField::Name, pen),
        name,
        Target::EditName,
    );
    let about = inner.band(1, DESCRIPTION_H);
    let c = put_hit(
        edit_field_drawn(c, about, DESCRIPTION_LABEL@, edit, EditField::Description, pen),
        about,
        Target::EditDescription,
    );
    let controls = about.band(4, 1);
    let c = save_drawn(c, controls, edit, pen);
    match edit.error {
        Some(e) => put_text(
            c,
            controls.band(1, 1),
            Seq::empty().push(run(" "@ + e@, theme::warn())),
        ),
        None => c,
    }
}

/// The canvas with the box on it.
pub open spec fn edit_drawn(c: Canvas, screen: Rect, edit: PlaylistEdit, pen: Pen) -> Canvas {
    let area = edit_area(screen, edit);
    let title = if edit.making {
        " New playlist "@
    } else {
        " Edit playlist "@
    };
    let c = framed(c, area, title, pen.accent);
    if area.width < 3 || area.height < 3 {
        c
    } else {
        edit_body_drawn(c, inside(area), edit, pen)
    }
}

/// The edit-playlist box, in the middle of the screen.
pub fn draw(scene: &mut Scene, screen: Rect, edit: &PlaylistEdit, pen: Pen)
    ensures
        final(scene)@ == edit_drawn(old(scene)@, screen, *edit, pen),
{
    let area = centered(screen, EDIT_W, if edit.error.is_some() { 9 } else { 8 });
    let title = if edit.making { " New playlist " } else { " Edit playlist " };
    draw_frame(scene, area, title.to_owned(), pen.accent);
    if area.width < 3 || area.height < 3 {
        return;
    }
    let inner = inside(area);
    let name = inner.tall(1);
    draw_field(scene, name, NAME_LABEL, edit, EditField::Name, pen);
    scene.hit(name, Target::EditName);
    let about = inner.band(1, DESCRIPTION_H);
    draw_field(scene, about, DESCRIPTION_LABEL, edit, EditField::Description, pen);
    scene.hit(about, Target::EditDescription);
    let controls = about.band(4, 1);
    draw_save(scene, controls, edit, pen);
    match &edit.error {
        Some(e) => {
            let text = joined(" ", e.as_str());
            scene.text(controls.band(1, 1), Line::of(text, theme::warn()));
        },
        None => {},
    }
}

/// A field shows what it holds, with a caret behind it while it is the one typed
/// into and nothing is on its way.
pub proof fn a_field_shows_what_it_holds(edit: PlaylistEdit, field: EditField)
    ensures
        ({
            let held = match field {
                EditField::Name => edit.name@,
                EditField::Description => edit.description@,
            };
            &&& edit.field == field && !edit.pending ==> field_text(edit, field) == held + seq!['▏']
            &&& !(edit.field == field && !edit.pending) ==> field_text(edit, field) == held
        }),
{
    reveal_strlit("▏");
    assert("▏"@ =~= seq!['▏']);
}

/// A field is drawn with its label before what it holds.
pub proof fn a_field_is_drawn_with_its_label(
    c: Canvas,
    area: Rect,
    label: Seq<char>,
    edit: PlaylistEdit,
    field: EditField,
    pen: Pen,
)
    ensures
        edit_field_drawn(c, area, label, edit, field, pen).last() matches OpView::Wrapped {
            area: at,
            line,
        } && at.x == area.x && at.y == area.y && printed(line) == fitted(label, 6) + field_text(
            edit,
            field,
        ),
{
    let style = if field_value(edit, field).len() == 0 && !focused(&edit, field) {
        theme::dim()
    } else {
        theme::text()
    };
    let line = Seq::<Run>::empty().push(run(fitted(label, LABEL_W as nat), theme::dim())).push(
        run(field_text(edit, field), style),
    );
    lemma_prints_first(line, 2);
    lemma_prints_first(line, 1);
    assert(printed(line.take(0)) =~= Seq::<char>::empty());
    assert(line.take(2) =~= line);
    assert(printed(line) =~= fitted(label, 6) + field_text(edit, field));
}

/// The button says what it does, or that it is being done, and answers only
/// while it is not.
pub proof fn the_button_says_what_it_does(c: Canvas, controls: Rect, edit: PlaylistEdit, pen: Pen)
    ensures
        ({
            let word = if edit.making && edit.pending {
                "creating…"@
            } else if edit.pending {
                "saving…"@
            } else if edit.making {
                "create"@
            } else {
                "save"@
            };
            let d = save_drawn(c, controls, edit, pen);
            &&& d.len() == c.len() + 2
            &&& d[c.len() as int] matches OpView::Hit { area, target } && target == Target::EditSave
                && (edit.pending ==> area.is_empty())
            &&& d.last() matches OpView::Text { area, place, line } && area == controls && printed(line)
                == word + "   tab switches · esc cancels"@
        }),
{
    let style = if edit.pending {
        theme::dim()
    } else {
        theme::accent(pen.accent)
    };
    let face = save_face(edit.pending, edit.making)@;
    let parts = Seq::<Run>::empty().push(run(face, style));
    lemma_prints_alone(parts);
    light_changes_no_text(
        Seq::empty(),
        controls.x,
        controls,
        pen.mouse,
        parts,
        face,
        style,
        true,
    );
    let named = with_segment(Seq::empty(), controls.x, controls, pen.mouse, parts);
    let line = named.push(run("   tab switches · esc cancels"@, theme::dim()));
    assert(line.drop_last() =~= named);
    assert(printed(line) =~= face + "   tab switches · esc cancels"@);
}

/// The name is typed on the first row and what the playlist is about under it,
/// and each answers on its own rows.
pub proof fn each_field_has_its_own_rows(c: Canvas, inner: Rect, edit: PlaylistEdit, pen: Pen)
    ensures
        ({
            let d = edit_body_drawn(c, inner, edit, pen);
            let name = inner.tall(1);
            let about = inner.band(1, 3);
            &&& d.len() > c.len() + 8
            &&& d[(c.len() + 3) as int] == OpView::Hit { area: name, target: Target::EditName }
            &&& d[(c.len() + 7) as int] == OpView::Hit {
                area: about,
                target: Target::EditDescription,
            }
            &&& d[(c.len() + 2) as int] == edit_field_drawn(
                c,
                name,
                "name"@,
                edit,
                EditField::Name,
                pen,
            ).last()
            &&& d[(c.len() + 6) as int] == edit_field_drawn(
                c,
                about,
                "about"@,
                edit,
                EditField::Description,
                pen,
            ).last()
            &&& edit.error matches Some(e) ==> (d.last() matches OpView::Text { area, place, line }
                && printed(line) == seq![' '] + e@)
        }),
{
    reveal_strlit(" ");
    assert(" "@ =~= seq![' ']);
    if let Some(e) = edit.error {
        lemma_prints_alone(Seq::<Run>::empty().push(run(" "@ + e@, theme::warn())));
    }
}

/// The box says whether it makes a playlist or changes one.
pub proof fn the_box_says_what_it_is_for(c: Canvas, screen: Rect, edit: PlaylistEdit, pen: Pen)
    ensures
        edit_drawn(c, screen, edit, pen)[(c.len() + 1) as int] matches OpView::Frame {
            area,
            title,
            style,
        } && title == (if edit.making {
            " New playlist "@
        } else {
            " Edit playlist "@
        }) && area == edit_area(screen, edit),
{
}

} // verus!
