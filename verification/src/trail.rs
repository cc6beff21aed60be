//! The path to the open page: laid out, fitted, and drawn.

use vstd::prelude::*;
use vstd::string::*;

use crate::geometry::{Position, Rect};
use crate::scene::{
    lemma_low16, line_cells, line_w, put_hit, put_text, run, Canvas, Line, OpView, Run, Scene,
    Strip, Target,
};
use crate::state::{Crumb, CrumbTarget, Pen};
use crate::table::{
    lemma_prints_alone, lemma_prints_both, light_changes_no_text, printed, segment,
    segment_rect, with_segment,
};
use crate::text::{clipped, fitted, low16, to_upper, trimmed, upper_case};
use crate::theme;

verus! {

/// Longest the page you are on is spelled before eliding.
pub const HEAD_W: usize = 24;

/// Longest a step behind it is spelled.
pub const ANCESTOR_W: usize = 14;

/// What separates two steps.
pub const CRUMB_SEP: &'static str = "  ›  ";

/// Steps drawn before the path starts shedding: the root, then up to three more
/// ending at the page you are on.
pub const MAX_CRUMBS: usize = 4;

/// Stands in for what was shed out of the middle. It leads nowhere.
pub const CRUMB_ELLIPSIS: &'static str = "…";

/// A step's text: in capitals, cut to `width`, without padding.
pub open spec fn crumb_label(label: Seq<char>, width: usize) -> Seq<char> {
    trimmed(fitted(upper_case(label), width as nat))
}

pub fn crumb_text(label: &str, width: usize) -> (r: String)
    ensures
        r@ == crumb_label(label@, width),
{
    let upper = to_upper(label);
    clipped(upper.as_str(), width)
}

/// A step as it is laid out: its name, what comes after it, and where it leads.
#[derive(Debug, Clone, PartialEq, Eq)]
pub struct Step {
    pub name: Line,
    pub tail: Line,
    pub target: Option<CrumbTarget>,
}

/// A [`Step`] as a value.
pub struct StepView {
    pub name: Seq<Run>,
    pub tail: Seq<Run>,
    pub target: Option<CrumbTarget>,
}

impl View for Step {
    type V = StepView;

    open spec fn view(&self) -> StepView {
        StepView { name: self.name@, tail: self.tail@, target: self.target }
    }
}

/// Steps as values.
pub open spec fn steps_of(steps: Seq<Step>) -> Seq<StepView> {
    Seq::new(steps.len(), |i: int| steps[i]@)
}

/// The separator after a step.
pub open spec fn sep_runs() -> Seq<Run> {
    Seq::empty().push(run(CRUMB_SEP@, theme::dim()))
}

/// A step behind the page you are on.
pub open spec fn ancestor_step(crumb: Crumb) -> StepView {
    StepView {
        name: Seq::empty().push(run(crumb_label(crumb.label@, ANCESTOR_W), theme::dim())),
        tail: sep_runs(),
        target: Some(crumb.target),
    }
}

/// What stands between the root and the rest.
pub open spec fn ellipsis_step() -> StepView {
    StepView {
        name: Seq::empty().push(run(CRUMB_ELLIPSIS@, theme::dim())),
        tail: sep_runs(),
        target: None,
    }
}

/// The page you are on.
pub open spec fn head_step(crumb: Crumb, loading: bool, accent: u32) -> StepView {
    let name = crumb_label(crumb.label@, HEAD_W);
    StepView {
        name: Seq::empty().push(
            run(
                if loading {
                    name + " (LOADING…)"@
                } else {
                    name
                },
                theme::accent(accent).bold(),
            ),
        ),
        tail: Seq::empty(),
        target: Some(crumb.target),
    }
}

/// The first `n` steps behind the page you are on.
pub open spec fn ancestors(shown: Seq<Crumb>, n: nat, ellipsis: bool) -> Seq<StepView>
    decreases n,
{
    if n == 0 {
        Seq::empty()
    } else {
        let with = ancestors(shown, (n - 1) as nat, ellipsis).push(ancestor_step(shown[n - 1]));
        if ellipsis && n == 1 {
            with.push(ellipsis_step())
        } else {
            with
        }
    }
}

/// A path as it is laid out.
pub open spec fn path_steps(shown: Seq<Crumb>, loading: bool, ellipsis: bool, accent: u32) -> Seq<
    StepView,
> {
    if shown.len() == 0 {
        Seq::empty()
    } else {
        ancestors(shown, (shown.len() - 1) as nat, ellipsis).push(
            head_step(shown.last(), loading, accent),
        )
    }
}

/// Lay a path out, a step at a time. `ellipsis` puts a stand-in between its
/// root and the rest: a path sheds out of its middle.
pub fn crumb_spans(shown: &Vec<Crumb>, loading: bool, ellipsis: bool, accent: u32) -> (out: Vec<
    Step,
>)
    ensures
        steps_of(out@) == path_steps(shown@, loading, ellipsis, accent),
{
    let mut out: Vec<Step> = Vec::new();
    if shown.len() == 0 {
        assert(steps_of(out@) =~= Seq::<StepView>::empty());
        return out;
    }
    let rest: usize = shown.len() - 1;
    let mut i: usize = 0;
    assert(steps_of(out@) =~= Seq::<StepView>::empty());
    while i < rest
        invariant
            i <= rest,
            rest + 1 == shown@.len(),
            steps_of(out@) == ancestors(shown@, i as nat, ellipsis),
        decreases rest - i,
    {
        let ghost before = steps_of(out@);
        out.push(
            Step {
                name: Line::of(crumb_text(shown[i].label.as_str(), ANCESTOR_W), theme::dim()),
                tail: Line::of(CRUMB_SEP.to_owned(), theme::dim()),
                target: Some(shown[i].target.copy()),
            },
        );
        assert(steps_of(out@) =~= before.push(ancestor_step(shown@[i as int])));
        if ellipsis && i == 0 {
            let ghost mid = steps_of(out@);
            out.push(
                Step {
                    name: Line::of(CRUMB_ELLIPSIS.to_owned(), theme::dim()),
                    tail: Line::of(CRUMB_SEP.to_owned(), theme::dim()),
                    target: None,
                },
            );
            assert(steps_of(out@) =~= mid.push(ellipsis_step()));
        }
        i = i + 1;
    }
    let mut text = crumb_text(shown[rest].label.as_str(), HEAD_W);
    if loading {
        text.append(" (LOADING…)");
    }
    let ghost before = steps_of(out@);
    out.push(
        Step {
            name: Line::of(text, theme::accent(accent).bold()),
            tail: Line::empty(),
            target: Some(shown[rest].target.copy()),
        },
    );
    assert(steps_of(out@) =~= before.push(head_step(shown@.last(), loading, accent)));
    out
}

/// The cells of the first `n` steps.
pub open spec fn steps_cells(steps: Seq<StepView>, n: nat) -> nat
    decreases n,
{
    if n == 0 {
        0
    } else {
        steps_cells(steps, (n - 1) as nat) + line_cells(steps[n - 1].name) + line_cells(
            steps[n - 1].tail,
        )
    }
}

/// The cells a path takes.
pub open spec fn path_w(shown: Seq<Crumb>, loading: bool, ellipsis: bool, accent: u32) -> u16 {
    let steps = path_steps(shown, loading, ellipsis, accent);
    low16(steps_cells(steps, steps.len()) as int)
}

/// Cells a laid-out path occupies.
pub fn trail_width(shown: &Vec<Crumb>, loading: bool, ellipsis: bool, accent: u32) -> (w: u16)
    ensures
        w == path_w(shown@, loading, ellipsis, accent),
{
    let steps = crumb_spans(shown, loading, ellipsis, accent);
    let ghost sv = steps_of(steps@);
    let mut w: u16 = 0;
    let mut i: usize = 0;
    while i < steps.len()
        invariant
            i <= steps@.len(),
            sv == steps_of(steps@),
            w == low16(steps_cells(sv, i as nat) as int),
        decreases steps@.len() - i,
    {
        assert(sv[i as int] == steps@[i as int]@);
        let name_w: u16 = steps[i].name.width();
        let tail_w: u16 = steps[i].tail.width();
        proof {
            let c = steps_cells(sv, i as nat) as int;
            lemma_low16(c, line_cells(sv[i as int].name) as int);
            lemma_low16(
                c + line_cells(sv[i as int].name),
                line_cells(sv[i as int].tail) as int,
            );
        }
        w = w.wrapping_add(name_w).wrapping_add(tail_w);
        i = i + 1;
    }
    w
}

/// A path without the steps between its root and `start`, and whether a
/// stand-in marks the place.
pub open spec fn shed(trail: Seq<Crumb>, start: nat) -> (Seq<Crumb>, bool) {
    if start <= 1 {
        (trail, false)
    } else {
        (seq![trail[0]] + trail.subrange(start as int, trail.len() as int), true)
    }
}

/// The most of a path that fits, shedding from `start` on.
pub open spec fn fitted_from(
    trail: Seq<Crumb>,
    start: nat,
    loading: bool,
    avail: u16,
    accent: u32,
) -> (Seq<Crumb>, bool)
    decreases trail.len() - start,
{
    let (shown, ellipsis) = shed(trail, start);
    if path_w(shown, loading, ellipsis, accent) <= avail {
        (shown, ellipsis)
    } else if start + 1 >= trail.len() {
        (
            trail.subrange(
                if trail.len() == 0 {
                    0
                } else {
                    trail.len() - 1
                },
                trail.len() as int,
            ),
            false,
        )
    } else {
        fitted_from(trail, start + 1, loading, avail, accent)
    }
}

/// Where shedding starts: room for the root and the steps nearest the page.
pub open spec fn shed_start(len: nat) -> nat {
    if len >= MAX_CRUMBS - 1 {
        (len - (MAX_CRUMBS - 1)) as nat
    } else {
        0
    }
}

/// The steps of a path that are drawn in `avail` cells.
pub open spec fn fitted_path(trail: Seq<Crumb>, loading: bool, avail: u16, accent: u32) -> (
    Seq<Crumb>,
    bool,
) {
    fitted_from(trail, shed_start(trail.len()), loading, avail, accent)
}

fn copy_crumbs(from: &Vec<Crumb>, start: usize, out: &mut Vec<Crumb>)
    requires
        start <= from@.len(),
    ensures
        final(out)@ == old(out)@ + from@.subrange(start as int, from@.len() as int),
{
    let ghost before = out@;
    let mut i: usize = start;
    assert(out@ =~= before + from@.subrange(start as int, start as int));
    while i < from.len()
        invariant
            start <= i <= from@.len(),
            out@ == before + from@.subrange(start as int, i as int),
        decreases from@.len() - i,
    {
        out.push(from[i].copy());
        i = i + 1;
        assert(out@ =~= before + from@.subrange(start as int, i as int));
    }
}

/// The steps of `trail` that fit `avail`, and whether a stand-in marks what was
/// shed between the root and the rest.
///
/// Both ends survive: what gives is the middle. A row too narrow for even that
/// gets the page's own name.
#[verifier::loop_isolation(false)]
pub fn fit_trail(trail: &Vec<Crumb>, loading: bool, avail: u16, accent: u32) -> (r: (
    Vec<Crumb>,
    bool,
))
    ensures
        (r.0@, r.1) == fitted_path(trail@, loading, avail, accent),
{
    let last: usize = if trail.len() == 0 { 0 } else { trail.len() - 1 };
    let mut start: usize = trail.len().saturating_sub(MAX_CRUMBS - 1);
    let ghost want = fitted_path(trail@, loading, avail, accent);
    loop
        invariant
            start <= trail@.len(),
            fitted_from(trail@, start as nat, loading, avail, accent) == want,
        decreases trail@.len() - start,
    {
        let mut shown: Vec<Crumb> = Vec::new();
        let ellipsis: bool = start > 1;
        if ellipsis {
            shown.push(trail[0].copy());
            copy_crumbs(trail, start, &mut shown);
        } else {
            copy_crumbs(trail, 0, &mut shown);
        }
        assert((shown@, ellipsis) == shed(trail@, start as nat)) by {
            if start > 1 {
                assert(shown@ =~= seq![trail@[0]] + trail@.subrange(
                    start as int,
                    trail@.len() as int,
                ));
            } else {
                assert(shown@ =~= trail@);
            }
        }
        if trail_width(&shown, loading, ellipsis, accent) <= avail {
            return (shown, ellipsis);
        }
        if start >= last {
            let mut head: Vec<Crumb> = Vec::new();
            copy_crumbs(trail, last, &mut head);
            assert(head@ =~= trail@.subrange(last as int, trail@.len() as int));
            return (head, false);
        }
        start = start + 1;
    }
}

proof fn lemma_fitted_from(
    trail: Seq<Crumb>,
    start: nat,
    loading: bool,
    avail: u16,
    accent: u32,
)
    requires
        trail.len() > 0,
        start < trail.len(),
    ensures
        path_kept(trail, fitted_from(trail, start, loading, avail, accent), loading, avail, accent),
        start >= shed_start(trail.len()) ==> fitted_from(
            trail,
            start,
            loading,
            avail,
            accent,
        ).0.len() <= MAX_CRUMBS,
    decreases trail.len() - start,
{
    let (shown, ellipsis) = shed(trail, start);
    if path_w(shown, loading, ellipsis, accent) <= avail {
        assert(shown.last() == trail.last());
    } else if start + 1 >= trail.len() {
        let head = trail.subrange(trail.len() - 1, trail.len() as int);
        assert(head.last() == trail.last());
    } else {
        lemma_fitted_from(trail, start + 1, loading, avail, accent);
    }
}

/// A fitted path: it ends at the page you are on, starts at the root unless the
/// page stands alone, fits or stands alone, and marks whatever it shed.
pub open spec fn path_kept(
    trail: Seq<Crumb>,
    fit: (Seq<Crumb>, bool),
    loading: bool,
    avail: u16,
    accent: u32,
) -> bool {
    let (shown, ellipsis) = fit;
    &&& shown.len() > 0
    &&& shown.last() == trail.last()
    &&& shown.len() > 1 ==> shown[0] == trail[0]
    &&& path_w(shown, loading, ellipsis, accent) <= avail || shown.len() == 1
    &&& ellipsis ==> 1 < shown.len() < trail.len()
    &&& shown.len() > 1 && !ellipsis ==> shown == trail
}

/// Whatever room a path has, its page and its root survive, it fits or the page
/// stands alone, and no more than the most steps are drawn.
pub proof fn a_path_keeps_both_ends(trail: Seq<Crumb>, loading: bool, avail: u16, accent: u32)
    requires
        trail.len() > 0,
    ensures
        path_kept(trail, fitted_path(trail, loading, avail, accent), loading, avail, accent),
        fitted_path(trail, loading, avail, accent).0.len() <= MAX_CRUMBS,
{
    lemma_fitted_from(trail, shed_start(trail.len()), loading, avail, accent);
}

/// A path as far as it has been drawn, and where its head answers.
pub struct Drawn {
    pub strip: Strip,
    pub head: Rect,
}

/// A path with one more step drawn. Only the name of a step is a target, and
/// the page you are on is one only where it leads out of the view.
pub open spec fn step_drawn(
    d: Drawn,
    step: StepView,
    row: Rect,
    head_live: bool,
    mouse: Option<Position>,
) -> Drawn {
    let s = d.strip;
    match step.target {
        None => {
            let parts = step.name + step.tail;
            Drawn {
                strip: Strip {
                    line: s.line + parts,
                    x: s.x.saturating_add(line_w(parts)),
                    canvas: s.canvas,
                },
                head: d.head,
            }
        },
        Some(target) => {
            let current = target == CrumbTarget::Current;
            let pointer = if current && !head_live {
                None
            } else {
                mouse
            };
            let rect = segment_rect(s.x, row, step.name);
            Drawn {
                strip: Strip {
                    line: with_segment(s.line, s.x, row, pointer, step.name) + step.tail,
                    x: s.x.saturating_add(line_w(step.name)).saturating_add(line_w(step.tail)),
                    canvas: if current || rect.is_empty() {
                        s.canvas
                    } else {
                        put_hit(s.canvas, rect, Target::Crumb(target))
                    },
                },
                head: if current {
                    if head_live {
                        rect
                    } else {
                        Rect::zero()
                    }
                } else {
                    d.head
                },
            }
        },
    }
}

/// The first `n` steps of a path drawn across a row.
pub open spec fn steps_drawn(
    c: Canvas,
    steps: Seq<StepView>,
    n: nat,
    row: Rect,
    head_live: bool,
    mouse: Option<Position>,
) -> Drawn
    decreases n,
{
    if n == 0 {
        Drawn {
            strip: Strip { line: Seq::empty(), x: row.x, canvas: c },
            head: Rect::zero(),
        }
    } else {
        step_drawn(
            steps_drawn(c, steps, (n - 1) as nat, row, head_live, mouse),
            steps[n - 1],
            row,
            head_live,
            mouse,
        )
    }
}

/// A whole path drawn across a row.
pub open spec fn path_drawn(
    c: Canvas,
    row: Rect,
    shown: Seq<Crumb>,
    loading: bool,
    ellipsis: bool,
    head_live: bool,
    pen: Pen,
) -> Drawn {
    let steps = path_steps(shown, loading, ellipsis, pen.accent);
    steps_drawn(c, steps, steps.len(), row, head_live, pen.mouse)
}

/// The canvas with a path on it.
pub open spec fn trail_drawn(
    c: Canvas,
    row: Rect,
    shown: Seq<Crumb>,
    loading: bool,
    ellipsis: bool,
    head_live: bool,
    pen: Pen,
) -> Canvas {
    let d = path_drawn(c, row, shown, loading, ellipsis, head_live, pen);
    put_text(d.strip.canvas, row, d.strip.line)
}

/// Lay a path out across `row` and record every step that leads somewhere.
/// Returns where its head answers, which is nowhere unless `head_live`.
///
/// On a browse page the head is the page you are already on; over the player it
/// is the way out.
pub fn draw_trail(
    scene: &mut Scene,
    row: Rect,
    trail: &Vec<Crumb>,
    loading: bool,
    ellipsis: bool,
    head_live: bool,
    pen: Pen,
) -> (r: Rect)
    ensures
        final(scene)@ == trail_drawn(old(scene)@, row, trail@, loading, ellipsis, head_live, pen),
        r == path_drawn(old(scene)@, row, trail@, loading, ellipsis, head_live, pen).head,
{
    let steps = crumb_spans(trail, loading, ellipsis, pen.accent);
    let ghost sv = steps_of(steps@);
    let ghost c = scene@;
    let mut line = Line::empty();
    let mut x: u16 = row.x;
    let mut head = Rect::zero();
    let mut i: usize = 0;
    while i < steps.len()
        invariant
            i <= steps@.len(),
            sv == steps_of(steps@),
            (Drawn { strip: Strip { line: line@, x, canvas: scene@ }, head }) == steps_drawn(
                c,
                sv,
                i as nat,
                row,
                head_live,
                pen.mouse,
            ),
        decreases steps@.len() - i,
    {
        assert(sv[i as int] == steps@[i as int]@);
        let name = steps[i].name.copy();
        let tail = steps[i].tail.copy();
        match &steps[i].target {
            None => {
                let mut parts = name;
                parts.extend(tail);
                x = x.saturating_add(parts.width());
                line.extend(parts);
            },
            Some(target) => {
                let current: bool = matches!(target, CrumbTarget::Current);
                let pointer = if current && !head_live { None } else { pen.mouse };
                let tail_w: u16 = tail.width();
                let rect = segment(&mut line, &mut x, row, pointer, name);
                if current {
                    head = if head_live { rect } else { Rect::zero() };
                } else if !rect.is_empty() {
                    scene.hit(rect, Target::Crumb(target.copy()));
                }
                line.extend(tail);
                x = x.saturating_add(tail_w);
            },
        }
        i = i + 1;
    }
    scene.text(row, line);
    head
}

/// The steps of a path printed in order.
pub open spec fn steps_text(steps: Seq<StepView>, n: nat) -> Seq<char>
    decreases n,
{
    if n == 0 {
        Seq::empty()
    } else {
        steps_text(steps, (n - 1) as nat) + printed(steps[n - 1].name) + printed(steps[n - 1].tail)
    }
}

/// A path is printed step by step, and lighting one prints nothing else.
#[verifier::rlimit(60)]
pub proof fn a_path_is_printed_in_order(
    c: Canvas,
    steps: Seq<StepView>,
    n: nat,
    row: Rect,
    head_live: bool,
    mouse: Option<Position>,
)
    requires
        n <= steps.len(),
    ensures
        printed(steps_drawn(c, steps, n, row, head_live, mouse).strip.line) == steps_text(steps, n),
    decreases n,
{
    if n > 0 {
        a_path_is_printed_in_order(c, steps, (n - 1) as nat, row, head_live, mouse);
        let d = steps_drawn(c, steps, (n - 1) as nat, row, head_live, mouse);
        let step = steps[n - 1];
        match step.target {
            None => {
                lemma_prints_both(step.name, step.tail);
                lemma_prints_both(d.strip.line, step.name + step.tail);
            },
            Some(target) => {
                let pointer = if target == CrumbTarget::Current && !head_live {
                    None
                } else {
                    mouse
                };
                light_changes_no_text(
                    d.strip.line,
                    d.strip.x,
                    row,
                    pointer,
                    step.name,
                    Seq::empty(),
                    theme::dim(),
                    false,
                );
                let named = with_segment(d.strip.line, d.strip.x, row, pointer, step.name);
                lemma_prints_both(named, step.tail);
            },
        }
        let full = steps_drawn(c, steps, n, row, head_live, mouse).strip.line;
        assert(printed(full) =~= steps_text(steps, n));
    }
}

/// What each step of a path says and leads to: an ancestor its name in capitals
/// and a mark on to the next, the page itself its name and whether it loads, and
/// an ellipsis nothing at all.
pub proof fn a_step_says_its_page(crumb: Crumb, loading: bool, accent: u32)
    ensures
        ({
            let up = |w: nat| trimmed(fitted(upper_case(crumb.label@), w));
            let a = ancestor_step(crumb);
            let h = head_step(crumb, loading, accent);
            &&& printed(a.name) == up(14)
            &&& printed(a.tail) == "  ›  "@
            &&& a.target == Some(crumb.target)
            &&& printed(h.name) == up(24) + (if loading {
                " (LOADING…)"@
            } else {
                Seq::<char>::empty()
            })
            &&& h.tail.len() == 0
            &&& h.target == Some(crumb.target)
            &&& h.name[0].style.fg == Some(accent) && h.name[0].style.bold
            &&& printed(ellipsis_step().name) == "…"@
            &&& printed(ellipsis_step().tail) == "  ›  "@
            &&& ellipsis_step().target is None
        }),
{
    lemma_prints_alone(ancestor_step(crumb).name);
    lemma_prints_alone(ancestor_step(crumb).tail);
    lemma_prints_alone(head_step(crumb, loading, accent).name);
    lemma_prints_alone(ellipsis_step().name);
    lemma_prints_alone(ellipsis_step().tail);
    let name = crumb_label(crumb.label@, HEAD_W);
    assert(name + Seq::<char>::empty() =~= name);
}

/// The steps of a path are its crumbs in order, the page itself last, with an
/// ellipsis behind the first where some were shed.
pub proof fn the_steps_are_the_crumbs(
    shown: Seq<Crumb>,
    loading: bool,
    ellipsis: bool,
    accent: u32,
    i: int,
)
    requires
        shown.len() > 0,
        0 <= i < shown.len() - 1,
    ensures
        ({
            let steps = path_steps(shown, loading, ellipsis, accent);
            &&& steps.last() == head_step(shown.last(), loading, accent)
            &&& steps.len() == shown.len() + (if ellipsis {
                1int
            } else {
                0
            })
            &&& !ellipsis || i == 0 ==> steps[i] == ancestor_step(shown[i])
            &&& ellipsis ==> steps[1] == ellipsis_step()
            &&& ellipsis && i > 0 ==> steps[i + 1] == ancestor_step(shown[i])
        }),
{
    lemma_ancestors(shown, (shown.len() - 1) as nat, ellipsis, i);
}

proof fn lemma_ancestors(shown: Seq<Crumb>, n: nat, ellipsis: bool, i: int)
    requires
        0 <= i < n < shown.len(),
    ensures
        ({
            let a = ancestors(shown, n, ellipsis);
            &&& a.len() == n + (if ellipsis {
                1int
            } else {
                0
            })
            &&& !ellipsis || i == 0 ==> a[i] == ancestor_step(shown[i])
            &&& ellipsis ==> a[1] == ellipsis_step()
            &&& ellipsis && i > 0 ==> a[i + 1] == ancestor_step(shown[i])
        }),
    decreases n,
{
    if n == 1 {
        assert(ancestors(shown, 0, ellipsis).len() == 0);
    } else {
        lemma_ancestors(shown, (n - 1) as nat, ellipsis, if i < n - 1 {
            i
        } else {
            0
        });
    }
}

/// A step answers to where it leads, and the page itself to nothing.
pub proof fn a_step_answers_to_its_page(
    d: Drawn,
    step: StepView,
    row: Rect,
    head_live: bool,
    mouse: Option<Position>,
)
    ensures
        ({
            let after = step_drawn(d, step, row, head_live, mouse);
            &&& step.target is None || step.target == Some(CrumbTarget::Current)
                ==> after.strip.canvas == d.strip.canvas
            &&& step.target matches Some(t) ==> (t != CrumbTarget::Current && !segment_rect(
                d.strip.x,
                row,
                step.name,
            ).is_empty() ==> after.strip.canvas.last() == (OpView::Hit {
                area: segment_rect(d.strip.x, row, step.name),
                target: Target::Crumb(t),
            }))
            &&& !head_live && step.target == Some(CrumbTarget::Current) ==> after.head.is_empty()
        }),
{
}

} // verus!
