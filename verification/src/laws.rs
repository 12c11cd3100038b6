//! Properties of the drawing state machine that hold across messages.
use vstd::prelude::*;
use crate::domain::{
    AnnotationView, ArrowAnnotation, CircleOutlineAnnotation, LineAnnotation, MagnifierAnnotation,
    PencilView, RectOutlineAnnotation,
};
use crate::handlers::{
    draw_step, dragged_annotation, ended, pencil_ended, pencil_moved, tool_step, Corners, DrawAction,
    DrawMsg, EndFacts,
};
use crate::state::{
    is_nth_magnifier, kind_list, lemma_magnifier_reshaped, lemma_magnifier_zoomed, made_by,
    magnifier_count, magnifiers, nth_magnifier, no_detection, redaction_pred,
    shape_pred, texts, lemma_nth_magnifier_is_listed, lemma_pushed_magnifier_is_last, AnnotationsView,
    ArgsView, Tool,
};

verus! {

/// The drawing message that carries `action` for tool `t`.
pub open spec fn tool_msg<F>(t: Tool, action: DrawAction<F>) -> DrawMsg<F> {
    match t {
        Tool::Arrow => DrawMsg::Arrow(action),
        Tool::Line => DrawMsg::Line(action),
        Tool::Circle => DrawMsg::Circle(action),
        Tool::Rectangle => DrawMsg::Rectangle(action),
        Tool::Pencil => DrawMsg::Pencil(action),
        Tool::Magnifier => DrawMsg::Magnifier(action),
        Tool::Redact => DrawMsg::Redact(action),
        Tool::Pixelate => DrawMsg::Pixelate(action),
    }
}

/// Every committed pencil stroke has at least two points.
pub open spec fn strokes_visible<F, C>(h: Seq<AnnotationView<F, C>>) -> bool {
    forall|i: int| 0 <= i < h.len() && (#[trigger] h[i]) is Pencil ==> h[i]->Pencil_0.points.len() >= 2
}

proof fn lemma_with_mode_effect<F, C>(a: AnnotationsView<F, C>, t: Tool, on: bool)
    ensures
        forall|u: Tool| #[trigger] a.with_mode(t, on).mode_of(u) == if u == t { on } else { a.mode_of(u) },
        forall|u: Tool| #[trigger] a.with_mode(t, on).drawing_of(u) == a.drawing_of(u),
{
}

proof fn lemma_with_drag_effect<F, C>(a: AnnotationsView<F, C>, t: Tool, d: Option<(F, F)>)
    requires
        t != Tool::Pencil,
    ensures
        forall|u: Tool| #[trigger] a.with_drag(t, d).mode_of(u) == a.mode_of(u),
        forall|u: Tool| #[trigger] a.with_drag(t, d).drawing_of(u) == if u == t { d is Some } else { a.drawing_of(u) },
{
}

proof fn lemma_others_off_effect<F, C>(a: AnnotationsView<F, C>, keep: Tool)
    ensures
        forall|u: Tool| #[trigger] a.others_off(keep).mode_of(u) == (u == keep && a.mode_of(u)),
        forall|u: Tool| #[trigger] a.others_off(keep).drawing_of(u) == (u == keep && a.drawing_of(u)),
{
}

proof fn lemma_tool_off_effect<F, C>(a: AnnotationsView<F, C>, t: Tool)
    ensures
        forall|u: Tool| #[trigger] a.tool_off(t).mode_of(u) == (u != t && a.mode_of(u)),
        forall|u: Tool| #[trigger] a.tool_off(t).drawing_of(u) == (u != t && a.drawing_of(u)),
{
    lemma_with_mode_effect(a, t, false);
    if t != Tool::Pencil && t != Tool::Magnifier {
        lemma_with_drag_effect(a.with_mode(t, false), t, None);
    }
}

/// A change that keeps every mode and starts a drag only with an active tool
/// keeps the tools consistent.
proof fn lemma_consistent_after<F, C>(a: AnnotationsView<F, C>, a2: AnnotationsView<F, C>)
    requires
        a.tools_consistent(),
        forall|u: Tool| #[trigger] a2.mode_of(u) == a.mode_of(u),
        forall|u: Tool| #[trigger] a2.drawing_of(u) ==> a.drawing_of(u) || a.mode_of(u),
    ensures
        a2.tools_consistent(),
{
    assert forall|t1: Tool, t2: Tool| #[trigger] a2.mode_of(t1) && #[trigger] a2.mode_of(t2) implies t1 == t2 by {
        assert(a.mode_of(t1) && a.mode_of(t2));
    }
    assert forall|u: Tool| #[trigger] a2.drawing_of(u) implies a2.mode_of(u) by {
        if a.drawing_of(u) {
            assert(a.mode_of(u));
        }
    }
}

/// One pointer action keeps the tools consistent.
proof fn lemma_tool_step_consistent<F, C>(s: ArgsView<F, C>, t: Tool, action: DrawAction<F>)
    requires
        s.annotations.tools_consistent(),
    ensures
        tool_step(s, t, action).annotations.tools_consistent(),
{
    let a = s.annotations;
    match action {
        DrawAction::ModeToggle => {
            let a2 = tool_step(s, t, action).annotations;
            if a.mode_of(t) {
                lemma_tool_off_effect(a, t);
                assert(a2 == a.tool_off(t));
                assert forall|t1: Tool, t2: Tool| #[trigger]
                    a2.mode_of(t1) && #[trigger] a2.mode_of(t2) implies t1 == t2 by {
                    assert(a.mode_of(t1) && a.mode_of(t2));
                }
                assert(a2.tools_consistent());
            } else {
                lemma_with_mode_effect(a, t, true);
                lemma_others_off_effect(a.with_mode(t, true), t);
                assert(a2 == a.with_mode(t, true).others_off(t));
                assert forall|t1: Tool, t2: Tool| #[trigger]
                    a2.mode_of(t1) && #[trigger] a2.mode_of(t2) implies t1 == t2 by {
                    assert(t1 == t && t2 == t);
                }
                assert forall|u: Tool| #[trigger] a2.drawing_of(u) implies a2.mode_of(u) by {
                    if u == t {
                        assert(!a.drawing_of(t));
                    }
                }
                assert(a2.tools_consistent());
            }
            assert(tool_step(s, t, action).annotations.tools_consistent());
        },
        DrawAction::Start(x, y) => {
            let a2 = tool_step(s, t, action).annotations;
            if a.mode_of(t) && t != Tool::Pencil {
                lemma_with_drag_effect(a, t, Some((x, y)));
                lemma_consistent_after(a, a2);
            } else if a.mode_of(t) {
                assert forall|u: Tool| #[trigger] a2.mode_of(u) == a.mode_of(u) by {}
                assert forall|u: Tool| #[trigger] a2.drawing_of(u) implies a.drawing_of(u) || a.mode_of(u) by {}
                lemma_consistent_after(a, a2);
            }
            assert(tool_step(s, t, action).annotations.tools_consistent());
        },
        DrawAction::Move(..) => {
            let a2 = tool_step(s, t, action).annotations;
            assert forall|u: Tool| #[trigger] a2.mode_of(u) == a.mode_of(u) by {}
            assert forall|u: Tool| #[trigger] a2.drawing_of(u) implies a.drawing_of(u) || a.mode_of(u) by {}
            lemma_consistent_after(a, a2);
        },
        DrawAction::End(..) => {
            let a2 = tool_step(s, t, action).annotations;
            if t != Tool::Pencil {
                if a.drag_of(t) is Some {
                    lemma_with_drag_effect(a, t, None);
                    assert forall|u: Tool| #[trigger] a2.mode_of(u) == a.mode_of(u) by {}
                    assert forall|u: Tool| #[trigger] a2.drawing_of(u) implies a.drawing_of(u) || a.mode_of(u) by {}
                    lemma_consistent_after(a, a2);
                }
            } else if a.pencil_drawing is Some {
                assert forall|u: Tool| #[trigger] a2.mode_of(u) == a.mode_of(u) by {}
                assert forall|u: Tool| #[trigger] a2.drawing_of(u) implies a.drawing_of(u) || a.mode_of(u) by {}
                lemma_consistent_after(a, a2);
            }
            assert(tool_step(s, t, action).annotations.tools_consistent());
        },
    }
}

/// At most one drawing tool is active at a time, and a drag is only ever in
/// progress with the active tool: every drawing message keeps this so.
pub proof fn lemma_one_tool_at_a_time<F, C>(s: ArgsView<F, C>, msg: DrawMsg<F>)
    requires
        s.annotations.tools_consistent(),
    ensures
        draw_step(s, msg).annotations.tools_consistent(),
{
    match msg {
        DrawMsg::Arrow(a) => {
            lemma_tool_step_consistent(s, Tool::Arrow, a);
            assert(draw_step(s, msg) == tool_step(s, Tool::Arrow, a));
        },
        DrawMsg::Circle(a) => lemma_tool_step_consistent(s, Tool::Circle, a),
        DrawMsg::Rectangle(a) => lemma_tool_step_consistent(s, Tool::Rectangle, a),
        DrawMsg::Line(a) => lemma_tool_step_consistent(s, Tool::Line, a),
        DrawMsg::Pencil(a) => lemma_tool_step_consistent(s, Tool::Pencil, a),
        DrawMsg::Magnifier(a) => lemma_tool_step_consistent(s, Tool::Magnifier, a),
        DrawMsg::Redact(a) => lemma_tool_step_consistent(s, Tool::Redact, a),
        DrawMsg::Pixelate(a) => lemma_tool_step_consistent(s, Tool::Pixelate, a),
        _ => {
            let a = s.annotations;
            let a2 = draw_step(s, msg).annotations;
            assert forall|u: Tool| #[trigger] a2.mode_of(u) == a.mode_of(u) by {}
            assert forall|u: Tool| #[trigger] a2.drawing_of(u) implies a.drawing_of(u) || a.mode_of(u) by {}
            lemma_consistent_after(a, a2);
        },
    }
}

/// Filtering keeps only elements of the filtered sequence, so strokes stay visible.
proof fn lemma_filter_keeps_strokes_visible<F, C>(
    h: Seq<AnnotationView<F, C>>,
    pred: spec_fn(AnnotationView<F, C>) -> bool,
)
    requires
        strokes_visible(h),
    ensures
        strokes_visible(h.filter(pred)),
{
    let f = h.filter(pred);
    assert forall|i: int| 0 <= i < f.len() && (#[trigger] f[i]) is Pencil implies f[i]->Pencil_0.points.len() >= 2 by {
        assert(f.contains(f[i]));
        h.lemma_filter_contains_rev(pred, f[i]);
        let j = choose|j: int| 0 <= j < h.len() && h[j] == f[i];
        assert(h[j] is Pencil);
    }
}

/// A pencil stroke with fewer than two points never enters the history or
/// the redo stack: every drawing message keeps all committed strokes visible.
pub proof fn lemma_strokes_stay_visible<F, C>(s: ArgsView<F, C>, msg: DrawMsg<F>)
    requires
        strokes_visible(s.annotations.history),
        strokes_visible(s.annotations.redo_stack),
    ensures
        strokes_visible(draw_step(s, msg).annotations.history),
        strokes_visible(draw_step(s, msg).annotations.redo_stack),
{
    let h = s.annotations.history;
    let r = s.annotations.redo_stack;
    let s2 = draw_step(s, msg);
    match msg {
        DrawMsg::ClearShapes => {
            lemma_filter_keeps_strokes_visible(h, redaction_pred());
            lemma_filter_keeps_strokes_visible(r, redaction_pred());
        },
        DrawMsg::ClearRedactions => {
            lemma_filter_keeps_strokes_visible(h, shape_pred());
            lemma_filter_keeps_strokes_visible(r, shape_pred());
        },
        DrawMsg::Undo => {
            if h.len() > 0 {
                assert(strokes_visible(s2.annotations.redo_stack)) by {
                    assert forall|i: int| 0 <= i < s2.annotations.redo_stack.len()
                        && (#[trigger] s2.annotations.redo_stack[i]) is Pencil implies
                        s2.annotations.redo_stack[i]->Pencil_0.points.len() >= 2 by {
                        if i < r.len() {
                            assert(s2.annotations.redo_stack[i] == r[i]);
                        } else {
                            assert(s2.annotations.redo_stack[i] == h[h.len() - 1]);
                        }
                    }
                }
                assert(strokes_visible(s2.annotations.history)) by {
                    assert forall|i: int| 0 <= i < s2.annotations.history.len()
                        && (#[trigger] s2.annotations.history[i]) is Pencil implies
                        s2.annotations.history[i]->Pencil_0.points.len() >= 2 by {
                        assert(s2.annotations.history[i] == h[i]);
                    }
                }
            }
        },
        DrawMsg::Redo => {
            if r.len() > 0 {
                assert(strokes_visible(s2.annotations.history)) by {
                    assert forall|i: int| 0 <= i < s2.annotations.history.len()
                        && (#[trigger] s2.annotations.history[i]) is Pencil implies
                        s2.annotations.history[i]->Pencil_0.points.len() >= 2 by {
                        if i < h.len() {
                            assert(s2.annotations.history[i] == h[i]);
                        } else {
                            assert(s2.annotations.history[i] == r[r.len() - 1]);
                        }
                    }
                }
                assert(strokes_visible(s2.annotations.redo_stack)) by {
                    assert forall|i: int| 0 <= i < s2.annotations.redo_stack.len()
                        && (#[trigger] s2.annotations.redo_stack[i]) is Pencil implies
                        s2.annotations.redo_stack[i]->Pencil_0.points.len() >= 2 by {
                        assert(s2.annotations.redo_stack[i] == r[i]);
                    }
                }
            }
        },
        DrawMsg::MagnifierMove(i, c) | DrawMsg::MagnifierResize(i, c) => {
            assert(strokes_visible(s2.annotations.history)) by {
                assert forall|j: int| 0 <= j < s2.annotations.history.len()
                    && (#[trigger] s2.annotations.history[j]) is Pencil implies
                    s2.annotations.history[j]->Pencil_0.points.len() >= 2 by {
                    assert(s2.annotations.history[j] == h[j]);
                }
            }
        },
        DrawMsg::MagnifierSetZoom(i, z) => {
            assert(strokes_visible(s2.annotations.history)) by {
                assert forall|j: int| 0 <= j < s2.annotations.history.len()
                    && (#[trigger] s2.annotations.history[j]) is Pencil implies
                    s2.annotations.history[j]->Pencil_0.points.len() >= 2 by {
                    assert(s2.annotations.history[j] == h[j]);
                }
            }
        },
        DrawMsg::Arrow(a) => lemma_tool_step_strokes(s, Tool::Arrow, a),
        DrawMsg::Circle(a) => lemma_tool_step_strokes(s, Tool::Circle, a),
        DrawMsg::Rectangle(a) => lemma_tool_step_strokes(s, Tool::Rectangle, a),
        DrawMsg::Line(a) => lemma_tool_step_strokes(s, Tool::Line, a),
        DrawMsg::Pencil(a) => lemma_tool_step_strokes(s, Tool::Pencil, a),
        DrawMsg::Magnifier(a) => lemma_tool_step_strokes(s, Tool::Magnifier, a),
        DrawMsg::Redact(a) => lemma_tool_step_strokes(s, Tool::Redact, a),
        DrawMsg::Pixelate(a) => lemma_tool_step_strokes(s, Tool::Pixelate, a),
        DrawMsg::MagnifierSelect(_) => {},
    }
}

/// Pushing an annotation that is not a short stroke keeps strokes visible.
proof fn lemma_strokes_push<F, C>(h: Seq<AnnotationView<F, C>>, x: AnnotationView<F, C>)
    requires
        strokes_visible(h),
        x is Pencil ==> x->Pencil_0.points.len() >= 2,
    ensures
        strokes_visible(h.push(x)),
{
    assert forall|i: int| 0 <= i < h.push(x).len() && (#[trigger] h.push(x)[i]) is Pencil implies
        h.push(x)[i]->Pencil_0.points.len() >= 2 by {
        if i < h.len() {
            assert(h.push(x)[i] == h[i]);
        }
    }
}

/// One pointer action keeps all committed strokes visible.
#[verifier::rlimit(40)]
proof fn lemma_tool_step_strokes<F, C>(s: ArgsView<F, C>, t: Tool, action: DrawAction<F>)
    requires
        strokes_visible(s.annotations.history),
        strokes_visible(s.annotations.redo_stack),
    ensures
        strokes_visible(tool_step(s, t, action).annotations.history),
        strokes_visible(tool_step(s, t, action).annotations.redo_stack),
{
    let h = s.annotations.history;
    let a2 = tool_step(s, t, action).annotations;
    let empty = Seq::<AnnotationView<F, C>>::empty();
    match action {
        DrawAction::ModeToggle => {
            if s.annotations.mode_of(t) {
                assert(s.annotations.with_mode(t, false).history == h);
                assert(s.annotations.with_mode(t, false).redo_stack == s.annotations.redo_stack);
            } else {
                assert(s.annotations.with_mode(t, true).history == h);
                assert(s.annotations.with_mode(t, true).redo_stack == s.annotations.redo_stack);
            }
        },
        DrawAction::Start(x, y) => {
            assert(s.annotations.with_drag(t, Some((x, y))).history == h);
            assert(s.annotations.with_drag(t, Some((x, y))).redo_stack == s.annotations.redo_stack);
        },
        DrawAction::Move(..) => {},
        DrawAction::End(x, y, facts) => {
            assert(strokes_visible(empty));
            if t == Tool::Pencil {
                if let Some(pts) = s.annotations.pencil_drawing {
                    let pts2 = if pts.len() == 0 || !facts.same_as_last_point {
                        pts.push((x, y))
                    } else {
                        pts
                    };
                    if pts2.len() >= 2 {
                        lemma_strokes_push(h, AnnotationView::Pencil(PencilView {
                            points: pts2,
                            color: s.ui.shape_color,
                            shadow: s.ui.shape_shadow,
                            thickness: s.ui.shape_thickness,
                        }));
                    }
                }
            } else if let Some((sx, sy)) = s.annotations.drag_of(t) {
                assert(s.annotations.with_drag(t, None).history == h);
                lemma_strokes_push(h, dragged_annotation(t, sx, sy, x, y, facts, s.ui));
            }
        },
    }
}

/// Redo after undo gives back the session exactly as it was, when there was
/// something to undo.
pub proof fn lemma_redo_reverts_undo<F, C>(s: ArgsView<F, C>)
    requires
        s.annotations.history.len() > 0,
    ensures
        draw_step(draw_step(s, DrawMsg::Undo), DrawMsg::Redo) == s,
{
    let s2 = draw_step(draw_step(s, DrawMsg::Undo), DrawMsg::Redo);
    assert(s2.annotations.history =~= s.annotations.history);
    assert(s2.annotations.redo_stack =~= s.annotations.redo_stack);
}

/// Undo after redo gives back the session exactly as it was, when there was
/// something to redo.
pub proof fn lemma_undo_reverts_redo<F, C>(s: ArgsView<F, C>)
    requires
        s.annotations.redo_stack.len() > 0,
    ensures
        draw_step(draw_step(s, DrawMsg::Redo), DrawMsg::Undo) == s,
{
    let s2 = draw_step(draw_step(s, DrawMsg::Redo), DrawMsg::Undo);
    assert(s2.annotations.history =~= s.annotations.history);
    assert(s2.annotations.redo_stack =~= s.annotations.redo_stack);
}

/// With a two-point tool active, a drag from (sx, sy) to (x, y) commits
/// exactly one annotation with those points and the current style, on top of
/// the history; nothing is left to redo and no drag remains in progress.
pub proof fn lemma_drag_commits_one_annotation<F, C>(
    s: ArgsView<F, C>,
    t: Tool,
    sx: F,
    sy: F,
    x: F,
    y: F,
    facts: EndFacts,
)
    requires
        t != Tool::Pencil,
        s.annotations.mode_of(t),
    ensures
        ({
            let s2 = draw_step(
                draw_step(s, tool_msg(t, DrawAction::Start(sx, sy))),
                tool_msg(t, DrawAction::End(x, y, facts)),
            );
            &&& s2.annotations.history == s.annotations.history.push(
                dragged_annotation(t, sx, sy, x, y, facts, s.ui),
            )
            &&& s2.annotations.redo_stack.len() == 0
            &&& !s2.annotations.drawing_of(t)
            &&& s2.annotations.mode_of(t)
        }),
{
}

/// Committing a drag with a two-point tool appends the new annotation to the
/// list of that tool's kind; the list of every other kind, text labels
/// included, stays as it was.
pub proof fn lemma_commit_extends_only_its_kind<F, C>(
    s: ArgsView<F, C>,
    t: Tool,
    x: F,
    y: F,
    facts: EndFacts,
    other: Tool,
)
    requires
        t != Tool::Pencil,
        s.annotations.drag_of(t) is Some,
    ensures
        ({
            let (sx, sy) = s.annotations.drag_of(t)->0;
            let h = s.annotations.history;
            let h2 = draw_step(s, tool_msg(t, DrawAction::End(x, y, facts))).annotations.history;
            &&& kind_list(h2, t) == kind_list(h, t).push(dragged_annotation(t, sx, sy, x, y, facts, s.ui))
            &&& other != t ==> kind_list(h2, other) == kind_list(h, other)
            &&& texts(h2) == texts(h)
        }),
{
    let (sx, sy) = s.annotations.drag_of(t)->0;
    let h = s.annotations.history;
    let a0 = dragged_annotation(t, sx, sy, x, y, facts, s.ui);
    let s1 = draw_step(s, tool_msg(t, DrawAction::End(x, y, facts)));
    assert(s1 == ended(s, t, x, y, facts));
    assert(s1.annotations.history == h.push(a0));
    h.lemma_filter_push(a0, made_by(t));
    h.lemma_filter_push(a0, made_by(other));
    let is_text = |a: AnnotationView<F, C>| a is Text;
    h.lemma_filter_push(a0, is_text);
    assert(!is_text(a0));
    assert(made_by::<F, C>(t)(a0));
    assert(other != t ==> !made_by::<F, C>(other)(a0));
}

/// Undo right after a drag is committed takes exactly that annotation off the
/// history and onto the redo stack.
pub proof fn lemma_undo_takes_back_commit<F, C>(s: ArgsView<F, C>, t: Tool, x: F, y: F, facts: EndFacts)
    requires
        t != Tool::Pencil,
        s.annotations.drag_of(t) is Some,
    ensures
        ({
            let (sx, sy) = s.annotations.drag_of(t)->0;
            let s2 = draw_step(draw_step(s, tool_msg(t, DrawAction::End(x, y, facts))), DrawMsg::Undo);
            &&& s2.annotations.history == s.annotations.history
            &&& s2.annotations.redo_stack == seq![dragged_annotation(t, sx, sy, x, y, facts, s.ui)]
        }),
{
    let (sx, sy) = s.annotations.drag_of(t)->0;
    let a0 = dragged_annotation(t, sx, sy, x, y, facts, s.ui);
    let s1 = draw_step(s, tool_msg(t, DrawAction::End(x, y, facts)));
    assert(s1 == ended(s, t, x, y, facts));
    assert(s1.annotations.history == s.annotations.history.push(a0));
    assert(s1.annotations.redo_stack.len() == 0);
    let s2 = draw_step(s1, DrawMsg::Undo);
    assert(s2.annotations.history =~= s.annotations.history);
    assert(s2.annotations.redo_stack =~= seq![dragged_annotation(t, sx, sy, x, y, facts, s.ui)]);
}

/// A finished redaction drag stores the box with its top-left corner in
/// (x, y) and its bottom-right corner in (x2, y2): each coordinate is taken
/// from the start or the end point as the caller's comparison of the two
/// points says.
pub proof fn lemma_redaction_box_corners<F, C>(s: ArgsView<F, C>, x: F, y: F, facts: EndFacts)
    requires
        s.annotations.redact_drawing is Some,
    ensures
        ({
            let (sx, sy) = s.annotations.redact_drawing->0;
            let h = draw_step(s, DrawMsg::Redact(DrawAction::End(x, y, facts))).annotations.history;
            &&& h.len() == s.annotations.history.len() + 1
            &&& h.last() is Redact
            &&& h.last()->Redact_0.x == if facts.start_left_of_end { sx } else { x }
            &&& h.last()->Redact_0.x2 == if facts.start_left_of_end { x } else { sx }
            &&& h.last()->Redact_0.y == if facts.start_above_end { sy } else { y }
            &&& h.last()->Redact_0.y2 == if facts.start_above_end { y } else { sy }
        }),
{
}

/// A finished pixelation drag stores its box the same way, top-left corner
/// first, with the block size from the UI settings.
pub proof fn lemma_pixelation_box_corners<F, C>(s: ArgsView<F, C>, x: F, y: F, facts: EndFacts)
    requires
        s.annotations.pixelate_drawing is Some,
    ensures
        ({
            let (sx, sy) = s.annotations.pixelate_drawing->0;
            let h = draw_step(s, DrawMsg::Pixelate(DrawAction::End(x, y, facts))).annotations.history;
            &&& h.len() == s.annotations.history.len() + 1
            &&& h.last() is Pixelate
            &&& h.last()->Pixelate_0.x == if facts.start_left_of_end { sx } else { x }
            &&& h.last()->Pixelate_0.x2 == if facts.start_left_of_end { x } else { sx }
            &&& h.last()->Pixelate_0.y == if facts.start_above_end { sy } else { y }
            &&& h.last()->Pixelate_0.y2 == if facts.start_above_end { y } else { sy }
            &&& h.last()->Pixelate_0.block_size == s.ui.pixelation_block_size
        }),
{
}

/// Only the pencil tracks intermediate drag positions: a move with any other
/// tool changes nothing.
pub proof fn lemma_only_pencil_tracks_moves<F, C>(s: ArgsView<F, C>, t: Tool, x: F, y: F, far_enough: bool)
    requires
        t != Tool::Pencil,
    ensures
        draw_step(s, tool_msg(t, DrawAction::Move(x, y, far_enough))) == s,
{
}

/// Ending a drag that was never started changes nothing.
pub proof fn lemma_end_without_drag_is_noop<F, C>(s: ArgsView<F, C>, t: Tool, x: F, y: F, facts: EndFacts)
    requires
        !s.annotations.drawing_of(t),
    ensures
        draw_step(s, tool_msg(t, DrawAction::End(x, y, facts))) == s,
{
}

/// A magnifier just drawn becomes the selected one: the selection names it
/// among the magnifiers.
pub proof fn lemma_new_magnifier_is_selected<F, C>(s: ArgsView<F, C>, x: F, y: F, facts: EndFacts)
    requires
        s.annotations.magnifier_drawing is Some,
    ensures
        ({
            let (sx, sy) = s.annotations.magnifier_drawing->0;
            let s2 = draw_step(s, DrawMsg::Magnifier(DrawAction::End(x, y, facts)));
            &&& s2.annotations.selected_magnifier == Some(magnifier_count(s.annotations.history) as usize)
            &&& nth_magnifier(s2.annotations.history, magnifier_count(s.annotations.history) as int)
                == Some(dragged_annotation(Tool::Magnifier, sx, sy, x, y, facts, s.ui)->Magnifier_0)
            &&& s2.annotations.selected_magnifier == Some((magnifiers(s2.annotations.history).len() - 1) as usize)
            &&& magnifiers(s2.annotations.history).last()
                == dragged_annotation(Tool::Magnifier, sx, sy, x, y, facts, s.ui)->Magnifier_0
        }),
{
    let (sx, sy) = s.annotations.magnifier_drawing->0;
    lemma_pushed_magnifier_is_last(
        s.annotations.history,
        dragged_annotation(Tool::Magnifier, sx, sy, x, y, facts, s.ui)->Magnifier_0,
    );
    let s2 = draw_step(s, DrawMsg::Magnifier(DrawAction::End(x, y, facts)));
    lemma_nth_magnifier_is_listed(s2.annotations.history, magnifier_count(s.annotations.history) as int);
}

/// Switching an inactive tool on makes it the only active tool, ends every
/// other drag and drops the detection results.
pub proof fn lemma_toggle_on_activates_only_that_tool<F, C>(s: ArgsView<F, C>, t: Tool)
    requires
        !s.annotations.mode_of(t),
    ensures
        ({
            let s2 = draw_step(s, tool_msg(t, DrawAction::ModeToggle));
            &&& forall|u: Tool| #[trigger] s2.annotations.mode_of(u) <==> u == t
            &&& forall|u: Tool| u != t ==> !#[trigger] s2.annotations.drawing_of(u)
            &&& s2.detection == no_detection()
        }),
{
}

/// Switching the active tool off leaves no tool active (when at most one was)
/// and discards its drag.
pub proof fn lemma_toggle_off_deactivates<F, C>(s: ArgsView<F, C>, t: Tool)
    requires
        s.annotations.mode_of(t),
        s.annotations.tools_consistent(),
    ensures
        ({
            let s2 = draw_step(s, tool_msg(t, DrawAction::ModeToggle));
            &&& forall|u: Tool| !#[trigger] s2.annotations.mode_of(u)
            &&& !s2.annotations.drawing_of(t)
            &&& s2.detection == s.detection
        }),
{
    lemma_tool_off_effect(s.annotations, t);
}

/// Clearing shapes leaves only redactions, and keeps every redaction.
pub proof fn lemma_clear_shapes_keeps_redactions<F, C>(s: ArgsView<F, C>)
    ensures
        ({
            let h2 = draw_step(s, DrawMsg::ClearShapes).annotations.history;
            &&& forall|i: int| 0 <= i < h2.len() ==> (#[trigger] h2[i]).is_redaction()
            &&& forall|i: int| 0 <= i < s.annotations.history.len()
                && (#[trigger] s.annotations.history[i]).is_redaction() ==> h2.contains(
                s.annotations.history[i],
            )
        }),
{
    let h = s.annotations.history;
    let h2 = draw_step(s, DrawMsg::ClearShapes).annotations.history;
    assert forall|i: int| 0 <= i < h2.len() implies (#[trigger] h2[i]).is_redaction() by {
        h.lemma_filter_pred(redaction_pred(), i);
    }
    assert forall|i: int| 0 <= i < h.len() && (#[trigger] h[i]).is_redaction() implies h2.contains(h[i]) by {
        h.lemma_filter_contains(redaction_pred(), i);
    }
}

/// Clearing redactions leaves only shapes, and keeps every shape.
pub proof fn lemma_clear_redactions_keeps_shapes<F, C>(s: ArgsView<F, C>)
    ensures
        ({
            let h2 = draw_step(s, DrawMsg::ClearRedactions).annotations.history;
            &&& forall|i: int| 0 <= i < h2.len() ==> (#[trigger] h2[i]).is_shape()
            &&& forall|i: int| 0 <= i < s.annotations.history.len()
                && (#[trigger] s.annotations.history[i]).is_shape() ==> h2.contains(
                s.annotations.history[i],
            )
        }),
{
    let h = s.annotations.history;
    let h2 = draw_step(s, DrawMsg::ClearRedactions).annotations.history;
    assert forall|i: int| 0 <= i < h2.len() implies (#[trigger] h2[i]).is_shape() by {
        h.lemma_filter_pred(shape_pred(), i);
    }
    assert forall|i: int| 0 <= i < h.len() && (#[trigger] h[i]).is_shape() implies h2.contains(h[i]) by {
        h.lemma_filter_contains(shape_pred(), i);
    }
}

/// Drawing messages never touch the selection of what to capture, the UI
/// settings or a text label being typed.
pub proof fn lemma_draw_leaves_session_and_text_alone<F, C>(s: ArgsView<F, C>, msg: DrawMsg<F>)
    ensures
        draw_step(s, msg).session == s.session,
        draw_step(s, msg).ui == s.ui,
        draw_step(s, msg).annotations.text_editing == s.annotations.text_editing,
{
    match msg {
        DrawMsg::Arrow(a) => lemma_tool_step_leaves_session_alone(s, Tool::Arrow, a),
        DrawMsg::Circle(a) => lemma_tool_step_leaves_session_alone(s, Tool::Circle, a),
        DrawMsg::Rectangle(a) => lemma_tool_step_leaves_session_alone(s, Tool::Rectangle, a),
        DrawMsg::Line(a) => lemma_tool_step_leaves_session_alone(s, Tool::Line, a),
        DrawMsg::Pencil(a) => lemma_tool_step_leaves_session_alone(s, Tool::Pencil, a),
        DrawMsg::Magnifier(a) => lemma_tool_step_leaves_session_alone(s, Tool::Magnifier, a),
        DrawMsg::Redact(a) => lemma_tool_step_leaves_session_alone(s, Tool::Redact, a),
        DrawMsg::Pixelate(a) => lemma_tool_step_leaves_session_alone(s, Tool::Pixelate, a),
        _ => {},
    }
}

proof fn lemma_tool_step_leaves_session_alone<F, C>(s: ArgsView<F, C>, t: Tool, action: DrawAction<F>)
    ensures
        tool_step(s, t, action).session == s.session,
        tool_step(s, t, action).ui == s.ui,
        tool_step(s, t, action).annotations.text_editing == s.annotations.text_editing,
{
    match action {
        DrawAction::ModeToggle => {
            if s.annotations.mode_of(t) {
                assert(s.annotations.with_mode(t, false).text_editing == s.annotations.text_editing);
            } else {
                assert(s.annotations.with_mode(t, true).text_editing == s.annotations.text_editing);
            }
        },
        DrawAction::Start(x, y) => {
            assert(s.annotations.with_drag(t, Some((x, y))).text_editing == s.annotations.text_editing);
        },
        DrawAction::Move(..) => {},
        DrawAction::End(..) => {
            assert(s.annotations.with_drag(t, None).text_editing == s.annotations.text_editing);
        },
    }
}


/// The points of the pencil moves whose flag says that they lie far enough
/// from the last sampled point, in order.
pub open spec fn kept_points<F>(moves: Seq<((F, F), bool)>) -> Seq<(F, F)>
    decreases moves.len(),
{
    if moves.len() == 0 {
        Seq::empty()
    } else {
        let rest = kept_points(moves.drop_last());
        if moves.last().1 {
            rest.push(moves.last().0)
        } else {
            rest
        }
    }
}

/// The points that a stroke started at `p0` has sampled after `moves`.
pub open spec fn pencil_samples<F>(p0: (F, F), moves: Seq<((F, F), bool)>) -> Seq<(F, F)> {
    seq![p0] + kept_points(moves)
}

/// The points of a finished stroke: its samples, and the end point unless it
/// repeats the last sample.
pub open spec fn stroke_points<F>(
    p0: (F, F),
    moves: Seq<((F, F), bool)>,
    pe: (F, F),
    same_as_last: bool,
) -> Seq<(F, F)> {
    if same_as_last {
        pencil_samples(p0, moves)
    } else {
        pencil_samples(p0, moves).push(pe)
    }
}

/// The points of the pencil moves, flags dropped.
pub open spec fn move_points<F>(moves: Seq<((F, F), bool)>) -> Seq<(F, F)> {
    moves.map_values(|m: ((F, F), bool)| m.0)
}

/// Every point the pointer reported during a stroke: the start point, each
/// move's point and the end point.
pub open spec fn reported_points<F>(p0: (F, F), moves: Seq<((F, F), bool)>, pe: (F, F)) -> Seq<(F, F)> {
    seq![p0] + move_points(moves) + seq![pe]
}

/// For each sampled point, its position among the start point and the move points.
pub open spec fn sample_sources<F>(moves: Seq<((F, F), bool)>) -> Seq<int>
    decreases moves.len(),
{
    if moves.len() == 0 {
        seq![0int]
    } else {
        let rest = sample_sources(moves.drop_last());
        if moves.last().1 {
            rest.push(moves.len() as int)
        } else {
            rest
        }
    }
}

/// For each point of a finished stroke, its position among the reported points.
pub open spec fn stroke_sources<F>(moves: Seq<((F, F), bool)>, same_as_last: bool) -> Seq<int> {
    if same_as_last {
        sample_sources(moves)
    } else {
        sample_sources(moves).push(moves.len() + 1int)
    }
}

/// The session after the pencil moves are handled in order, each with its
/// far-enough flag.
pub open spec fn after_pencil_moves<F, C>(s: ArgsView<F, C>, moves: Seq<((F, F), bool)>) -> ArgsView<F, C>
    decreases moves.len(),
{
    if moves.len() == 0 {
        s
    } else {
        let m = moves.last();
        draw_step(
            after_pencil_moves(s, moves.drop_last()),
            DrawMsg::Pencil(DrawAction::Move(m.0.0, m.0.1, m.1)),
        )
    }
}

/// During a stroke, the moves add exactly their flagged points to the samples
/// and change nothing else.
proof fn lemma_after_pencil_moves<F, C>(s: ArgsView<F, C>, moves: Seq<((F, F), bool)>)
    requires
        s.annotations.pencil_drawing is Some,
        s.annotations.pencil_drawing->0.len() > 0,
    ensures
        after_pencil_moves(s, moves) == (ArgsView {
            annotations: AnnotationsView {
                pencil_drawing: Some(s.annotations.pencil_drawing->0 + kept_points(moves)),
                ..s.annotations
            },
            ..s
        }),
    decreases moves.len(),
{
    let pts = s.annotations.pencil_drawing->0;
    if moves.len() == 0 {
        assert(pts + kept_points(moves) =~= pts);
    } else {
        lemma_after_pencil_moves(s, moves.drop_last());
        let m = moves.last();
        let kp = kept_points(moves.drop_last());
        let prev = after_pencil_moves(s, moves.drop_last());
        assert(prev.annotations.pencil_drawing == Some(pts + kp));
        assert(after_pencil_moves(s, moves) == pencil_moved(prev, m.0.0, m.0.1, m.1));
        if m.1 {
            assert(pts + kp.push(m.0) =~= (pts + kp).push((m.0.0, m.0.1)));
        }
    }
}

/// With honest flags, the samples start at `p0`, come in order from the start
/// and move points, and each lies far enough from the one before it.
proof fn lemma_pencil_samples<F>(
    p0: (F, F),
    moves: Seq<((F, F), bool)>,
    far: spec_fn((F, F), (F, F)) -> bool,
)
    requires
        forall|j: int|
            0 <= j < moves.len() ==> #[trigger] moves[j].1 == far(
                pencil_samples(p0, moves.take(j)).last(),
                moves[j].0,
            ),
    ensures
        ({
            let q = pencil_samples(p0, moves);
            let src = sample_sources(moves);
            let all = seq![p0] + move_points(moves);
            &&& src.len() == q.len()
            &&& src[0] == 0
            &&& forall|i: int, k: int| 0 <= i < k < src.len() ==> src[i] < src[k]
            &&& forall|i: int| 0 <= i < src.len() ==> 0 <= #[trigger] src[i] < all.len() && q[i] == all[src[i]]
            &&& forall|i: int| #![trigger q[i]] 1 <= i < q.len() ==> far(q[i - 1], q[i])
        }),
    decreases moves.len(),
{
    let q = pencil_samples(p0, moves);
    let src = sample_sources(moves);
    let all = seq![p0] + move_points(moves);
    if moves.len() == 0 {
        assert(q =~= seq![p0]);
        assert(all =~= seq![p0]);
    } else {
        let n = moves.len();
        let prev = moves.drop_last();
        assert forall|j: int| 0 <= j < prev.len() implies #[trigger] prev[j].1 == far(
            pencil_samples(p0, prev.take(j)).last(),
            prev[j].0,
        ) by {
            assert(prev.take(j) =~= moves.take(j));
            assert(prev[j] == moves[j]);
        }
        lemma_pencil_samples(p0, prev, far);
        let q1 = pencil_samples(p0, prev);
        let src1 = sample_sources(prev);
        let all1 = seq![p0] + move_points(prev);
        let m = moves.last();
        assert(all =~= all1.push(m.0));
        assert(moves.take(n - 1) =~= prev);
        assert(moves[n - 1].1 == far(q1.last(), m.0));
        if m.1 {
            assert(q =~= q1.push(m.0));
            assert(src == src1.push(n as int));
            assert forall|i: int| 0 <= i < src.len() implies 0 <= #[trigger] src[i] < all.len() && q[i] == all[src[i]] by {
                if i < src1.len() {
                    assert(src[i] == src1[i]);
                    assert(all[src1[i]] == all1[src1[i]]);
                } else {
                    assert(all[n as int] == m.0);
                }
            }
            assert forall|i: int| #![trigger q[i]] 1 <= i < q.len() implies far(q[i - 1], q[i]) by {
                if i < q1.len() {
                    assert(q[i] == q1[i]);
                    assert(q[i - 1] == q1[i - 1]);
                }
            }
        } else {
            assert(q =~= q1);
            assert(src == src1);
            assert forall|i: int| 0 <= i < src.len() implies 0 <= #[trigger] src[i] < all.len() && q[i] == all[src[i]] by {
                assert(all[src1[i]] == all1[src1[i]]);
            }
        }
    }
}


/// A pencil stroke drawn with the pencil active, from a start at `p0` through
/// `moves` to an end at `pe`, with no other message between: the committed
/// stroke starts at `p0` and ends at `pe`; its points come in order from the
/// points the pointer reported; each point lies at least the minimum sampling
/// step from the one before it, except that the end point may lie closer; and
/// the end point never repeats the point before it. A stroke of fewer than two
/// points is dropped and leaves the history as it was.
///
/// `far` is the relation "at least the minimum step apart" by which each
/// move's flag was computed against the last sampled point, and by which the
/// end point was found to repeat the last sampled point or not; no point is
/// far from itself.
pub proof fn lemma_pencil_stroke<F, C>(
    s: ArgsView<F, C>,
    p0: (F, F),
    moves: Seq<((F, F), bool)>,
    pe: (F, F),
    facts: EndFacts,
    far: spec_fn((F, F), (F, F)) -> bool,
)
    requires
        s.annotations.pencil_mode,
        forall|a: (F, F)| !#[trigger] far(a, a),
        forall|j: int|
            0 <= j < moves.len() ==> #[trigger] moves[j].1 == far(
                pencil_samples(p0, moves.take(j)).last(),
                moves[j].0,
            ),
        facts.same_as_last_point == (pe == pencil_samples(p0, moves).last()),
    ensures
        ({
            let s1 = draw_step(s, DrawMsg::Pencil(DrawAction::Start(p0.0, p0.1)));
            let s2 = draw_step(
                after_pencil_moves(s1, moves),
                DrawMsg::Pencil(DrawAction::End(pe.0, pe.1, facts)),
            );
            let q = stroke_points(p0, moves, pe, facts.same_as_last_point);
            let src = stroke_sources(moves, facts.same_as_last_point);
            let all = reported_points(p0, moves, pe);
            &&& s2.annotations.pencil_drawing is None
            &&& q.len() >= 2 ==> s2.annotations.history == s.annotations.history.push(
                AnnotationView::Pencil(
                    PencilView {
                        points: q,
                        color: s.ui.shape_color,
                        shadow: s.ui.shape_shadow,
                        thickness: s.ui.shape_thickness,
                    },
                ),
            ) && s2.annotations.redo_stack.len() == 0
            &&& q.len() < 2 ==> s2.annotations.history == s.annotations.history
                && s2.annotations.redo_stack == s.annotations.redo_stack
            &&& q[0] == p0
            &&& q.last() == pe
            &&& src.len() == q.len()
            &&& forall|i: int, k: int| 0 <= i < k < src.len() ==> src[i] < src[k]
            &&& forall|i: int| 0 <= i < src.len() ==> 0 <= #[trigger] src[i] < all.len() && q[i] == all[src[i]]
            &&& forall|i: int| #![trigger q[i]] 1 <= i < q.len() - 1 ==> far(q[i - 1], q[i])
            &&& q.len() >= 2 ==> q[q.len() - 2] != q[q.len() - 1]
        }),
{
    let same = facts.same_as_last_point;
    let s1 = draw_step(s, DrawMsg::Pencil(DrawAction::Start(p0.0, p0.1)));
    assert(s1.annotations.pencil_drawing == Some(seq![p0]));
    lemma_after_pencil_moves(s1, moves);
    let s3 = after_pencil_moves(s1, moves);
    let samples = pencil_samples(p0, moves);
    assert(s3.annotations.pencil_drawing == Some(samples));
    assert(s3.annotations.history == s.annotations.history);
    assert(s3.annotations.redo_stack == s.annotations.redo_stack);
    assert(s3.ui == s.ui);
    let s2 = draw_step(s3, DrawMsg::Pencil(DrawAction::End(pe.0, pe.1, facts)));
    assert(s2 == pencil_ended(s3, pe.0, pe.1, same));
    let q = stroke_points(p0, moves, pe, same);
    lemma_pencil_samples(p0, moves, far);
    let src = stroke_sources(moves, same);
    let src0 = sample_sources(moves);
    let all = reported_points(p0, moves, pe);
    let all0 = seq![p0] + move_points(moves);
    assert(all =~= all0.push(pe));
    assert(samples[0] == p0);
    if same {
        assert(q == samples);
        assert(src == src0);
        assert forall|i: int| 0 <= i < src.len() implies 0 <= #[trigger] src[i] < all.len() && q[i] == all[src[i]] by {
            assert(all[src0[i]] == all0[src0[i]]);
        }
        if q.len() >= 2 {
            assert(far(q[q.len() - 2], q[q.len() - 1]));
        }
    } else {
        assert(q == samples.push((pe.0, pe.1)));
        assert(src == src0.push(moves.len() + 1int));
        assert forall|i: int| 0 <= i < src.len() implies 0 <= #[trigger] src[i] < all.len() && q[i] == all[src[i]] by {
            if i < src0.len() {
                assert(src[i] == src0[i]);
                assert(all[src0[i]] == all0[src0[i]]);
                assert(q[i] == samples[i]);
            }
        }
        assert forall|i: int| #![trigger q[i]] 1 <= i < q.len() - 1 implies far(q[i - 1], q[i]) by {
            assert(q[i] == samples[i]);
            assert(q[i - 1] == samples[i - 1]);
        }
    }
}


/// Moving or resizing the magnifier with index `i` selects it and gives it
/// exactly the new corners, keeping its zoom and style; no other entry of the
/// history and no other magnifier changes. An index that names no magnifier
/// only changes the selection.
pub proof fn lemma_magnifier_edit_sets_corners<F, C>(s: ArgsView<F, C>, i: usize, c: Corners<F>, resize: bool)
    ensures
        ({
            let msg = if resize {
                DrawMsg::MagnifierResize(i, c)
            } else {
                DrawMsg::MagnifierMove(i, c)
            };
            let s2 = draw_step(s, msg);
            let h = s.annotations.history;
            let h2 = s2.annotations.history;
            &&& s2.annotations.selected_magnifier == Some(i)
            &&& h2.len() == h.len()
            &&& s2.annotations.redo_stack == s.annotations.redo_stack
            &&& forall|j: int| 0 <= j < h.len() && !is_nth_magnifier(h, j, i as int) ==> #[trigger] h2[j] == h[j]
            &&& forall|k: int| k != i ==> #[trigger] nth_magnifier(h2, k) == nth_magnifier(h, k)
            &&& nth_magnifier(h, i as int) is None ==> h2 == h
            &&& nth_magnifier(h, i as int) matches Some(m) ==> nth_magnifier(h2, i as int) == Some(
                MagnifierAnnotation {
                    start_x: c.start_x,
                    start_y: c.start_y,
                    end_x: c.end_x,
                    end_y: c.end_y,
                    magnification: m.magnification,
                    color: m.color,
                    shadow: m.shadow,
                },
            )
        }),
{
    lemma_magnifier_reshaped(s.annotations.history, i as int, c.start_x, c.start_y, c.end_x, c.end_y);
}

/// Setting the zoom of the magnifier with index `i` selects it and gives it
/// exactly that zoom, keeping its corners and style; no other entry of the
/// history and no other magnifier changes. An index that names no magnifier
/// only changes the selection.
pub proof fn lemma_magnifier_zoom_sets_zoom<F, C>(s: ArgsView<F, C>, i: usize, zoom: F)
    ensures
        ({
            let s2 = draw_step(s, DrawMsg::MagnifierSetZoom(i, zoom));
            let h = s.annotations.history;
            let h2 = s2.annotations.history;
            &&& s2.annotations.selected_magnifier == Some(i)
            &&& h2.len() == h.len()
            &&& s2.annotations.redo_stack == s.annotations.redo_stack
            &&& forall|j: int| 0 <= j < h.len() && !is_nth_magnifier(h, j, i as int) ==> #[trigger] h2[j] == h[j]
            &&& forall|k: int| k != i ==> #[trigger] nth_magnifier(h2, k) == nth_magnifier(h, k)
            &&& nth_magnifier(h, i as int) is None ==> h2 == h
            &&& nth_magnifier(h, i as int) matches Some(m) ==> nth_magnifier(h2, i as int) == Some(
                MagnifierAnnotation {
                    start_x: m.start_x,
                    start_y: m.start_y,
                    end_x: m.end_x,
                    end_y: m.end_y,
                    magnification: zoom,
                    color: m.color,
                    shadow: m.shadow,
                },
            )
        }),
{
    lemma_magnifier_zoomed(s.annotations.history, i as int, zoom);
}

/// A committed shape keeps the drag's points as they came: its start is where
/// the drag started and its end where it ended, and it takes its colour,
/// shadow and thickness (or, for a magnifier, its zoom) from the UI settings.
pub proof fn lemma_shape_keeps_drag_points<F, C>(s: ArgsView<F, C>, t: Tool, x: F, y: F, facts: EndFacts)
    requires
        s.annotations.drag_of(t) is Some,
    ensures
        ({
            let (sx, sy) = s.annotations.drag_of(t)->0;
            let h = s.annotations.history;
            let h2 = draw_step(s, tool_msg(t, DrawAction::End(x, y, facts))).annotations.history;
            let ui = s.ui;
            &&& t == Tool::Arrow ==> h2 == h.push(
                AnnotationView::Arrow(
                    ArrowAnnotation {
                        start_x: sx,
                        start_y: sy,
                        end_x: x,
                        end_y: y,
                        color: ui.shape_color,
                        shadow: ui.shape_shadow,
                        thickness: ui.shape_thickness,
                    },
                ),
            )
            &&& t == Tool::Line ==> h2 == h.push(
                AnnotationView::Line(
                    LineAnnotation {
                        start_x: sx,
                        start_y: sy,
                        end_x: x,
                        end_y: y,
                        color: ui.shape_color,
                        shadow: ui.shape_shadow,
                        thickness: ui.shape_thickness,
                    },
                ),
            )
            &&& t == Tool::Circle ==> h2 == h.push(
                AnnotationView::Circle(
                    CircleOutlineAnnotation {
                        start_x: sx,
                        start_y: sy,
                        end_x: x,
                        end_y: y,
                        color: ui.shape_color,
                        shadow: ui.shape_shadow,
                        thickness: ui.shape_thickness,
                    },
                ),
            )
            &&& t == Tool::Rectangle ==> h2 == h.push(
                AnnotationView::Rectangle(
                    RectOutlineAnnotation {
                        start_x: sx,
                        start_y: sy,
                        end_x: x,
                        end_y: y,
                        color: ui.shape_color,
                        shadow: ui.shape_shadow,
                        thickness: ui.shape_thickness,
                    },
                ),
            )
            &&& t == Tool::Magnifier ==> h2 == h.push(
                AnnotationView::Magnifier(
                    MagnifierAnnotation {
                        start_x: sx,
                        start_y: sy,
                        end_x: x,
                        end_y: y,
                        magnification: ui.magnifier_magnification,
                        color: ui.shape_color,
                        shadow: ui.shape_shadow,
                    },
                ),
            )
        }),
{
}


/// Undo takes the most recent annotation off the history and puts it on top
/// of the redo stack; with nothing to undo it changes nothing. Redo does the
/// reverse with the most recently undone annotation.
pub proof fn lemma_undo_redo_move_the_latest<F, C>(s: ArgsView<F, C>)
    ensures
        ({
            let h = s.annotations.history;
            let r = s.annotations.redo_stack;
            let u = draw_step(s, DrawMsg::Undo).annotations;
            let d = draw_step(s, DrawMsg::Redo).annotations;
            &&& h.len() > 0 ==> u.history == h.subrange(0, h.len() - 1) && u.redo_stack == r + seq![
                h[h.len() - 1],
            ]
            &&& h.len() == 0 ==> draw_step(s, DrawMsg::Undo) == s
            &&& r.len() > 0 ==> d.history == h + seq![r[r.len() - 1]] && d.redo_stack == r.subrange(
                0,
                r.len() - 1,
            )
            &&& r.len() == 0 ==> draw_step(s, DrawMsg::Redo) == s
        }),
{
    let h = s.annotations.history;
    let r = s.annotations.redo_stack;
    if h.len() > 0 {
        assert(draw_step(s, DrawMsg::Undo).annotations.redo_stack =~= r + seq![h[h.len() - 1]]);
    }
    if r.len() > 0 {
        assert(draw_step(s, DrawMsg::Redo).annotations.history =~= h + seq![r[r.len() - 1]]);
    }
}


/// Clearing shapes leaves exactly the black boxes and pixelations, each one
/// kept; clearing redactions leaves exactly the other annotations (arrows,
/// lines, circles, rectangles, strokes, text labels, magnifiers), each kept.
pub proof fn lemma_clearing_by_kind<F, C>(s: ArgsView<F, C>)
    ensures
        ({
            let h = s.annotations.history;
            let hs = draw_step(s, DrawMsg::ClearShapes).annotations.history;
            let hr = draw_step(s, DrawMsg::ClearRedactions).annotations.history;
            &&& forall|i: int| 0 <= i < hs.len() ==> (#[trigger] hs[i] is Redact || hs[i] is Pixelate)
            &&& forall|i: int| 0 <= i < h.len() && (#[trigger] h[i] is Redact || h[i] is Pixelate) ==> hs.contains(h[i])
            &&& forall|i: int| 0 <= i < hr.len() ==> !(#[trigger] hr[i] is Redact || hr[i] is Pixelate)
            &&& forall|i: int| 0 <= i < h.len() && !(#[trigger] h[i] is Redact || h[i] is Pixelate) ==> hr.contains(h[i])
        }),
{
    lemma_clear_shapes_keeps_redactions(s);
    lemma_clear_redactions_keeps_shapes(s);
}


/// The magnifier selection is dropped when the magnifier tool is switched off
/// and when any other tool is switched on; switching another tool off keeps it.
/// No toggle changes the history or the redo stack.
pub proof fn lemma_toggles_and_magnifier_selection<F, C>(s: ArgsView<F, C>, t: Tool)
    ensures
        ({
            let s2 = draw_step(s, tool_msg(t, DrawAction::ModeToggle));
            &&& t == Tool::Magnifier && s.annotations.magnifier_mode ==> s2.annotations.selected_magnifier is None
            &&& t != Tool::Magnifier && !s.annotations.mode_of(t) ==> s2.annotations.selected_magnifier is None
            &&& t != Tool::Magnifier && s.annotations.mode_of(t) ==> s2.annotations.selected_magnifier
                == s.annotations.selected_magnifier
            &&& s2.annotations.history == s.annotations.history
            &&& s2.annotations.redo_stack == s.annotations.redo_stack
        }),
{
}

} // verus!
