//! Annotation message handlers: how each drawing message changes the session.
//!
//! The transition is stated as the spec function `draw_step`; each handler's
//! contract says that it performs exactly that transition.
use vstd::prelude::*;
use crate::domain::{
    Annotation, AnnotationView, ArrowAnnotation, CircleOutlineAnnotation, LineAnnotation,
    MagnifierAnnotation, PencilAnnotation, PencilView, PixelateAnnotation, RectOutlineAnnotation,
    RedactAnnotation,
};
use crate::state::{
    no_detection, magnifier_count, magnifier_reshaped, magnifier_zoomed,
    lemma_pushed_magnifier_is_last, Args, ArgsView, AnnotationsView, Tool, UiSettings,
};

verus! {

/// What the pointer did with the current tool.
#[derive(Clone, Copy, Debug, PartialEq)]
pub enum DrawAction<F> {
    /// The tool's button was pressed: switch the tool on or off
    ModeToggle,
    /// A drag started at (x, y)
    Start(F, F),
    /// The pointer moved to (x, y) during a drag. The flag says whether the
    /// point lies at least the minimum sampling step away from the last
    /// sampled pencil point; only the pencil uses it.
    Move(F, F, bool),
    /// The drag ended at (x, y); the caller compares the end point with the
    /// start and the last sampled points, see `EndFacts`.
    End(F, F, EndFacts),
}

/// What the caller measured about the end point of a drag.
#[derive(Clone, Copy, Debug, PartialEq, Eq, Structural)]
pub struct EndFacts {
    /// The end point is the last sampled pencil point itself (pencil only)
    pub same_as_last_point: bool,
    /// The drag's start x lies strictly left of its end x (redaction boxes only)
    pub start_left_of_end: bool,
    /// The drag's start y lies strictly above its end y (redaction boxes only)
    pub start_above_end: bool,
}

/// The box spanned by a drag from (sx, sy) to (x, y), as (left, top, right,
/// bottom): the top-left and bottom-right corners, chosen by how the caller
/// found the points to compare.
pub open spec fn drag_box<F>(sx: F, sy: F, x: F, y: F, facts: EndFacts) -> (F, F, F, F) {
    let (left, right) = if facts.start_left_of_end {
        (sx, x)
    } else {
        (x, sx)
    };
    let (top, bottom) = if facts.start_above_end {
        (sy, y)
    } else {
        (y, sy)
    };
    (left, top, right, bottom)
}

/// The top-left and bottom-right corners of the box a drag spans, as
/// `drag_box` states them.
fn box_corners<F: Copy>(sx: F, sy: F, x: F, y: F, facts: EndFacts) -> (r: (F, F, F, F))
    ensures
        r == drag_box(sx, sy, x, y, facts),
{
    let (left, right) = if facts.start_left_of_end {
        (sx, x)
    } else {
        (x, sx)
    };
    let (top, bottom) = if facts.start_above_end {
        (sy, y)
    } else {
        (y, sy)
    };
    (left, top, right, bottom)
}

/// New corner points of a magnifier, as computed from its centre and radius.
#[derive(Clone, Copy, Debug, PartialEq)]
pub struct Corners<F> {
    pub start_x: F,
    pub start_y: F,
    pub end_x: F,
    pub end_y: F,
}

/// Drawing messages.
#[derive(Clone, Copy, Debug, PartialEq)]
pub enum DrawMsg<F> {
    Arrow(DrawAction<F>),
    Circle(DrawAction<F>),
    Rectangle(DrawAction<F>),
    Line(DrawAction<F>),
    Pencil(DrawAction<F>),
    Magnifier(DrawAction<F>),
    /// Select a magnifier by its index among the magnifiers, or none
    MagnifierSelect(Option<usize>),
    /// Select a magnifier and move it: its new corners keep its radius around the new centre
    MagnifierMove(usize, Corners<F>),
    /// Select a magnifier and resize it: its new corners keep its centre
    MagnifierResize(usize, Corners<F>),
    /// Select a magnifier and set its zoom, already clamped to the allowed range
    MagnifierSetZoom(usize, F),
    Redact(DrawAction<F>),
    Pixelate(DrawAction<F>),
    ClearShapes,
    ClearRedactions,
    Undo,
    Redo,
}

/// The annotation that a drag with a two-point tool from (sx, sy) to (x, y)
/// commits, styled by the UI settings. Shapes keep the drag's start and end
/// points; redaction boxes store their top-left and bottom-right corners.
pub open spec fn dragged_annotation<F, C>(
    t: Tool,
    sx: F,
    sy: F,
    x: F,
    y: F,
    facts: EndFacts,
    ui: UiSettings<F, C>,
) -> AnnotationView<F, C> {
    let (left, top, right, bottom) = drag_box(sx, sy, x, y, facts);
    match t {
        Tool::Arrow => AnnotationView::Arrow(ArrowAnnotation {
            start_x: sx, start_y: sy, end_x: x, end_y: y,
            color: ui.shape_color, shadow: ui.shape_shadow, thickness: ui.shape_thickness,
        }),
        Tool::Line => AnnotationView::Line(LineAnnotation {
            start_x: sx, start_y: sy, end_x: x, end_y: y,
            color: ui.shape_color, shadow: ui.shape_shadow, thickness: ui.shape_thickness,
        }),
        Tool::Circle => AnnotationView::Circle(CircleOutlineAnnotation {
            start_x: sx, start_y: sy, end_x: x, end_y: y,
            color: ui.shape_color, shadow: ui.shape_shadow, thickness: ui.shape_thickness,
        }),
        Tool::Rectangle => AnnotationView::Rectangle(RectOutlineAnnotation {
            start_x: sx, start_y: sy, end_x: x, end_y: y,
            color: ui.shape_color, shadow: ui.shape_shadow, thickness: ui.shape_thickness,
        }),
        Tool::Magnifier => AnnotationView::Magnifier(MagnifierAnnotation {
            start_x: sx, start_y: sy, end_x: x, end_y: y,
            magnification: ui.magnifier_magnification,
            color: ui.shape_color, shadow: ui.shape_shadow,
        }),
        Tool::Pixelate => AnnotationView::Pixelate(PixelateAnnotation {
            x: left, y: top, x2: right, y2: bottom, block_size: ui.pixelation_block_size,
        }),
        _ => AnnotationView::Redact(RedactAnnotation { x: left, y: top, x2: right, y2: bottom }),
    }
}

/// ModeToggle: an active tool is switched off; an inactive one is switched
/// on, every other tool is switched off and the detection results are dropped.
pub open spec fn toggled<F, C>(s: ArgsView<F, C>, t: Tool) -> ArgsView<F, C> {
    if s.annotations.mode_of(t) {
        ArgsView { annotations: s.annotations.tool_off(t), ..s }
    } else {
        ArgsView {
            annotations: s.annotations.with_mode(t, true).others_off(t),
            detection: no_detection(),
            ..s
        }
    }
}

/// Start: with the tool active, a drag begins at (x, y); otherwise nothing happens.
pub open spec fn started<F, C>(s: ArgsView<F, C>, t: Tool, x: F, y: F) -> ArgsView<F, C> {
    if !s.annotations.mode_of(t) {
        s
    } else if t == Tool::Pencil {
        ArgsView {
            annotations: AnnotationsView { pencil_drawing: Some(seq![(x, y)]), ..s.annotations },
            ..s
        }
    } else {
        ArgsView { annotations: s.annotations.with_drag(t, Some((x, y))), ..s }
    }
}

/// End with a two-point tool: a drag in progress is committed as one
/// annotation; a new magnifier becomes the selected one.
pub open spec fn ended<F, C>(s: ArgsView<F, C>, t: Tool, x: F, y: F, facts: EndFacts) -> ArgsView<F, C> {
    match s.annotations.drag_of(t) {
        None => s,
        Some((sx, sy)) => {
            let a = s.annotations.with_drag(t, None).added(dragged_annotation(t, sx, sy, x, y, facts, s.ui));
            if t == Tool::Magnifier {
                ArgsView {
                    annotations: AnnotationsView {
                        selected_magnifier: Some((magnifier_count(a.history) - 1) as usize),
                        ..a
                    },
                    ..s
                }
            } else {
                ArgsView { annotations: a, ..s }
            }
        },
    }
}

/// Pencil Move: during a stroke the point is sampled when the stroke has no
/// point yet or the point is far enough from the last one.
pub open spec fn pencil_moved<F, C>(s: ArgsView<F, C>, x: F, y: F, far_enough: bool) -> ArgsView<F, C> {
    match s.annotations.pencil_drawing {
        Some(pts) => if pts.len() == 0 || far_enough {
            ArgsView {
                annotations: AnnotationsView { pencil_drawing: Some(pts.push((x, y))), ..s.annotations },
                ..s
            }
        } else {
            s
        },
        None => s,
    }
}

/// Pencil End: the end point is sampled unless it repeats the last point;
/// a stroke of at least two points is committed, a shorter one dropped.
pub open spec fn pencil_ended<F, C>(s: ArgsView<F, C>, x: F, y: F, same_as_last: bool) -> ArgsView<F, C> {
    match s.annotations.pencil_drawing {
        None => s,
        Some(pts) => {
            let pts2 = if pts.len() == 0 || !same_as_last {
                pts.push((x, y))
            } else {
                pts
            };
            let a = AnnotationsView { pencil_drawing: None, ..s.annotations };
            if pts2.len() >= 2 {
                ArgsView {
                    annotations: a.added(AnnotationView::Pencil(PencilView {
                        points: pts2,
                        color: s.ui.shape_color,
                        shadow: s.ui.shape_shadow,
                        thickness: s.ui.shape_thickness,
                    })),
                    ..s
                }
            } else {
                ArgsView { annotations: a, ..s }
            }
        },
    }
}

/// The effect of one pointer action with one tool.
pub open spec fn tool_step<F, C>(s: ArgsView<F, C>, t: Tool, action: DrawAction<F>) -> ArgsView<F, C> {
    match action {
        DrawAction::ModeToggle => toggled(s, t),
        DrawAction::Start(x, y) => started(s, t, x, y),
        DrawAction::Move(x, y, far_enough) => if t == Tool::Pencil {
            pencil_moved(s, x, y, far_enough)
        } else {
            s
        },
        DrawAction::End(x, y, facts) => if t == Tool::Pencil {
            pencil_ended(s, x, y, facts.same_as_last_point)
        } else {
            ended(s, t, x, y, facts)
        },
    }
}

/// The magnifier with index `i` is selected.
pub open spec fn magnifier_selected<F, C>(s: ArgsView<F, C>, i: usize) -> ArgsView<F, C> {
    ArgsView { annotations: AnnotationsView { selected_magnifier: Some(i), ..s.annotations }, ..s }
}

/// The effect of one drawing message on the session.
pub open spec fn draw_step<F, C>(s: ArgsView<F, C>, msg: DrawMsg<F>) -> ArgsView<F, C> {
    match msg {
        DrawMsg::Arrow(a) => tool_step(s, Tool::Arrow, a),
        DrawMsg::Circle(a) => tool_step(s, Tool::Circle, a),
        DrawMsg::Rectangle(a) => tool_step(s, Tool::Rectangle, a),
        DrawMsg::Line(a) => tool_step(s, Tool::Line, a),
        DrawMsg::Pencil(a) => tool_step(s, Tool::Pencil, a),
        DrawMsg::Magnifier(a) => tool_step(s, Tool::Magnifier, a),
        DrawMsg::MagnifierSelect(i) => ArgsView {
            annotations: AnnotationsView { selected_magnifier: i, ..s.annotations },
            ..s
        },
        DrawMsg::MagnifierMove(i, c) | DrawMsg::MagnifierResize(i, c) => {
            let t = magnifier_selected(s, i);
            ArgsView {
                annotations: AnnotationsView {
                    history: magnifier_reshaped(t.annotations.history, i as int, c.start_x, c.start_y, c.end_x, c.end_y),
                    ..t.annotations
                },
                ..t
            }
        },
        DrawMsg::MagnifierSetZoom(i, zoom) => {
            let t = magnifier_selected(s, i);
            ArgsView {
                annotations: AnnotationsView {
                    history: magnifier_zoomed(t.annotations.history, i as int, zoom),
                    ..t.annotations
                },
                ..t
            }
        },
        DrawMsg::Redact(a) => tool_step(s, Tool::Redact, a),
        DrawMsg::Pixelate(a) => tool_step(s, Tool::Pixelate, a),
        DrawMsg::ClearShapes => ArgsView { annotations: s.annotations.shapes_cleared(), ..s },
        DrawMsg::ClearRedactions => ArgsView { annotations: s.annotations.redactions_cleared(), ..s },
        DrawMsg::Undo => ArgsView { annotations: s.annotations.undone(), ..s },
        DrawMsg::Redo => ArgsView { annotations: s.annotations.redone(), ..s },
    }
}

/// Handle a DrawMsg, modifying the session state.
///
/// Returns true if the message was handled; every drawing message is, so the
/// result is always true. The caller is responsible for returning no task.
pub fn handle_draw_msg<F: Copy, C: Copy>(args: &mut Args<F, C>, msg: DrawMsg<F>) -> (handled: bool)
    ensures
        handled,
        final(args)@ == draw_step(old(args)@, msg),
{
    match msg {
        DrawMsg::Arrow(action) => handle_arrow(args, action),
        DrawMsg::Circle(action) => handle_circle(args, action),
        DrawMsg::Rectangle(action) => handle_rectangle(args, action),
        DrawMsg::Line(action) => handle_line(args, action),
        DrawMsg::Pencil(action) => handle_pencil(args, action),
        DrawMsg::Magnifier(action) => handle_magnifier(args, action),
        DrawMsg::MagnifierSelect(index) => {
            args.annotations.selected_magnifier = index;
        },
        DrawMsg::MagnifierMove(index, c) | DrawMsg::MagnifierResize(index, c) => {
            args.annotations.selected_magnifier = Some(index);
            args.annotations.set_magnifier_corners(index, c.start_x, c.start_y, c.end_x, c.end_y);
        },
        DrawMsg::MagnifierSetZoom(index, zoom) => {
            args.annotations.selected_magnifier = Some(index);
            args.annotations.set_magnifier_zoom(index, zoom);
        },
        DrawMsg::Redact(action) => handle_redact(args, action),
        DrawMsg::Pixelate(action) => handle_pixelate(args, action),
        DrawMsg::ClearShapes => args.annotations.clear_shapes(),
        DrawMsg::ClearRedactions => args.annotations.clear_redactions(),
        DrawMsg::Undo => args.annotations.undo(),
        DrawMsg::Redo => args.annotations.redo(),
    }
    true
}

fn handle_arrow<F: Copy, C: Copy>(args: &mut Args<F, C>, action: DrawAction<F>)
    ensures
        final(args)@ == tool_step(old(args)@, Tool::Arrow, action),
{
    match action {
        DrawAction::ModeToggle => {
            args.annotations.arrow_mode = !args.annotations.arrow_mode;
            if !args.annotations.arrow_mode {
                args.annotations.arrow_drawing = None;
            } else {
                disable_other_modes(args, Tool::Arrow);
                args.detection.clear();
            }
        },
        DrawAction::Start(x, y) => {
            if args.annotations.arrow_mode {
                args.annotations.arrow_drawing = Some((x, y));
            }
        },
        DrawAction::Move(..) => {},
        DrawAction::End(x, y, _) => {
            if let Some((start_x, start_y)) = args.annotations.arrow_drawing.take() {
                let arrow = ArrowAnnotation {
                    start_x,
                    start_y,
                    end_x: x,
                    end_y: y,
                    color: args.ui.shape_color,
                    shadow: args.ui.shape_shadow,
                    thickness: args.ui.shape_thickness,
                };
                args.annotations.add(Annotation::Arrow(arrow));
            }
        },
    }
}

fn handle_circle<F: Copy, C: Copy>(args: &mut Args<F, C>, action: DrawAction<F>)
    ensures
        final(args)@ == tool_step(old(args)@, Tool::Circle, action),
{
    match action {
        DrawAction::ModeToggle => {
            args.annotations.circle_mode = !args.annotations.circle_mode;
            if !args.annotations.circle_mode {
                args.annotations.circle_drawing = None;
            } else {
                disable_other_modes(args, Tool::Circle);
                args.detection.clear();
            }
        },
        DrawAction::Start(x, y) => {
            if args.annotations.circle_mode {
                args.annotations.circle_drawing = Some((x, y));
            }
        },
        DrawAction::Move(..) => {},
        DrawAction::End(x, y, _) => {
            if let Some((start_x, start_y)) = args.annotations.circle_drawing.take() {
                let circle = CircleOutlineAnnotation {
                    start_x,
                    start_y,
                    end_x: x,
                    end_y: y,
                    color: args.ui.shape_color,
                    shadow: args.ui.shape_shadow,
                    thickness: args.ui.shape_thickness,
                };
                args.annotations.add(Annotation::Circle(circle));
            }
        },
    }
}

fn handle_rectangle<F: Copy, C: Copy>(args: &mut Args<F, C>, action: DrawAction<F>)
    ensures
        final(args)@ == tool_step(old(args)@, Tool::Rectangle, action),
{
    match action {
        DrawAction::ModeToggle => {
            args.annotations.rect_outline_mode = !args.annotations.rect_outline_mode;
            if !args.annotations.rect_outline_mode {
                args.annotations.rect_outline_drawing = None;
            } else {
                disable_other_modes(args, Tool::Rectangle);
                args.detection.clear();
            }
        },
        DrawAction::Start(x, y) => {
            if args.annotations.rect_outline_mode {
                args.annotations.rect_outline_drawing = Some((x, y));
            }
        },
        DrawAction::Move(..) => {},
        DrawAction::End(x, y, _) => {
            if let Some((start_x, start_y)) = args.annotations.rect_outline_drawing.take() {
                let rect = RectOutlineAnnotation {
                    start_x,
                    start_y,
                    end_x: x,
                    end_y: y,
                    color: args.ui.shape_color,
                    shadow: args.ui.shape_shadow,
                    thickness: args.ui.shape_thickness,
                };
                args.annotations.add(Annotation::Rectangle(rect));
            }
        },
    }
}

fn handle_line<F: Copy, C: Copy>(args: &mut Args<F, C>, action: DrawAction<F>)
    ensures
        final(args)@ == tool_step(old(args)@, Tool::Line, action),
{
    match action {
        DrawAction::ModeToggle => {
            args.annotations.line_mode = !args.annotations.line_mode;
            if !args.annotations.line_mode {
                args.annotations.line_drawing = None;
            } else {
                disable_other_modes(args, Tool::Line);
                args.detection.clear();
            }
        },
        DrawAction::Start(x, y) => {
            if args.annotations.line_mode {
                args.annotations.line_drawing = Some((x, y));
            }
        },
        DrawAction::Move(..) => {},
        DrawAction::End(x, y, _) => {
            if let Some((start_x, start_y)) = args.annotations.line_drawing.take() {
                let line = LineAnnotation {
                    start_x,
                    start_y,
                    end_x: x,
                    end_y: y,
                    color: args.ui.shape_color,
                    shadow: args.ui.shape_shadow,
                    thickness: args.ui.shape_thickness,
                };
                args.annotations.add(Annotation::Line(line));
            }
        },
    }
}

fn handle_redact<F: Copy, C: Copy>(args: &mut Args<F, C>, action: DrawAction<F>)
    ensures
        final(args)@ == tool_step(old(args)@, Tool::Redact, action),
{
    match action {
        DrawAction::ModeToggle => {
            args.annotations.redact_mode = !args.annotations.redact_mode;
            if !args.annotations.redact_mode {
                args.annotations.redact_drawing = None;
            } else {
                disable_other_modes(args, Tool::Redact);
                args.detection.clear();
            }
        },
        DrawAction::Start(x, y) => {
            if args.annotations.redact_mode {
                args.annotations.redact_drawing = Some((x, y));
            }
        },
        DrawAction::Move(..) => {},
        DrawAction::End(x, y, facts) => {
            if let Some((start_x, start_y)) = args.annotations.redact_drawing.take() {
                let (left, top, right, bottom) = box_corners(start_x, start_y, x, y, facts);
                let redact = RedactAnnotation { x: left, y: top, x2: right, y2: bottom };
                args.annotations.add(Annotation::Redact(redact));
            }
        },
    }
}

fn handle_pixelate<F: Copy, C: Copy>(args: &mut Args<F, C>, action: DrawAction<F>)
    ensures
        final(args)@ == tool_step(old(args)@, Tool::Pixelate, action),
{
    match action {
        DrawAction::ModeToggle => {
            args.annotations.pixelate_mode = !args.annotations.pixelate_mode;
            if !args.annotations.pixelate_mode {
                args.annotations.pixelate_drawing = None;
            } else {
                disable_other_modes(args, Tool::Pixelate);
                args.detection.clear();
            }
        },
        DrawAction::Start(x, y) => {
            if args.annotations.pixelate_mode {
                args.annotations.pixelate_drawing = Some((x, y));
            }
        },
        DrawAction::Move(..) => {},
        DrawAction::End(x, y, facts) => {
            if let Some((start_x, start_y)) = args.annotations.pixelate_drawing.take() {
                let (left, top, right, bottom) = box_corners(start_x, start_y, x, y, facts);
                let pixelate = PixelateAnnotation {
                    x: left,
                    y: top,
                    x2: right,
                    y2: bottom,
                    block_size: args.ui.pixelation_block_size,
                };
                args.annotations.add(Annotation::Pixelate(pixelate));
            }
        },
    }
}

fn handle_pencil<F: Copy, C: Copy>(args: &mut Args<F, C>, action: DrawAction<F>)
    ensures
        final(args)@ == tool_step(old(args)@, Tool::Pencil, action),
{
    match action {
        DrawAction::ModeToggle => {
            args.annotations.pencil_mode = !args.annotations.pencil_mode;
            if !args.annotations.pencil_mode {
                args.annotations.pencil_drawing = None;
            } else {
                disable_other_modes(args, Tool::Pencil);
                args.detection.clear();
            }
        },
        DrawAction::Start(x, y) => {
            if args.annotations.pencil_mode {
                args.annotations.pencil_drawing = Some(vec![(x, y)]);
                proof {
                    assert(args.annotations.pencil_drawing.unwrap()@ =~= seq![(x, y)]);
                }
            }
        },
        DrawAction::Move(x, y, far_enough) => pencil_move(args, x, y, far_enough),
        DrawAction::End(x, y, facts) => pencil_end(args, x, y, facts.same_as_last_point),
    }
}

/// Samples a pencil point during a stroke.
fn pencil_move<F: Copy, C: Copy>(args: &mut Args<F, C>, x: F, y: F, far_enough: bool)
    ensures
        final(args)@ == pencil_moved(old(args)@, x, y, far_enough),
{
    if let Some(mut points) = args.annotations.pencil_drawing.take() {
        if points.len() == 0 || far_enough {
            points.push((x, y));
        }
        args.annotations.pencil_drawing = Some(points);
    }
}

/// Finishes a pencil stroke.
fn pencil_end<F: Copy, C: Copy>(args: &mut Args<F, C>, x: F, y: F, same_as_last: bool)
    ensures
        final(args)@ == pencil_ended(old(args)@, x, y, same_as_last),
{
    if let Some(mut points) = args.annotations.pencil_drawing.take() {
        if points.len() == 0 || !same_as_last {
            points.push((x, y));
        }
        let pencil = PencilAnnotation {
            points,
            color: args.ui.shape_color,
            shadow: args.ui.shape_shadow,
            thickness: args.ui.shape_thickness,
        };
        // A single click produces one point and nothing visible: drop it
        // so it doesn't occupy a slot in the undo history.
        if pencil.is_valid() {
            args.annotations.add(Annotation::Pencil(pencil));
        }
    }
}

fn handle_magnifier<F: Copy, C: Copy>(args: &mut Args<F, C>, action: DrawAction<F>)
    ensures
        final(args)@ == tool_step(old(args)@, Tool::Magnifier, action),
{
    match action {
        DrawAction::ModeToggle => {
            args.annotations.magnifier_mode = !args.annotations.magnifier_mode;
            if !args.annotations.magnifier_mode {
                args.annotations.magnifier_drawing = None;
                args.annotations.selected_magnifier = None;
            } else {
                disable_other_modes(args, Tool::Magnifier);
                args.detection.clear();
            }
        },
        DrawAction::Start(x, y) => {
            if args.annotations.magnifier_mode {
                args.annotations.magnifier_drawing = Some((x, y));
            }
        },
        DrawAction::Move(..) => {},
        DrawAction::End(x, y, _) => {
            if let Some((start_x, start_y)) = args.annotations.magnifier_drawing.take() {
                let magnifier = MagnifierAnnotation {
                    start_x,
                    start_y,
                    end_x: x,
                    end_y: y,
                    magnification: args.ui.magnifier_magnification,
                    color: args.ui.shape_color,
                    shadow: args.ui.shape_shadow,
                };
                let ghost h = args.annotations@.history;
                args.annotations.add(Annotation::Magnifier(magnifier));
                proof {
                    lemma_pushed_magnifier_is_last(h, magnifier);
                }
                // Select the newly created magnifier so it can be tweaked
                let count = args.annotations.magnifier_count();
                args.annotations.selected_magnifier = Some(count - 1);
            }
        },
    }
}

/// Switches every tool except `keep` off, discarding its drag (and, for the
/// magnifier, its selection).
fn disable_other_modes<F: Copy, C: Copy>(args: &mut Args<F, C>, keep: Tool)
    ensures
        final(args)@ == (ArgsView { annotations: old(args)@.annotations.others_off(keep), ..old(args)@ }),
{
    if keep != Tool::Arrow {
        args.annotations.arrow_mode = false;
        args.annotations.arrow_drawing = None;
    }
    if keep != Tool::Circle {
        args.annotations.circle_mode = false;
        args.annotations.circle_drawing = None;
    }
    if keep != Tool::Rectangle {
        args.annotations.rect_outline_mode = false;
        args.annotations.rect_outline_drawing = None;
    }
    if keep != Tool::Line {
        args.annotations.line_mode = false;
        args.annotations.line_drawing = None;
    }
    if keep != Tool::Pencil {
        args.annotations.pencil_mode = false;
        args.annotations.pencil_drawing = None;
    }
    if keep != Tool::Magnifier {
        args.annotations.magnifier_mode = false;
        args.annotations.magnifier_drawing = None;
        args.annotations.selected_magnifier = None;
    }
    if keep != Tool::Redact {
        args.annotations.redact_mode = false;
        args.annotations.redact_drawing = None;
    }
    if keep != Tool::Pixelate {
        args.annotations.pixelate_mode = false;
        args.annotations.pixelate_drawing = None;
    }
}

} // verus!
