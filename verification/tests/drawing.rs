use snappea::domain::{
    Annotation, ArrowAnnotation, CircleOutlineAnnotation, LineAnnotation, MagnifierAnnotation,
    PixelateAnnotation, RectOutlineAnnotation, RedactAnnotation,
};
use snappea::handlers::{handle_draw_msg, Corners, DrawAction, DrawMsg, EndFacts};
use snappea::state::{Annotations, Args, Choice, Detection, Session, UiSettings};

fn new_args() -> Args<f32, u32> {
    Args {
        annotations: Annotations::new(),
        detection: Detection::new(),
        session: Session { choice: Choice::Rectangle(Some((200, 100))) },
        ui: UiSettings {
            shape_color: 0xff0000,
            shape_shadow: true,
            shape_thickness: 3.0,
            magnifier_magnification: 2.0,
            pixelation_block_size: 8,
        },
    }
}

/// End-point facts as the caller measures them.
fn facts(start: (f32, f32), end: (f32, f32), same_as_last_point: bool) -> EndFacts {
    EndFacts { same_as_last_point, start_left_of_end: start.0 < end.0, start_above_end: start.1 < end.1 }
}

fn end(x: f32, y: f32, same_as_last_point: bool) -> DrawAction<f32> {
    DrawAction::End(x, y, EndFacts { same_as_last_point, start_left_of_end: false, start_above_end: false })
}

fn drag(args: &mut Args<f32, u32>, wrap: fn(DrawAction<f32>) -> DrawMsg<f32>, from: (f32, f32), to: (f32, f32)) {
    handle_draw_msg(args, wrap(DrawAction::Start(from.0, from.1)));
    handle_draw_msg(args, wrap(DrawAction::Move(to.0, to.1, true)));
    handle_draw_msg(args, wrap(DrawAction::End(to.0, to.1, facts(from, to, false))));
}

fn active_modes(a: &Annotations<f32, u32>) -> usize {
    [
        a.arrow_mode,
        a.line_mode,
        a.circle_mode,
        a.rect_outline_mode,
        a.pencil_mode,
        a.magnifier_mode,
        a.redact_mode,
        a.pixelate_mode,
    ]
    .iter()
    .filter(|m| **m)
    .count()
}

#[test]
fn arrow_drag_commits_one_arrow() {
    let mut args = new_args();
    handle_draw_msg(&mut args, DrawMsg::Arrow(DrawAction::ModeToggle));
    drag(&mut args, DrawMsg::Arrow, (1.0, 2.0), (30.0, 40.0));
    assert_eq!(args.annotations.history.len(), 1);
    assert_eq!(
        args.annotations.history[0],
        Annotation::Arrow(ArrowAnnotation {
            start_x: 1.0,
            start_y: 2.0,
            end_x: 30.0,
            end_y: 40.0,
            color: 0xff0000,
            shadow: true,
            thickness: 3.0,
        })
    );
    assert!(args.annotations.arrow_drawing.is_none());
    assert!(args.annotations.arrow_mode);
}

#[test]
fn every_two_point_tool_commits_its_kind() {
    let mut args = new_args();
    handle_draw_msg(&mut args, DrawMsg::Line(DrawAction::ModeToggle));
    drag(&mut args, DrawMsg::Line, (0.0, 0.0), (1.0, 1.0));
    handle_draw_msg(&mut args, DrawMsg::Circle(DrawAction::ModeToggle));
    drag(&mut args, DrawMsg::Circle, (2.0, 2.0), (3.0, 3.0));
    handle_draw_msg(&mut args, DrawMsg::Rectangle(DrawAction::ModeToggle));
    drag(&mut args, DrawMsg::Rectangle, (4.0, 4.0), (5.0, 5.0));
    handle_draw_msg(&mut args, DrawMsg::Redact(DrawAction::ModeToggle));
    drag(&mut args, DrawMsg::Redact, (6.0, 6.0), (7.0, 7.0));
    handle_draw_msg(&mut args, DrawMsg::Pixelate(DrawAction::ModeToggle));
    drag(&mut args, DrawMsg::Pixelate, (8.0, 8.0), (9.0, 9.0));
    let h = &args.annotations.history;
    assert_eq!(h.len(), 5);
    assert_eq!(
        h[0],
        Annotation::Line(LineAnnotation { start_x: 0.0, start_y: 0.0, end_x: 1.0, end_y: 1.0, color: 0xff0000, shadow: true, thickness: 3.0 })
    );
    assert_eq!(
        h[1],
        Annotation::Circle(CircleOutlineAnnotation { start_x: 2.0, start_y: 2.0, end_x: 3.0, end_y: 3.0, color: 0xff0000, shadow: true, thickness: 3.0 })
    );
    assert_eq!(
        h[2],
        Annotation::Rectangle(RectOutlineAnnotation { start_x: 4.0, start_y: 4.0, end_x: 5.0, end_y: 5.0, color: 0xff0000, shadow: true, thickness: 3.0 })
    );
    assert_eq!(h[3], Annotation::Redact(RedactAnnotation { x: 6.0, y: 6.0, x2: 7.0, y2: 7.0 }));
    assert_eq!(h[4], Annotation::Pixelate(PixelateAnnotation { x: 8.0, y: 8.0, x2: 9.0, y2: 9.0, block_size: 8 }));
}

#[test]
fn switching_a_tool_on_switches_the_others_off() {
    let mut args = new_args();
    args.detection.ocr_text = Some("text".to_string());
    handle_draw_msg(&mut args, DrawMsg::Arrow(DrawAction::ModeToggle));
    handle_draw_msg(&mut args, DrawMsg::Arrow(DrawAction::Start(1.0, 1.0)));
    assert!(args.detection.ocr_text.is_none());
    handle_draw_msg(&mut args, DrawMsg::Pencil(DrawAction::ModeToggle));
    assert!(args.annotations.pencil_mode);
    assert!(!args.annotations.arrow_mode);
    assert!(args.annotations.arrow_drawing.is_none());
    assert_eq!(active_modes(&args.annotations), 1);
}

#[test]
fn switching_the_active_tool_off_discards_its_drag() {
    let mut args = new_args();
    handle_draw_msg(&mut args, DrawMsg::Redact(DrawAction::ModeToggle));
    handle_draw_msg(&mut args, DrawMsg::Redact(DrawAction::Start(1.0, 1.0)));
    handle_draw_msg(&mut args, DrawMsg::Redact(DrawAction::ModeToggle));
    assert!(!args.annotations.redact_mode);
    assert!(args.annotations.redact_drawing.is_none());
    handle_draw_msg(&mut args, DrawMsg::Redact(end(5.0, 5.0, false)));
    assert!(args.annotations.history.is_empty());
    assert_eq!(active_modes(&args.annotations), 0);
}

#[test]
fn start_without_the_tool_active_does_nothing() {
    let mut args = new_args();
    handle_draw_msg(&mut args, DrawMsg::Circle(DrawAction::Start(1.0, 1.0)));
    assert!(args.annotations.circle_drawing.is_none());
    handle_draw_msg(&mut args, DrawMsg::Circle(end(2.0, 2.0, false)));
    assert!(args.annotations.history.is_empty());
}

#[test]
fn a_single_pencil_click_is_dropped() {
    let mut args = new_args();
    handle_draw_msg(&mut args, DrawMsg::Pencil(DrawAction::ModeToggle));
    handle_draw_msg(&mut args, DrawMsg::Pencil(DrawAction::Start(5.0, 5.0)));
    handle_draw_msg(&mut args, DrawMsg::Pencil(end(5.0, 5.0, true)));
    assert!(args.annotations.history.is_empty());
    assert!(args.annotations.pencil_drawing.is_none());
}

#[test]
fn pencil_samples_far_enough_points_and_the_end_point() {
    let mut args = new_args();
    handle_draw_msg(&mut args, DrawMsg::Pencil(DrawAction::ModeToggle));
    handle_draw_msg(&mut args, DrawMsg::Pencil(DrawAction::Start(0.0, 0.0)));
    handle_draw_msg(&mut args, DrawMsg::Pencil(DrawAction::Move(0.5, 0.0, false)));
    handle_draw_msg(&mut args, DrawMsg::Pencil(DrawAction::Move(2.0, 0.0, true)));
    assert_eq!(args.annotations.pencil_last_point(), Some((2.0, 0.0)));
    handle_draw_msg(&mut args, DrawMsg::Pencil(end(3.0, 0.0, false)));
    assert_eq!(args.annotations.history.len(), 1);
    match &args.annotations.history[0] {
        Annotation::Pencil(p) => {
            assert_eq!(p.points, vec![(0.0, 0.0), (2.0, 0.0), (3.0, 0.0)]);
            assert_eq!(p.thickness, 3.0);
            assert!(p.is_valid());
        },
        other => panic!("expected a pencil stroke, got {other:?}"),
    }
}

#[test]
fn pencil_end_on_the_last_point_is_not_repeated() {
    let mut args = new_args();
    handle_draw_msg(&mut args, DrawMsg::Pencil(DrawAction::ModeToggle));
    handle_draw_msg(&mut args, DrawMsg::Pencil(DrawAction::Start(0.0, 0.0)));
    handle_draw_msg(&mut args, DrawMsg::Pencil(DrawAction::Move(4.0, 4.0, true)));
    handle_draw_msg(&mut args, DrawMsg::Pencil(end(4.0, 4.0, true)));
    match &args.annotations.history[0] {
        Annotation::Pencil(p) => assert_eq!(p.points, vec![(0.0, 0.0), (4.0, 4.0)]),
        other => panic!("expected a pencil stroke, got {other:?}"),
    }
}

#[test]
fn a_new_magnifier_is_selected_and_can_be_edited() {
    let mut args = new_args();
    handle_draw_msg(&mut args, DrawMsg::Magnifier(DrawAction::ModeToggle));
    drag(&mut args, DrawMsg::Magnifier, (0.0, 0.0), (10.0, 10.0));
    drag(&mut args, DrawMsg::Magnifier, (20.0, 20.0), (40.0, 40.0));
    assert_eq!(args.annotations.selected_magnifier, Some(1));
    assert_eq!(args.annotations.magnifier_count(), 2);

    handle_draw_msg(
        &mut args,
        DrawMsg::MagnifierMove(0, Corners { start_x: 100.0, start_y: 100.0, end_x: 110.0, end_y: 110.0 }),
    );
    assert_eq!(args.annotations.selected_magnifier, Some(0));
    handle_draw_msg(&mut args, DrawMsg::MagnifierSetZoom(1, 4.0));
    assert_eq!(
        args.annotations.magnifier(0),
        Some(MagnifierAnnotation {
            start_x: 100.0,
            start_y: 100.0,
            end_x: 110.0,
            end_y: 110.0,
            magnification: 2.0,
            color: 0xff0000,
            shadow: true,
        })
    );
    assert_eq!(args.annotations.magnifier(1).map(|m| m.magnification), Some(4.0));
    assert_eq!(args.annotations.magnifier(2), None);

    // Editing a magnifier that does not exist only selects it.
    handle_draw_msg(
        &mut args,
        DrawMsg::MagnifierResize(7, Corners { start_x: 0.0, start_y: 0.0, end_x: 1.0, end_y: 1.0 }),
    );
    assert_eq!(args.annotations.selected_magnifier, Some(7));
    assert_eq!(args.annotations.history.len(), 2);

    handle_draw_msg(&mut args, DrawMsg::MagnifierSelect(None));
    assert_eq!(args.annotations.selected_magnifier, None);
}

#[test]
fn switching_the_magnifier_off_drops_its_selection() {
    let mut args = new_args();
    handle_draw_msg(&mut args, DrawMsg::Magnifier(DrawAction::ModeToggle));
    drag(&mut args, DrawMsg::Magnifier, (0.0, 0.0), (10.0, 10.0));
    assert_eq!(args.annotations.selected_magnifier, Some(0));
    handle_draw_msg(&mut args, DrawMsg::Magnifier(DrawAction::ModeToggle));
    assert_eq!(args.annotations.selected_magnifier, None);
}

#[test]
fn magnifier_edits_skip_other_annotations() {
    let mut args = new_args();
    handle_draw_msg(&mut args, DrawMsg::Magnifier(DrawAction::ModeToggle));
    drag(&mut args, DrawMsg::Magnifier, (0.0, 0.0), (10.0, 10.0));
    handle_draw_msg(&mut args, DrawMsg::Arrow(DrawAction::ModeToggle));
    drag(&mut args, DrawMsg::Arrow, (0.0, 0.0), (1.0, 1.0));
    handle_draw_msg(&mut args, DrawMsg::Magnifier(DrawAction::ModeToggle));
    drag(&mut args, DrawMsg::Magnifier, (50.0, 50.0), (60.0, 60.0));
    assert_eq!(args.annotations.selected_magnifier, Some(1));
    handle_draw_msg(&mut args, DrawMsg::MagnifierSetZoom(1, 8.0));
    match &args.annotations.history[2] {
        Annotation::Magnifier(m) => assert_eq!(m.magnification, 8.0),
        other => panic!("expected a magnifier, got {other:?}"),
    }
    match &args.annotations.history[0] {
        Annotation::Magnifier(m) => assert_eq!(m.magnification, 2.0),
        other => panic!("expected a magnifier, got {other:?}"),
    }
}

#[test]
fn undo_and_redo_move_the_latest_annotation() {
    let mut args = new_args();
    handle_draw_msg(&mut args, DrawMsg::Arrow(DrawAction::ModeToggle));
    drag(&mut args, DrawMsg::Arrow, (0.0, 0.0), (1.0, 1.0));
    drag(&mut args, DrawMsg::Arrow, (2.0, 2.0), (3.0, 3.0));
    let before = args.annotations.history.clone();
    handle_draw_msg(&mut args, DrawMsg::Undo);
    assert_eq!(args.annotations.history.len(), 1);
    assert_eq!(args.annotations.redo_stack.len(), 1);
    handle_draw_msg(&mut args, DrawMsg::Redo);
    assert_eq!(args.annotations.history, before);
    assert!(args.annotations.redo_stack.is_empty());

    // Undo on an empty history does nothing; a new annotation empties the redo stack.
    handle_draw_msg(&mut args, DrawMsg::Undo);
    handle_draw_msg(&mut args, DrawMsg::Undo);
    handle_draw_msg(&mut args, DrawMsg::Undo);
    assert!(args.annotations.history.is_empty());
    assert_eq!(args.annotations.redo_stack.len(), 2);
    drag(&mut args, DrawMsg::Arrow, (5.0, 5.0), (6.0, 6.0));
    assert!(args.annotations.redo_stack.is_empty());
    handle_draw_msg(&mut args, DrawMsg::Redo);
    assert_eq!(args.annotations.history.len(), 1);
}

#[test]
fn clearing_shapes_keeps_redactions_and_the_reverse() {
    let mut args = new_args();
    handle_draw_msg(&mut args, DrawMsg::Arrow(DrawAction::ModeToggle));
    drag(&mut args, DrawMsg::Arrow, (0.0, 0.0), (1.0, 1.0));
    handle_draw_msg(&mut args, DrawMsg::Redact(DrawAction::ModeToggle));
    drag(&mut args, DrawMsg::Redact, (2.0, 2.0), (3.0, 3.0));
    handle_draw_msg(&mut args, DrawMsg::Circle(DrawAction::ModeToggle));
    drag(&mut args, DrawMsg::Circle, (4.0, 4.0), (5.0, 5.0));
    handle_draw_msg(&mut args, DrawMsg::Pixelate(DrawAction::ModeToggle));
    drag(&mut args, DrawMsg::Pixelate, (6.0, 6.0), (7.0, 7.0));
    let mut shapes_only = new_args();
    shapes_only.annotations.history = args.annotations.history.clone();

    handle_draw_msg(&mut args, DrawMsg::ClearShapes);
    assert_eq!(
        args.annotations.history,
        vec![
            Annotation::Redact(RedactAnnotation { x: 2.0, y: 2.0, x2: 3.0, y2: 3.0 }),
            Annotation::Pixelate(PixelateAnnotation { x: 6.0, y: 6.0, x2: 7.0, y2: 7.0, block_size: 8 }),
        ]
    );

    handle_draw_msg(&mut shapes_only, DrawMsg::ClearRedactions);
    assert_eq!(shapes_only.annotations.history.len(), 2);
    assert!(shapes_only.annotations.history.iter().all(|a| a.is_shape()));
}

#[test]
fn clearing_also_empties_the_matching_redo_entries() {
    let mut args = new_args();
    handle_draw_msg(&mut args, DrawMsg::Arrow(DrawAction::ModeToggle));
    drag(&mut args, DrawMsg::Arrow, (0.0, 0.0), (1.0, 1.0));
    handle_draw_msg(&mut args, DrawMsg::Undo);
    handle_draw_msg(&mut args, DrawMsg::ClearShapes);
    assert!(args.annotations.redo_stack.is_empty());
    handle_draw_msg(&mut args, DrawMsg::Redo);
    assert!(args.annotations.history.is_empty());
}

#[test]
fn undo_after_redo_restores_the_session() {
    let mut args = new_args();
    handle_draw_msg(&mut args, DrawMsg::Line(DrawAction::ModeToggle));
    drag(&mut args, DrawMsg::Line, (0.0, 0.0), (1.0, 1.0));
    drag(&mut args, DrawMsg::Line, (2.0, 2.0), (3.0, 3.0));
    handle_draw_msg(&mut args, DrawMsg::Undo);
    handle_draw_msg(&mut args, DrawMsg::Undo);
    let history = args.annotations.history.clone();
    let redo = args.annotations.redo_stack.clone();
    handle_draw_msg(&mut args, DrawMsg::Redo);
    handle_draw_msg(&mut args, DrawMsg::Undo);
    assert_eq!(args.annotations.history, history);
    assert_eq!(args.annotations.redo_stack, redo);
}

#[test]
fn moves_with_other_tools_change_nothing() {
    let mut args = new_args();
    handle_draw_msg(&mut args, DrawMsg::Circle(DrawAction::ModeToggle));
    handle_draw_msg(&mut args, DrawMsg::Circle(DrawAction::Start(1.0, 1.0)));
    handle_draw_msg(&mut args, DrawMsg::Circle(DrawAction::Move(9.0, 9.0, true)));
    assert_eq!(args.annotations.circle_drawing, Some((1.0, 1.0)));
    assert!(args.annotations.history.is_empty());
}

#[test]
fn drawing_leaves_selection_style_and_typing_alone() {
    let mut args = new_args();
    let ui = args.ui;
    let session = args.session;
    handle_draw_msg(&mut args, DrawMsg::Arrow(DrawAction::ModeToggle));
    drag(&mut args, DrawMsg::Arrow, (0.0, 0.0), (1.0, 1.0));
    handle_draw_msg(&mut args, DrawMsg::ClearShapes);
    handle_draw_msg(&mut args, DrawMsg::Undo);
    assert_eq!(args.ui, ui);
    assert_eq!(args.session, session);
    assert!(args.annotations.text_editing.is_none());
}

#[test]
fn redaction_boxes_store_top_left_then_bottom_right() {
    let mut args = new_args();
    handle_draw_msg(&mut args, DrawMsg::Redact(DrawAction::ModeToggle));
    // Dragged up and to the left.
    drag(&mut args, DrawMsg::Redact, (10.0, 20.0), (5.0, 8.0));
    assert_eq!(args.annotations.history[0], Annotation::Redact(RedactAnnotation { x: 5.0, y: 8.0, x2: 10.0, y2: 20.0 }));
    // Dragged down and to the left.
    drag(&mut args, DrawMsg::Redact, (10.0, 20.0), (5.0, 30.0));
    assert_eq!(args.annotations.history[1], Annotation::Redact(RedactAnnotation { x: 5.0, y: 20.0, x2: 10.0, y2: 30.0 }));
    handle_draw_msg(&mut args, DrawMsg::Pixelate(DrawAction::ModeToggle));
    // Dragged up and to the right.
    drag(&mut args, DrawMsg::Pixelate, (1.0, 9.0), (4.0, 2.0));
    assert_eq!(
        args.annotations.history[2],
        Annotation::Pixelate(PixelateAnnotation { x: 1.0, y: 2.0, x2: 4.0, y2: 9.0, block_size: 8 })
    );
}

#[test]
fn shapes_keep_the_drag_direction() {
    let mut args = new_args();
    handle_draw_msg(&mut args, DrawMsg::Rectangle(DrawAction::ModeToggle));
    drag(&mut args, DrawMsg::Rectangle, (10.0, 20.0), (5.0, 8.0));
    assert_eq!(
        args.annotations.history[0],
        Annotation::Rectangle(RectOutlineAnnotation { start_x: 10.0, start_y: 20.0, end_x: 5.0, end_y: 8.0, color: 0xff0000, shadow: true, thickness: 3.0 })
    );
}

/// Whether the committed stroke's points could have come from these reported
/// points, in order.
fn is_subsequence(q: &[(f32, f32)], all: &[(f32, f32)]) -> bool {
    let mut k = 0;
    for p in all {
        if k < q.len() && q[k] == *p {
            k += 1;
        }
    }
    k == q.len()
}

fn hypot(a: (f32, f32), b: (f32, f32)) -> f32 {
    ((a.0 - b.0).powi(2) + (a.1 - b.1).powi(2)).sqrt()
}

/// Draws a pencil stroke, flagging each move as the caller does: far enough
/// when at least 1.5 away from the last sampled point.
fn stroke(args: &mut Args<f32, u32>, start: (f32, f32), moves: &[(f32, f32)], end_at: (f32, f32)) {
    handle_draw_msg(args, DrawMsg::Pencil(DrawAction::Start(start.0, start.1)));
    for p in moves {
        let last = args.annotations.pencil_last_point().unwrap();
        handle_draw_msg(args, DrawMsg::Pencil(DrawAction::Move(p.0, p.1, hypot(last, *p) >= 1.5)));
    }
    let last = args.annotations.pencil_last_point().unwrap();
    handle_draw_msg(args, DrawMsg::Pencil(end(end_at.0, end_at.1, last == end_at)));
}

#[test]
fn every_drawing_message_is_handled() {
    let mut args = new_args();
    let corners = Corners { start_x: 0.0, start_y: 0.0, end_x: 1.0, end_y: 1.0 };
    let msgs = vec![
        DrawMsg::Arrow(DrawAction::ModeToggle),
        DrawMsg::Arrow(DrawAction::Start(1.0, 1.0)),
        DrawMsg::Arrow(DrawAction::Move(2.0, 2.0, true)),
        DrawMsg::Arrow(end(3.0, 3.0, false)),
        DrawMsg::Circle(DrawAction::ModeToggle),
        DrawMsg::Rectangle(DrawAction::ModeToggle),
        DrawMsg::Line(DrawAction::ModeToggle),
        DrawMsg::Pencil(DrawAction::ModeToggle),
        DrawMsg::Magnifier(DrawAction::ModeToggle),
        DrawMsg::MagnifierSelect(Some(0)),
        DrawMsg::MagnifierMove(0, corners),
        DrawMsg::MagnifierResize(0, corners),
        DrawMsg::MagnifierSetZoom(0, 3.0),
        DrawMsg::Redact(DrawAction::ModeToggle),
        DrawMsg::Pixelate(DrawAction::ModeToggle),
        DrawMsg::ClearShapes,
        DrawMsg::ClearRedactions,
        DrawMsg::Undo,
        DrawMsg::Redo,
    ];
    for msg in msgs {
        assert!(handle_draw_msg(&mut args, msg));
    }
}

#[test]
fn committing_a_drag_extends_only_its_kind() {
    let mut args = new_args();
    handle_draw_msg(&mut args, DrawMsg::Arrow(DrawAction::ModeToggle));
    drag(&mut args, DrawMsg::Arrow, (0.0, 0.0), (1.0, 1.0));
    handle_draw_msg(&mut args, DrawMsg::Circle(DrawAction::ModeToggle));
    drag(&mut args, DrawMsg::Circle, (5.0, 5.0), (9.0, 9.0));
    let arrows: Vec<_> = args
        .annotations
        .history
        .iter()
        .filter_map(|a| if let Annotation::Arrow(x) = a { Some(*x) } else { None })
        .collect();
    let circles: Vec<_> = args
        .annotations
        .history
        .iter()
        .filter_map(|a| if let Annotation::Circle(x) = a { Some(*x) } else { None })
        .collect();
    assert_eq!(arrows.len(), 1);
    assert_eq!((arrows[0].end_x, arrows[0].end_y), (1.0, 1.0));
    assert_eq!(circles.len(), 1);
    assert_eq!((circles[0].start_x, circles[0].end_x), (5.0, 9.0));
}

#[test]
fn the_selected_magnifier_is_the_last_in_the_magnifier_list() {
    let mut args = new_args();
    handle_draw_msg(&mut args, DrawMsg::Magnifier(DrawAction::ModeToggle));
    drag(&mut args, DrawMsg::Magnifier, (0.0, 0.0), (10.0, 10.0));
    handle_draw_msg(&mut args, DrawMsg::Arrow(DrawAction::ModeToggle));
    drag(&mut args, DrawMsg::Arrow, (0.0, 0.0), (1.0, 1.0));
    handle_draw_msg(&mut args, DrawMsg::Magnifier(DrawAction::ModeToggle));
    drag(&mut args, DrawMsg::Magnifier, (50.0, 50.0), (60.0, 60.0));
    let magnifiers: Vec<_> = args
        .annotations
        .history
        .iter()
        .filter_map(|a| if let Annotation::Magnifier(m) = a { Some(*m) } else { None })
        .collect();
    assert_eq!(args.annotations.selected_magnifier, Some(magnifiers.len() - 1));
    assert_eq!(args.annotations.magnifier(1), Some(magnifiers[1]));
    assert_eq!(magnifiers[1].start_x, 50.0);
}

#[test]
fn a_pencil_stroke_keeps_its_ends_order_and_minimum_step() {
    let mut args = new_args();
    handle_draw_msg(&mut args, DrawMsg::Pencil(DrawAction::ModeToggle));
    let start = (0.0, 0.0);
    let moves = [(1.0, 0.0), (2.0, 0.0), (2.5, 0.0), (4.0, 0.0), (4.5, 1.0), (6.0, 2.0)];
    let end_at = (6.5, 2.0);
    stroke(&mut args, start, &moves, end_at);
    assert_eq!(args.annotations.history.len(), 1);
    assert!(args.annotations.pencil_drawing.is_none());
    let q = match &args.annotations.history[0] {
        Annotation::Pencil(p) => p.points.clone(),
        other => panic!("expected a pencil stroke, got {other:?}"),
    };
    assert_eq!(q, vec![(0.0, 0.0), (2.0, 0.0), (4.0, 0.0), (6.0, 2.0), (6.5, 2.0)]);
    let mut all = vec![start];
    all.extend_from_slice(&moves);
    all.push(end_at);
    assert!(is_subsequence(&q, &all));
    assert_eq!(q[0], start);
    assert_eq!(*q.last().unwrap(), end_at);
    for i in 1..q.len() - 1 {
        assert!(hypot(q[i - 1], q[i]) >= 1.5);
    }
    assert_ne!(q[q.len() - 2], q[q.len() - 1]);
}

#[test]
fn a_pencil_stroke_ending_on_its_last_sample_is_not_repeated() {
    let mut args = new_args();
    handle_draw_msg(&mut args, DrawMsg::Pencil(DrawAction::ModeToggle));
    stroke(&mut args, (0.0, 0.0), &[(0.5, 0.5), (3.0, 0.0)], (3.0, 0.0));
    match &args.annotations.history[0] {
        Annotation::Pencil(p) => assert_eq!(p.points, vec![(0.0, 0.0), (3.0, 0.0)]),
        other => panic!("expected a pencil stroke, got {other:?}"),
    }
}

#[test]
fn a_pencil_stroke_that_never_leaves_its_start_is_dropped() {
    let mut args = new_args();
    handle_draw_msg(&mut args, DrawMsg::Pencil(DrawAction::ModeToggle));
    stroke(&mut args, (1.0, 1.0), &[(1.5, 1.0), (1.0, 1.5)], (1.0, 1.0));
    assert!(args.annotations.history.is_empty());
    assert!(args.annotations.pencil_drawing.is_none());
}
