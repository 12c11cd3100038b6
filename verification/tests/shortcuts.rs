use snappea::shortcuts::{
    handle_key_event, handle_text_editing_key, Key, Modifiers, Msg, Named, TextAction,
    ToolbarPosition,
};
use snappea::state::{Annotations, Args, Choice, Detection, Session, UiSettings};
use snappea::domain::TextEditing;

fn ch(c: &str) -> Key {
    Key::Character(c.to_string())
}

fn shift() -> Modifiers {
    Modifiers { shift: true, ..Modifiers::default() }
}

fn ctrl() -> Modifiers {
    Modifiers { control: true, ..Modifiers::default() }
}

/// Extract the text action a key produced, if any.
fn text_action(key: Key, modifiers: Modifiers) -> Option<TextAction> {
    match handle_text_editing_key(&key, modifiers) {
        Some(Msg::Text(action)) => Some(action),
        _ => None,
    }
}

#[test]
fn letters_that_are_shortcuts_are_typed_as_text_instead() {
    for c in ["a", "d", "r", "o", "q", "s", "R", "D"] {
        match text_action(ch(c), Modifiers::default()) {
            Some(TextAction::Insert(s)) => assert_eq!(s, c),
            other => panic!("{c:?} should insert text, got {other:?}"),
        }
    }
}

#[test]
fn space_is_typed_as_text() {
    match text_action(ch(" "), Modifiers::default()) {
        Some(TextAction::Insert(s)) => assert_eq!(s, " "),
        other => panic!("space should insert text, got {other:?}"),
    }
}

#[test]
fn enter_commits_and_shift_enter_adds_a_line() {
    assert!(matches!(
        text_action(Key::Named(Named::Enter), Modifiers::default()),
        Some(TextAction::Commit)
    ));
    assert!(matches!(
        text_action(Key::Named(Named::Enter), shift()),
        Some(TextAction::Newline)
    ));
}

#[test]
fn escape_saves_the_label_rather_than_cancelling_the_screenshot() {
    assert!(matches!(
        text_action(Key::Named(Named::Escape), Modifiers::default()),
        Some(TextAction::Commit)
    ));
}

#[test]
fn backspace_deletes_and_tab_indents() {
    assert!(matches!(
        text_action(Key::Named(Named::Backspace), Modifiers::default()),
        Some(TextAction::Backspace)
    ));
    match text_action(Key::Named(Named::Tab), Modifiers::default()) {
        Some(TextAction::Insert(s)) => assert_eq!(s, "    "),
        other => panic!("tab should indent, got {other:?}"),
    }
}

#[test]
fn ctrl_combos_commit_instead_of_typing_a_letter() {
    assert!(matches!(text_action(ch("z"), ctrl()), Some(TextAction::Commit)));
}

#[test]
fn navigation_keys_are_swallowed_while_editing() {
    for key in [
        Key::Named(Named::ArrowLeft),
        Key::Named(Named::ArrowRight),
        Key::Named(Named::Home),
    ] {
        assert!(
            handle_text_editing_key(&key, Modifiers::default()).is_none(),
            "{key:?} should be ignored while editing"
        );
    }
}

fn args_with(choice: Choice) -> Args<f32, u32> {
    Args {
        annotations: Annotations::new(),
        detection: Detection::new(),
        session: Session { choice },
        ui: UiSettings {
            shape_color: 1,
            shape_shadow: false,
            shape_thickness: 3.0,
            magnifier_magnification: 2.0,
            pixelation_block_size: 8,
        },
    }
}

#[test]
fn alt_combos_also_commit_while_editing() {
    let alt = Modifiers { alt: true, ..Modifiers::default() };
    assert!(matches!(text_action(ch("x"), alt), Some(TextAction::Commit)));
}

#[test]
fn text_editing_owns_the_keyboard() {
    let mut args = args_with(Choice::Rectangle(Some((10, 10))));
    args.annotations.text_editing = Some(TextEditing {
        x: 1.0,
        y: 2.0,
        content: String::new(),
        font_size: 24.0,
        color: 1,
        shadow: false,
        replacing: None,
    });
    match handle_key_event(&args, ch("a"), Modifiers::default(), 0) {
        Some(Msg::Text(TextAction::Insert(s))) => assert_eq!(s, "a"),
        other => panic!("expected text, got {other:?}"),
    }
    assert_eq!(
        handle_key_event(&args, Key::Named(Named::Escape), Modifiers::default(), 0),
        Some(Msg::Text(TextAction::Commit))
    );
    assert_eq!(handle_key_event(&args, ch("z"), ctrl(), 0), Some(Msg::Text(TextAction::Commit)));
}

#[test]
fn toolbar_moves_with_ctrl_hjkl_and_arrows() {
    let args = args_with(Choice::Output(None));
    assert_eq!(
        handle_key_event(&args, ch("h"), ctrl(), 0),
        Some(Msg::ToolbarPosition(ToolbarPosition::Left))
    );
    assert_eq!(
        handle_key_event(&args, ch("j"), ctrl(), 0),
        Some(Msg::ToolbarPosition(ToolbarPosition::Bottom))
    );
    assert_eq!(
        handle_key_event(&args, ch("k"), ctrl(), 0),
        Some(Msg::ToolbarPosition(ToolbarPosition::Top))
    );
    assert_eq!(
        handle_key_event(&args, Key::Named(Named::ArrowRight), ctrl(), 0),
        Some(Msg::ToolbarPosition(ToolbarPosition::Right))
    );
}

#[test]
fn undo_redo_and_cancel_shortcuts() {
    let args = args_with(Choice::Rectangle(None));
    assert_eq!(handle_key_event(&args, ch("z"), ctrl(), 0), Some(Msg::Undo));
    let ctrl_shift = Modifiers { control: true, shift: true, ..Modifiers::default() };
    assert_eq!(handle_key_event(&args, ch("z"), ctrl_shift, 0), Some(Msg::Redo));
    assert_eq!(handle_key_event(&args, ch("y"), ctrl(), 0), Some(Msg::Redo));
    assert_eq!(
        handle_key_event(&args, Key::Named(Named::Escape), Modifiers::default(), 0),
        Some(Msg::CancelRequested)
    );
    assert_eq!(
        handle_key_event(&args, Key::Named(Named::Enter), ctrl(), 0),
        Some(Msg::SaveToPictures)
    );
}

#[test]
fn picker_confirms_and_navigates() {
    let args = args_with(Choice::Output(None));
    assert_eq!(handle_key_event(&args, ch(" "), Modifiers::default(), 0), Some(Msg::Confirm));
    assert_eq!(
        handle_key_event(&args, Key::Named(Named::Enter), Modifiers::default(), 0),
        Some(Msg::Confirm)
    );
    assert_eq!(handle_key_event(&args, ch("h"), Modifiers::default(), 0), Some(Msg::NavigateLeft));
    assert_eq!(
        handle_key_event(&args, Key::Named(Named::ArrowRight), Modifiers::default(), 0),
        Some(Msg::NavigateRight)
    );
    // No selection yet: tool shortcuts do nothing.
    assert_eq!(handle_key_event(&args, ch("a"), Modifiers::default(), 0), None);
}

#[test]
fn enter_copies_outside_the_picker() {
    let args = args_with(Choice::Output(Some(1)));
    assert_eq!(
        handle_key_event(&args, Key::Named(Named::Enter), Modifiers::default(), 0),
        Some(Msg::CopyToClipboard)
    );
}

#[test]
fn tool_shortcuts_need_a_selection() {
    let args = args_with(Choice::Rectangle(Some((20, 30))));
    assert_eq!(handle_key_event(&args, ch("A"), shift(), 0), Some(Msg::CycleShapeTool));
    assert_eq!(handle_key_event(&args, ch("a"), Modifiers::default(), 0), Some(Msg::ShapeModeToggle));
    assert_eq!(handle_key_event(&args, ch("D"), shift(), 0), Some(Msg::CycleRedactTool));
    assert_eq!(handle_key_event(&args, ch("d"), Modifiers::default(), 0), Some(Msg::RedactToolModeToggle));
    assert_eq!(handle_key_event(&args, ch("o"), Modifiers::default(), 0), Some(Msg::OcrRequested));
    assert_eq!(handle_key_event(&args, ch("q"), Modifiers::default(), 0), Some(Msg::QrRequested));
    assert_eq!(handle_key_event(&args, ch("R"), shift(), 0), Some(Msg::RecordRegion));

    let incomplete = args_with(Choice::Rectangle(None));
    assert_eq!(handle_key_event(&incomplete, ch("a"), Modifiers::default(), 0), None);
    assert_eq!(handle_key_event(&incomplete, ch("o"), Modifiers::default(), 0), None);
}

#[test]
fn ocr_and_qr_results_are_copied_on_second_press() {
    let mut args = args_with(Choice::Window(None));
    args.detection.ocr_text = Some("hello".to_string());
    args.detection.qr_codes.push("https://example.org".to_string());
    assert_eq!(handle_key_event(&args, ch("o"), Modifiers::default(), 0), Some(Msg::OcrCopyAndClose));
    assert_eq!(handle_key_event(&args, ch("q"), Modifiers::default(), 0), Some(Msg::QrCopyAndClose));
}

#[test]
fn selection_modes_are_blocked_while_drawing_arrows_or_redactions() {
    let mut args = args_with(Choice::Rectangle(Some((5, 5))));
    assert_eq!(handle_key_event(&args, ch("r"), Modifiers::default(), 3), Some(Msg::RegionMode));
    assert_eq!(handle_key_event(&args, ch("s"), Modifiers::default(), 3), Some(Msg::ScreenMode(3)));
    args.annotations.arrow_mode = true;
    assert_eq!(handle_key_event(&args, ch("r"), Modifiers::default(), 3), None);
    args.annotations.arrow_mode = false;
    args.annotations.redact_mode = true;
    assert_eq!(handle_key_event(&args, ch("s"), Modifiers::default(), 3), None);
}

#[test]
fn unknown_keys_produce_nothing() {
    let args = args_with(Choice::Rectangle(Some((5, 5))));
    assert_eq!(handle_key_event(&args, ch("x"), Modifiers::default(), 0), None);
    assert_eq!(handle_key_event(&args, ch("hh"), ctrl(), 0), None);
    assert_eq!(handle_key_event(&args, Key::Unidentified, Modifiers::default(), 0), None);
}
