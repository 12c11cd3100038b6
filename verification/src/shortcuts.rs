//! Keyboard shortcuts: which message a key press produces.
use vstd::prelude::*;
use crate::state::{Args, Choice};

verus! {

/// Named (non-character) keys that the shortcuts look at; every other named
/// key is `Other`.
#[derive(Clone, Copy, Debug, PartialEq, Eq, Structural)]
pub enum Named {
    Enter,
    Escape,
    Backspace,
    Tab,
    ArrowLeft,
    ArrowRight,
    ArrowUp,
    ArrowDown,
    Home,
    Other,
}

/// A key press.
#[derive(Clone, Debug, PartialEq, Eq)]
pub enum Key {
    Named(Named),
    /// A key that produces text, with that text
    Character(String),
    Unidentified,
}

/// Modifier keys held during a key press.
#[derive(Clone, Copy, Debug, PartialEq, Eq, Structural)]
pub struct Modifiers {
    pub shift: bool,
    pub control: bool,
    pub alt: bool,
    pub logo: bool,
}

impl Default for Modifiers {
    fn default() -> (r: Self)
        ensures
            !r.shift && !r.control && !r.alt && !r.logo,
    {
        Modifiers { shift: false, control: false, alt: false, logo: false }
    }
}

/// Where the toolbar sits on the screen.
#[derive(Clone, Copy, Debug, PartialEq, Eq, Structural)]
pub enum ToolbarPosition {
    Left,
    Bottom,
    Top,
    Right,
}

/// Edits to the text label being typed.
#[derive(Clone, Debug, PartialEq, Eq)]
pub enum TextAction {
    /// Insert the given text at the end of the label
    Insert(String),
    /// Start a new line
    Newline,
    /// Finish the label, keeping it
    Commit,
    /// Delete the last character
    Backspace,
}

/// Messages that key presses produce.
#[derive(Clone, Debug, PartialEq, Eq)]
pub enum Msg {
    Text(TextAction),
    ToolbarPosition(ToolbarPosition),
    Undo,
    Redo,
    SaveToPictures,
    CancelRequested,
    Confirm,
    CopyToClipboard,
    NavigateLeft,
    NavigateRight,
    CycleShapeTool,
    ShapeModeToggle,
    CycleRedactTool,
    RedactToolModeToggle,
    OcrCopyAndClose,
    OcrRequested,
    QrCopyAndClose,
    QrRequested,
    RecordRegion,
    RegionMode,
    ScreenMode(usize),
}

/// What a key press yields while a text label is being typed: every key the
/// label plausibly owns is turned into a text action, and nothing else.
pub open spec fn text_key_result(key: Key, m: Modifiers, r: Option<Msg>) -> bool {
    match key {
        // Enter commits; Shift+Enter adds a line break.
        Key::Named(Named::Enter) => r == Some(
            if m.shift {
                Msg::Text(TextAction::Newline)
            } else {
                Msg::Text(TextAction::Commit)
            },
        ),
        // Escape finishes the label (keeping it) rather than cancelling the screenshot.
        Key::Named(Named::Escape) => r == Some(Msg::Text(TextAction::Commit)),
        Key::Named(Named::Backspace) => r == Some(Msg::Text(TextAction::Backspace)),
        Key::Named(Named::Tab) => r matches Some(Msg::Text(TextAction::Insert(s))) && s@ == seq![' ', ' ', ' ', ' '],
        // Ctrl/Alt combos finish the label; other characters are typed.
        Key::Character(c) => if m.control || m.alt {
            r == Some(Msg::Text(TextAction::Commit))
        } else {
            r matches Some(Msg::Text(TextAction::Insert(s))) && s@ == c@
        },
        _ => r is None,
    }
}

/// Route a key press to the text annotation being typed.
///
/// While a text annotation is open, keystrokes are text, not shortcuts.
pub fn handle_text_editing_key(key: &Key, modifiers: Modifiers) -> (r: Option<Msg>)
    ensures
        text_key_result(*key, modifiers, r),
        r is None || r matches Some(Msg::Text(_)),
        // A character typed without Ctrl and without Alt, Shift or not, is
        // inserted as exactly that key's text.
        *key is Character && !modifiers.control && !modifiers.alt ==> (r matches Some(
            Msg::Text(TextAction::Insert(s)),
        ) && s@ == key->Character_0@),
        // With Ctrl or Alt held, a character key finishes the label.
        *key is Character && (modifiers.control || modifiers.alt) ==> r == Some(Msg::Text(TextAction::Commit)),
        *key == Key::Named(Named::Enter) && !modifiers.shift ==> r == Some(Msg::Text(TextAction::Commit)),
        *key == Key::Named(Named::Enter) && modifiers.shift ==> r == Some(Msg::Text(TextAction::Newline)),
        *key == Key::Named(Named::Escape) ==> r == Some(Msg::Text(TextAction::Commit)),
        *key == Key::Named(Named::Backspace) ==> r == Some(Msg::Text(TextAction::Backspace)),
        *key == Key::Named(Named::Tab) ==> (r matches Some(Msg::Text(TextAction::Insert(s))) && s@ == seq![
            ' ',
            ' ',
            ' ',
            ' ',
        ]),
        *key is Unidentified ==> r is None,
{
    match key {
        Key::Named(Named::Enter) => {
            if modifiers.shift {
                Some(Msg::Text(TextAction::Newline))
            } else {
                Some(Msg::Text(TextAction::Commit))
            }
        },
        Key::Named(Named::Escape) => Some(Msg::Text(TextAction::Commit)),
        Key::Named(Named::Backspace) => Some(Msg::Text(TextAction::Backspace)),
        Key::Named(Named::Tab) => {
            let indent = "    ".to_owned();
            proof {
                reveal_strlit("    ");
                assert(indent@ =~= seq![' ', ' ', ' ', ' ']);
            }
            Some(Msg::Text(TextAction::Insert(indent)))
        },
        Key::Character(c) => {
            if modifiers.control || modifiers.alt {
                Some(Msg::Text(TextAction::Commit))
            } else {
                Some(Msg::Text(TextAction::Insert(c.clone())))
            }
        },
        // Everything else (arrows, F-keys, modifiers alone) is swallowed.
        _ => None,
    }
}

/// The key is a character key producing exactly the character `c`.
pub open spec fn key_char(key: Key, c: char) -> bool {
    key matches Key::Character(s) && s@ == seq![c]
}

/// The key is the named key `n`.
pub open spec fn key_named(key: Key, n: Named) -> bool {
    key matches Key::Named(k) && k == n
}

/// A complete selection exists: a rectangle with an area, or a confirmed screen.
pub open spec fn has_selection(choice: Choice) -> bool {
    match choice {
        Choice::Rectangle(d) => d is Some,
        Choice::Output(o) => o is Some,
        _ => false,
    }
}

/// The screen picker is open.
pub open spec fn in_screen_picker(choice: Choice) -> bool {
    choice == Choice::Output(None)
}

/// The shortcut table, first match wins.
pub open spec fn shortcut_msg(
    key: Key,
    m: Modifiers,
    selection: bool,
    picker: bool,
    arrow_mode: bool,
    redact_mode: bool,
    ocr_result: bool,
    qr_result: bool,
    output_index: usize,
) -> Option<Msg> {
    // Ctrl+hjkl or Ctrl+arrows: move toolbar position
    if key_char(key, 'h') && m.control {
        Some(Msg::ToolbarPosition(ToolbarPosition::Left))
    } else if key_char(key, 'j') && m.control {
        Some(Msg::ToolbarPosition(ToolbarPosition::Bottom))
    } else if key_char(key, 'k') && m.control {
        Some(Msg::ToolbarPosition(ToolbarPosition::Top))
    } else if key_char(key, 'l') && m.control {
        Some(Msg::ToolbarPosition(ToolbarPosition::Right))
    } else if key_named(key, Named::ArrowLeft) && m.control {
        Some(Msg::ToolbarPosition(ToolbarPosition::Left))
    } else if key_named(key, Named::ArrowDown) && m.control {
        Some(Msg::ToolbarPosition(ToolbarPosition::Bottom))
    } else if key_named(key, Named::ArrowUp) && m.control {
        Some(Msg::ToolbarPosition(ToolbarPosition::Top))
    } else if key_named(key, Named::ArrowRight) && m.control {
        Some(Msg::ToolbarPosition(ToolbarPosition::Right))
    // Undo/redo
    } else if key_char(key, 'z') && m.control && !m.shift {
        Some(Msg::Undo)
    } else if (key_char(key, 'y') && m.control) || (key_char(key, 'z') && m.control && m.shift) {
        Some(Msg::Redo)
    // Save/copy
    } else if key_named(key, Named::Enter) && m.control {
        Some(Msg::SaveToPictures)
    } else if key_named(key, Named::Escape) {
        Some(Msg::CancelRequested)
    } else if key_char(key, ' ') && picker {
        Some(Msg::Confirm)
    } else if key_named(key, Named::Enter) && picker {
        Some(Msg::Confirm)
    } else if key_named(key, Named::Enter) {
        Some(Msg::CopyToClipboard)
    // Screen picker navigation
    } else if key_char(key, 'h') && picker {
        Some(Msg::NavigateLeft)
    } else if key_char(key, 'l') && picker {
        Some(Msg::NavigateRight)
    } else if key_named(key, Named::ArrowLeft) && picker {
        Some(Msg::NavigateLeft)
    } else if key_named(key, Named::ArrowRight) && picker {
        Some(Msg::NavigateRight)
    // Tool shortcuts (require a selection)
    } else if (key_char(key, 'a') || key_char(key, 'A')) && m.shift && selection {
        Some(Msg::CycleShapeTool)
    } else if key_char(key, 'a') && selection {
        Some(Msg::ShapeModeToggle)
    } else if key_char(key, 'D') && m.shift && selection {
        Some(Msg::CycleRedactTool)
    } else if key_char(key, 'd') && selection {
        Some(Msg::RedactToolModeToggle)
    } else if key_char(key, 'o') && ocr_result {
        Some(Msg::OcrCopyAndClose)
    } else if key_char(key, 'o') && selection {
        Some(Msg::OcrRequested)
    } else if key_char(key, 'q') && qr_result {
        Some(Msg::QrCopyAndClose)
    } else if key_char(key, 'q') && selection {
        Some(Msg::QrRequested)
    } else if key_char(key, 'R') && m.shift && selection {
        Some(Msg::RecordRegion)
    // Selection modes (not while drawing arrows or redactions)
    } else if key_char(key, 'r') && !arrow_mode && !redact_mode {
        Some(Msg::RegionMode)
    } else if key_char(key, 's') && !arrow_mode && !redact_mode {
        Some(Msg::ScreenMode(output_index))
    } else {
        None
    }
}

/// The single character a key produces, if it produces exactly one.
fn single_char(key: &Key) -> (r: Option<char>)
    ensures
        forall|c: char| key_char(*key, c) <==> r == Some(c),
{
    match key {
        Key::Character(s) => {
            if s.as_str().unicode_len() == 1 {
                let c = s.as_str().get_char(0);
                proof {
                    assert(s@ =~= seq![c]);
                }
                Some(c)
            } else {
                None
            }
        },
        _ => None,
    }
}

/// The message a key press produces: while a text label is being typed the
/// key goes to the label; otherwise the shortcut table decides.
pub fn handle_key_event<F, C>(
    args: &Args<F, C>,
    key: Key,
    modifiers: Modifiers,
    current_output_index: usize,
) -> (r: Option<Msg>)
    ensures
        args.annotations.text_editing is Some ==> text_key_result(key, modifiers, r),
        args.annotations.text_editing is Some ==> (r is None || r matches Some(Msg::Text(_))),
        args.annotations.text_editing is None ==> r == shortcut_msg(
            key,
            modifiers,
            has_selection(args.session.choice),
            in_screen_picker(args.session.choice),
            args.annotations.arrow_mode,
            args.annotations.redact_mode,
            args.detection.ocr_text is Some,
            args.detection.qr_codes@.len() > 0,
            current_output_index,
        ),
        // While a label is typed, characters without Ctrl/Alt are text and
        // Ctrl/Alt combinations finish the label.
        args.annotations.text_editing is Some && key is Character && !modifiers.control && !modifiers.alt
            ==> (r matches Some(Msg::Text(TextAction::Insert(s))) && s@ == key->Character_0@),
        args.annotations.text_editing is Some && key is Character && (modifiers.control || modifiers.alt)
            ==> r == Some(Msg::Text(TextAction::Commit)),
        // Ctrl+h/j/k/l and Ctrl+arrows move the toolbar.
        args.annotations.text_editing is None && modifiers.control && key_char(key, 'h') ==> r == Some(
            Msg::ToolbarPosition(ToolbarPosition::Left),
        ),
        args.annotations.text_editing is None && modifiers.control && key_char(key, 'j') ==> r == Some(
            Msg::ToolbarPosition(ToolbarPosition::Bottom),
        ),
        args.annotations.text_editing is None && modifiers.control && key_char(key, 'k') ==> r == Some(
            Msg::ToolbarPosition(ToolbarPosition::Top),
        ),
        args.annotations.text_editing is None && modifiers.control && key_char(key, 'l') ==> r == Some(
            Msg::ToolbarPosition(ToolbarPosition::Right),
        ),
        args.annotations.text_editing is None && modifiers.control && key == Key::Named(Named::ArrowLeft)
            ==> r == Some(Msg::ToolbarPosition(ToolbarPosition::Left)),
        args.annotations.text_editing is None && modifiers.control && key == Key::Named(Named::ArrowDown)
            ==> r == Some(Msg::ToolbarPosition(ToolbarPosition::Bottom)),
        args.annotations.text_editing is None && modifiers.control && key == Key::Named(Named::ArrowUp)
            ==> r == Some(Msg::ToolbarPosition(ToolbarPosition::Top)),
        args.annotations.text_editing is None && modifiers.control && key == Key::Named(Named::ArrowRight)
            ==> r == Some(Msg::ToolbarPosition(ToolbarPosition::Right)),
        // Undo and redo.
        args.annotations.text_editing is None && modifiers.control && !modifiers.shift && key_char(key, 'z')
            ==> r == Some(Msg::Undo),
        args.annotations.text_editing is None && modifiers.control && modifiers.shift && key_char(key, 'z')
            ==> r == Some(Msg::Redo),
        args.annotations.text_editing is None && modifiers.control && key_char(key, 'y') ==> r == Some(
            Msg::Redo,
        ),
        // Save, cancel, confirm, copy.
        args.annotations.text_editing is None && modifiers.control && key == Key::Named(Named::Enter) ==> r
            == Some(Msg::SaveToPictures),
        args.annotations.text_editing is None && key == Key::Named(Named::Escape) ==> r == Some(
            Msg::CancelRequested,
        ),
        args.annotations.text_editing is None && !modifiers.control && key == Key::Named(Named::Enter)
            ==> r == Some(
            if args.session.choice == Choice::Output(None) {
                Msg::Confirm
            } else {
                Msg::CopyToClipboard
            },
        ),
        args.annotations.text_editing is None && key_char(key, ' ') && args.session.choice == Choice::Output(
            None,
        ) ==> r == Some(Msg::Confirm),
        // Navigation in the screen picker.
        args.annotations.text_editing is None && !modifiers.control && args.session.choice == Choice::Output(
            None,
        ) && (key_char(key, 'h') || key == Key::Named(Named::ArrowLeft)) ==> r == Some(Msg::NavigateLeft),
        args.annotations.text_editing is None && !modifiers.control && args.session.choice == Choice::Output(
            None,
        ) && (key_char(key, 'l') || key == Key::Named(Named::ArrowRight)) ==> r == Some(Msg::NavigateRight),
        // Tool shortcuts, with a selection.
        args.annotations.text_editing is None && has_selection(args.session.choice) && modifiers.shift && (
        key_char(key, 'a') || key_char(key, 'A')) ==> r == Some(Msg::CycleShapeTool),
        args.annotations.text_editing is None && has_selection(args.session.choice) && !modifiers.shift
            && key_char(key, 'a') ==> r == Some(Msg::ShapeModeToggle),
        args.annotations.text_editing is None && has_selection(args.session.choice) && modifiers.shift
            && key_char(key, 'D') ==> r == Some(Msg::CycleRedactTool),
        args.annotations.text_editing is None && has_selection(args.session.choice) && key_char(key, 'd')
            ==> r == Some(Msg::RedactToolModeToggle),
        args.annotations.text_editing is None && key_char(key, 'o') ==> r == if args.detection.ocr_text is Some {
            Some(Msg::OcrCopyAndClose)
        } else if has_selection(args.session.choice) {
            Some(Msg::OcrRequested)
        } else {
            None
        },
        args.annotations.text_editing is None && key_char(key, 'q') ==> r == if args.detection.qr_codes@.len()
            > 0 {
            Some(Msg::QrCopyAndClose)
        } else if has_selection(args.session.choice) {
            Some(Msg::QrRequested)
        } else {
            None
        },
        args.annotations.text_editing is None && has_selection(args.session.choice) && modifiers.shift
            && key_char(key, 'R') ==> r == Some(Msg::RecordRegion),
        // Selection modes, unless arrows or redactions are being drawn.
        args.annotations.text_editing is None && key_char(key, 'r') ==> r == if !args.annotations.arrow_mode
            && !args.annotations.redact_mode {
            Some(Msg::RegionMode)
        } else {
            None
        },
        args.annotations.text_editing is None && key_char(key, 's') ==> r == if !args.annotations.arrow_mode
            && !args.annotations.redact_mode {
            Some(Msg::ScreenMode(current_output_index))
        } else {
            None
        },
        args.annotations.text_editing is None && key is Unidentified ==> r is None,
{
    // Text editing owns the keyboard while it's active.
    if args.annotations.text_editing.is_some() {
        return handle_text_editing_key(&key, modifiers);
    }
    let has_selection = match args.session.choice {
        Choice::Rectangle(d) => d.is_some(),
        Choice::Output(o) => o.is_some(),
        _ => false,
    };
    let in_screen_picker = match args.session.choice {
        Choice::Output(o) => o.is_none(),
        _ => false,
    };
    let arrow_mode = args.annotations.arrow_mode;
    let redact_mode = args.annotations.redact_mode;
    let has_ocr_result = args.detection.ocr_text.is_some();
    let has_qr_result = args.detection.qr_codes.len() > 0;
    let ch = single_char(&key);
    let named = match &key {
        Key::Named(n) => Some(*n),
        _ => None,
    };
    let ctrl = modifiers.control;
    let shift = modifiers.shift;
    let is = |c: char| -> (b: bool)
        ensures
            b == (ch == Some(c)),
        {
            match ch {
                Some(d) => d == c,
                None => false,
            }
        };
    let is_named = |n: Named| -> (b: bool)
        ensures
            b == (named == Some(n)),
        {
            match named {
                Some(k) => k == n,
                None => false,
            }
        };
    if is('h') && ctrl {
        Some(Msg::ToolbarPosition(ToolbarPosition::Left))
    } else if is('j') && ctrl {
        Some(Msg::ToolbarPosition(ToolbarPosition::Bottom))
    } else if is('k') && ctrl {
        Some(Msg::ToolbarPosition(ToolbarPosition::Top))
    } else if is('l') && ctrl {
        Some(Msg::ToolbarPosition(ToolbarPosition::Right))
    } else if is_named(Named::ArrowLeft) && ctrl {
        Some(Msg::ToolbarPosition(ToolbarPosition::Left))
    } else if is_named(Named::ArrowDown) && ctrl {
        Some(Msg::ToolbarPosition(ToolbarPosition::Bottom))
    } else if is_named(Named::ArrowUp) && ctrl {
        Some(Msg::ToolbarPosition(ToolbarPosition::Top))
    } else if is_named(Named::ArrowRight) && ctrl {
        Some(Msg::ToolbarPosition(ToolbarPosition::Right))
    } else if is('z') && ctrl && !shift {
        Some(Msg::Undo)
    } else if (is('y') && ctrl) || (is('z') && ctrl && shift) {
        Some(Msg::Redo)
    } else if is_named(Named::Enter) && ctrl {
        Some(Msg::SaveToPictures)
    } else if is_named(Named::Escape) {
        Some(Msg::CancelRequested)
    } else if is(' ') && in_screen_picker {
        Some(Msg::Confirm)
    } else if is_named(Named::Enter) && in_screen_picker {
        Some(Msg::Confirm)
    } else if is_named(Named::Enter) {
        Some(Msg::CopyToClipboard)
    } else if is('h') && in_screen_picker {
        Some(Msg::NavigateLeft)
    } else if is('l') && in_screen_picker {
        Some(Msg::NavigateRight)
    } else if is_named(Named::ArrowLeft) && in_screen_picker {
        Some(Msg::NavigateLeft)
    } else if is_named(Named::ArrowRight) && in_screen_picker {
        Some(Msg::NavigateRight)
    } else if (is('a') || is('A')) && shift && has_selection {
        Some(Msg::CycleShapeTool)
    } else if is('a') && has_selection {
        Some(Msg::ShapeModeToggle)
    } else if is('D') && shift && has_selection {
        Some(Msg::CycleRedactTool)
    } else if is('d') && has_selection {
        Some(Msg::RedactToolModeToggle)
    } else if is('o') && has_ocr_result {
        Some(Msg::OcrCopyAndClose)
    } else if is('o') && has_selection {
        Some(Msg::OcrRequested)
    } else if is('q') && has_qr_result {
        Some(Msg::QrCopyAndClose)
    } else if is('q') && has_selection {
        Some(Msg::QrRequested)
    } else if is('R') && shift && has_selection {
        Some(Msg::RecordRegion)
    } else if is('r') && !arrow_mode && !redact_mode {
        Some(Msg::RegionMode)
    } else if is('s') && !arrow_mode && !redact_mode {
        Some(Msg::ScreenMode(current_output_index))
    } else {
        None
    }
}

} // verus!
