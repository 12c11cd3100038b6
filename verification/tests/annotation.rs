use snappea::domain::{
    char_is_white_space, Annotation, PencilAnnotation, RedactAnnotation, TextAnnotation,
    TextEditing,
};

fn text(content: &str) -> TextAnnotation<f32, u32> {
    TextAnnotation { x: 0.0, y: 0.0, content: content.to_string(), font_size: 24.0, color: 0, shadow: false }
}

#[test]
fn blank_text_is_not_worth_keeping() {
    assert!(!text("").is_valid());
    assert!(!text("   \n\t").is_valid());
    assert!(!text("\u{3000}\u{2003}").is_valid());
    assert!(text(" a ").is_valid());
    assert!(text("\nhi").is_valid());
}

#[test]
fn white_space_matches_std() {
    for c in ['\t', '\n', '\u{0b}', '\u{0c}', '\r', ' ', '\u{85}', '\u{a0}', '\u{1680}', '\u{2000}', '\u{200a}', '\u{2028}', '\u{2029}', '\u{202f}', '\u{205f}', '\u{3000}', 'a', '\u{200b}', '\u{feff}', '\u{180e}'] {
        assert_eq!(char_is_white_space(c), c.is_whitespace(), "{:?}", c);
    }
    for u in 0u32..0x3100 {
        if let Some(c) = char::from_u32(u) {
            assert_eq!(char_is_white_space(c), c.is_whitespace(), "{:?}", c);
        }
    }
}

#[test]
fn a_stroke_needs_two_points() {
    let mut p: PencilAnnotation<f32, u32> = PencilAnnotation { points: vec![(1.0, 1.0)], color: 0, shadow: false, thickness: 3.0 };
    assert!(!p.is_valid());
    p.points.push((2.0, 2.0));
    assert!(p.is_valid());
}

#[test]
fn committing_an_edit_keeps_its_text_and_style() {
    let editing: TextEditing<f32, u32> = TextEditing {
        x: 3.0,
        y: 4.0,
        content: "hello".to_string(),
        font_size: 32.0,
        color: 9,
        shadow: true,
        replacing: Some(2),
    };
    assert_eq!(
        editing.into_annotation(),
        TextAnnotation { x: 3.0, y: 4.0, content: "hello".to_string(), font_size: 32.0, color: 9, shadow: true }
    );
}

#[test]
fn shapes_and_redactions_partition_annotations() {
    let t: Annotation<f32, u32> = Annotation::Text(text("x"));
    let r: Annotation<f32, u32> = Annotation::Redact(RedactAnnotation { x: 0.0, y: 0.0, x2: 1.0, y2: 1.0 });
    assert!(t.is_shape() && !t.is_redaction());
    assert!(r.is_redaction() && !r.is_shape());
}
