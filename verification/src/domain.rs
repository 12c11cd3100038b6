//! Annotation types for drawing on screenshots.
//!
//! All annotation types store coordinates in global logical coordinates.
//! Coordinates and other measured quantities have the scalar type `F`, and
//! colours the type `C`; the library only stores and moves such values,
//! it never computes with them.
use vstd::prelude::*;

verus! {

/// Arrow annotation for drawing on screenshots.
#[derive(Clone, Copy, Debug, PartialEq)]
pub struct ArrowAnnotation<F, C> {
    /// Start point in global logical coordinates
    pub start_x: F,
    pub start_y: F,
    /// End point in global logical coordinates
    pub end_x: F,
    pub end_y: F,
    /// Color of this arrow
    pub color: C,
    /// Whether to draw shadow/border
    pub shadow: bool,
    /// Stroke thickness in logical units
    pub thickness: F,
}

/// Straight line annotation (an arrow without the head).
#[derive(Clone, Copy, Debug, PartialEq)]
pub struct LineAnnotation<F, C> {
    pub start_x: F,
    pub start_y: F,
    pub end_x: F,
    pub end_y: F,
    pub color: C,
    pub shadow: bool,
    pub thickness: F,
}

/// Outline rectangle annotation (no fill).
#[derive(Clone, Copy, Debug, PartialEq)]
pub struct RectOutlineAnnotation<F, C> {
    pub start_x: F,
    pub start_y: F,
    pub end_x: F,
    pub end_y: F,
    pub color: C,
    pub shadow: bool,
    pub thickness: F,
}

/// Outline circle/ellipse annotation (no fill).
#[derive(Clone, Copy, Debug, PartialEq)]
pub struct CircleOutlineAnnotation<F, C> {
    pub start_x: F,
    pub start_y: F,
    pub end_x: F,
    pub end_y: F,
    pub color: C,
    pub shadow: bool,
    pub thickness: F,
}

/// Redaction annotation (black rectangle) for hiding sensitive content.
#[derive(Clone, Copy, Debug, PartialEq)]
pub struct RedactAnnotation<F> {
    /// Top-left point in global logical coordinates
    pub x: F,
    pub y: F,
    /// Bottom-right point in global logical coordinates
    pub x2: F,
    pub y2: F,
}

/// Pixelation annotation for obscuring sensitive content.
#[derive(Clone, Copy, Debug, PartialEq)]
pub struct PixelateAnnotation<F> {
    pub x: F,
    pub y: F,
    pub x2: F,
    pub y2: F,
    /// Block size for this pixelation
    pub block_size: u32,
}

/// Magnifier annotation: a circular loupe that zooms into the content beneath it.
///
/// Defined by a bounding box (like a circle); the interior shows the underlying
/// image content scaled up by `magnification`.
#[derive(Clone, Copy, Debug, PartialEq)]
pub struct MagnifierAnnotation<F, C> {
    pub start_x: F,
    pub start_y: F,
    pub end_x: F,
    pub end_y: F,
    /// Zoom factor applied to the content under the magnifier
    pub magnification: F,
    /// Color of the magnifier ring
    pub color: C,
    /// Whether to draw shadow/border on the ring
    pub shadow: bool,
}

/// Freehand (pencil) annotation: an open polyline through every sampled point.
#[derive(Clone, Debug, PartialEq)]
pub struct PencilAnnotation<F, C> {
    /// Sampled points in global logical coordinates, in draw order
    pub points: Vec<(F, F)>,
    pub color: C,
    pub shadow: bool,
    pub thickness: F,
}

/// The mathematical value of a pencil stroke.
pub struct PencilView<F, C> {
    pub points: Seq<(F, F)>,
    pub color: C,
    pub shadow: bool,
    pub thickness: F,
}

impl<F, C> View for PencilAnnotation<F, C> {
    type V = PencilView<F, C>;

    open spec fn view(&self) -> PencilView<F, C> {
        PencilView { points: self.points@, color: self.color, shadow: self.shadow, thickness: self.thickness }
    }
}

impl<F, C> PencilAnnotation<F, C> {
    /// A stroke needs at least two points to be visible.
    pub fn is_valid(&self) -> (r: bool)
        ensures
            r == (self.points@.len() >= 2),
    {
        self.points.len() >= 2
    }
}

/// Whether `c` has the Unicode `White_Space` property, which is what
/// `char::is_whitespace` and `str::trim` go by.
pub open spec fn is_white_space(c: char) -> bool {
    let u = c as u32;
    ||| 0x09 <= u <= 0x0D
    ||| u == 0x20
    ||| u == 0x85
    ||| u == 0xA0
    ||| u == 0x1680
    ||| 0x2000 <= u <= 0x200A
    ||| u == 0x2028
    ||| u == 0x2029
    ||| u == 0x202F
    ||| u == 0x205F
    ||| u == 0x3000
}

/// Decides `is_white_space` for one character.
pub fn char_is_white_space(c: char) -> (r: bool)
    ensures
        r == is_white_space(c),
{
    let u: u32 = c as u32;
    (0x09 <= u && u <= 0x0D) || u == 0x20 || u == 0x85 || u == 0xA0 || u == 0x1680 || (0x2000 <= u
        && u <= 0x200A) || u == 0x2028 || u == 0x2029 || u == 0x202F || u == 0x205F || u == 0x3000
}

/// Whether the text holds a character that is not white space, i.e. whether
/// trimming it leaves something.
pub open spec fn has_visible_char(s: Seq<char>) -> bool {
    exists|i: int| 0 <= i < s.len() && !is_white_space(#[trigger] s[i])
}

/// Decides `has_visible_char` for a string.
pub fn str_has_visible_char(s: &str) -> (r: bool)
    ensures
        r == has_visible_char(s@),
{
    let n = s.unicode_len();
    let mut i: usize = 0;
    while i < n
        invariant
            n == s@.len(),
            i <= n,
            forall|j: int| 0 <= j < i ==> is_white_space(#[trigger] s@[j]),
        decreases n - i,
    {
        let c = s.get_char(i);
        if !char_is_white_space(c) {
            return true;
        }
        i = i + 1;
    }
    false
}

/// A text label placed on the screenshot.
///
/// `x`/`y` are the **top-left** corner of the text block in global logical
/// coordinates.
#[derive(Clone, Debug, PartialEq)]
pub struct TextAnnotation<F, C> {
    pub x: F,
    pub y: F,
    /// The text itself; may contain newlines
    pub content: String,
    /// Font size in logical units
    pub font_size: F,
    pub color: C,
    /// Whether to draw a dark drop shadow behind the glyphs (legibility)
    pub shadow: bool,
}

/// The mathematical value of a text label.
pub struct TextView<F, C> {
    pub x: F,
    pub y: F,
    pub content: Seq<char>,
    pub font_size: F,
    pub color: C,
    pub shadow: bool,
}

impl<F, C> View for TextAnnotation<F, C> {
    type V = TextView<F, C>;

    open spec fn view(&self) -> TextView<F, C> {
        TextView {
            x: self.x,
            y: self.y,
            content: self.content@,
            font_size: self.font_size,
            color: self.color,
            shadow: self.shadow,
        }
    }
}

impl<F, C> TextAnnotation<F, C> {
    /// Empty or whitespace-only text renders nothing, so it isn't worth keeping.
    pub fn is_valid(&self) -> (r: bool)
        ensures
            r == has_visible_char(self.content@),
    {
        str_has_visible_char(self.content.as_str())
    }
}

/// An in-progress text annotation being typed.
///
/// Kept separate from the committed `TextAnnotation` list so an unfinished
/// edit never enters the undo history.
#[derive(Clone, Debug, PartialEq)]
pub struct TextEditing<F, C> {
    pub x: F,
    pub y: F,
    /// Text typed so far
    pub content: String,
    /// Styling captured when the edit began
    pub font_size: F,
    pub color: C,
    pub shadow: bool,
    /// When re-editing an existing label, its index in the unified annotation list.
    pub replacing: Option<usize>,
}

/// The mathematical value of a text edit in progress.
pub struct TextEditingView<F, C> {
    pub x: F,
    pub y: F,
    pub content: Seq<char>,
    pub font_size: F,
    pub color: C,
    pub shadow: bool,
    pub replacing: Option<usize>,
}

impl<F, C> View for TextEditing<F, C> {
    type V = TextEditingView<F, C>;

    open spec fn view(&self) -> TextEditingView<F, C> {
        TextEditingView {
            x: self.x,
            y: self.y,
            content: self.content@,
            font_size: self.font_size,
            color: self.color,
            shadow: self.shadow,
            replacing: self.replacing,
        }
    }
}

impl<F, C> TextEditing<F, C> {
    /// Turn the in-progress edit into a committed annotation.
    pub fn into_annotation(self) -> (r: TextAnnotation<F, C>)
        ensures
            r@ == (TextView {
                x: self@.x,
                y: self@.y,
                content: self@.content,
                font_size: self@.font_size,
                color: self@.color,
                shadow: self@.shadow,
            }),
    {
        TextAnnotation {
            x: self.x,
            y: self.y,
            content: self.content,
            font_size: self.font_size,
            color: self.color,
            shadow: self.shadow,
        }
    }
}

/// Unified annotation type for ordered drawing and undo/redo.
#[derive(Clone, Debug, PartialEq)]
pub enum Annotation<F, C> {
    Arrow(ArrowAnnotation<F, C>),
    Line(LineAnnotation<F, C>),
    Circle(CircleOutlineAnnotation<F, C>),
    Rectangle(RectOutlineAnnotation<F, C>),
    Pencil(PencilAnnotation<F, C>),
    Text(TextAnnotation<F, C>),
    Magnifier(MagnifierAnnotation<F, C>),
    Redact(RedactAnnotation<F>),
    Pixelate(PixelateAnnotation<F>),
}

/// The mathematical value of an annotation.
pub enum AnnotationView<F, C> {
    Arrow(ArrowAnnotation<F, C>),
    Line(LineAnnotation<F, C>),
    Circle(CircleOutlineAnnotation<F, C>),
    Rectangle(RectOutlineAnnotation<F, C>),
    Pencil(PencilView<F, C>),
    Text(TextView<F, C>),
    Magnifier(MagnifierAnnotation<F, C>),
    Redact(RedactAnnotation<F>),
    Pixelate(PixelateAnnotation<F>),
}

impl<F, C> View for Annotation<F, C> {
    type V = AnnotationView<F, C>;

    open spec fn view(&self) -> AnnotationView<F, C> {
        match self {
            Annotation::Arrow(a) => AnnotationView::Arrow(*a),
            Annotation::Line(a) => AnnotationView::Line(*a),
            Annotation::Circle(a) => AnnotationView::Circle(*a),
            Annotation::Rectangle(a) => AnnotationView::Rectangle(*a),
            Annotation::Pencil(a) => AnnotationView::Pencil(a@),
            Annotation::Text(a) => AnnotationView::Text(a@),
            Annotation::Magnifier(a) => AnnotationView::Magnifier(*a),
            Annotation::Redact(a) => AnnotationView::Redact(*a),
            Annotation::Pixelate(a) => AnnotationView::Pixelate(*a),
        }
    }
}

impl<F, C> AnnotationView<F, C> {
    /// Shapes are everything except redactions.
    pub open spec fn is_shape(self) -> bool {
        !self.is_redaction()
    }

    /// Redactions hide content: black boxes and pixelation.
    pub open spec fn is_redaction(self) -> bool {
        self is Redact || self is Pixelate
    }
}

impl<F, C> Annotation<F, C> {
    /// Check if this is a shape annotation (everything except redactions)
    pub fn is_shape(&self) -> (r: bool)
        ensures
            r == self@.is_shape(),
    {
        match self {
            Annotation::Arrow(_) | Annotation::Line(_) | Annotation::Circle(_)
            | Annotation::Rectangle(_) | Annotation::Pencil(_) | Annotation::Text(_)
            | Annotation::Magnifier(_) => true,
            _ => false,
        }
    }

    /// Check if this is a redaction annotation (redact, pixelate)
    pub fn is_redaction(&self) -> (r: bool)
        ensures
            r == self@.is_redaction(),
    {
        match self {
            Annotation::Redact(_) | Annotation::Pixelate(_) => true,
            _ => false,
        }
    }
}

} // verus!
