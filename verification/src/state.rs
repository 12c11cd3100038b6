//! The screenshot session's state: drawing tools, the annotation history with
//! undo/redo, detection results, the current selection and the UI settings
//! that new annotations are styled with.
use vstd::prelude::*;
use crate::domain::{
    Annotation, AnnotationView, ArrowAnnotation, CircleOutlineAnnotation, LineAnnotation,
    MagnifierAnnotation, PencilView, PixelateAnnotation, RectOutlineAnnotation, RedactAnnotation,
    TextEditing, TextEditingView, TextView,
};

verus! {

/// The views of a sequence of annotations.
pub open spec fn views_of<F, C>(s: Seq<Annotation<F, C>>) -> Seq<AnnotationView<F, C>> {
    s.map_values(|a: Annotation<F, C>| a@)
}

/// Number of magnifiers in an annotation sequence.
pub open spec fn magnifier_count<F, C>(h: Seq<AnnotationView<F, C>>) -> nat
    decreases h.len(),
{
    if h.len() == 0 {
        0
    } else {
        magnifier_count(h.drop_last()) + if h.last() is Magnifier {
            1nat
        } else {
            0nat
        }
    }
}

/// `h[j]` is the magnifier with index `i` among the magnifiers of `h`
/// (counting from 0 in drawing order).
pub open spec fn is_nth_magnifier<F, C>(h: Seq<AnnotationView<F, C>>, j: int, i: int) -> bool {
    &&& 0 <= j < h.len()
    &&& h[j] is Magnifier
    &&& magnifier_count(h.take(j)) == i
}

/// The magnifier with index `i` among the magnifiers of `h`, if there is one.
pub open spec fn nth_magnifier<F, C>(h: Seq<AnnotationView<F, C>>, i: int) -> Option<
    MagnifierAnnotation<F, C>,
> {
    if exists|j: int| is_nth_magnifier(h, j, i) {
        Some(h[choose|j: int| is_nth_magnifier(h, j, i)]->Magnifier_0)
    } else {
        None
    }
}

/// `h` with the corners of its `i`-th magnifier moved; no other entry changes.
pub open spec fn magnifier_reshaped<F, C>(
    h: Seq<AnnotationView<F, C>>,
    i: int,
    sx: F,
    sy: F,
    ex: F,
    ey: F,
) -> Seq<AnnotationView<F, C>> {
    Seq::new(
        h.len(),
        |j: int|
            if is_nth_magnifier(h, j, i) {
                AnnotationView::Magnifier(
                    MagnifierAnnotation {
                        start_x: sx,
                        start_y: sy,
                        end_x: ex,
                        end_y: ey,
                        ..h[j]->Magnifier_0
                    },
                )
            } else {
                h[j]
            },
    )
}

/// `h` with the zoom of its `i`-th magnifier set; no other entry changes.
pub open spec fn magnifier_zoomed<F, C>(h: Seq<AnnotationView<F, C>>, i: int, zoom: F) -> Seq<
    AnnotationView<F, C>,
> {
    Seq::new(
        h.len(),
        |j: int|
            if is_nth_magnifier(h, j, i) {
                AnnotationView::Magnifier(
                    MagnifierAnnotation { magnification: zoom, ..h[j]->Magnifier_0 },
                )
            } else {
                h[j]
            },
    )
}

/// The predicate that keeps redactions.
pub open spec fn redaction_pred<F, C>() -> spec_fn(AnnotationView<F, C>) -> bool {
    |a: AnnotationView<F, C>| a.is_redaction()
}

/// The predicate that keeps shapes.
pub open spec fn shape_pred<F, C>() -> spec_fn(AnnotationView<F, C>) -> bool {
    |a: AnnotationView<F, C>| a.is_shape()
}

/// Whether `a` is of the kind that the tool `t` draws.
pub open spec fn made_by<F, C>(t: Tool) -> spec_fn(AnnotationView<F, C>) -> bool {
    |a: AnnotationView<F, C>|
        match t {
            Tool::Arrow => a is Arrow,
            Tool::Line => a is Line,
            Tool::Circle => a is Circle,
            Tool::Rectangle => a is Rectangle,
            Tool::Pencil => a is Pencil,
            Tool::Magnifier => a is Magnifier,
            Tool::Redact => a is Redact,
            Tool::Pixelate => a is Pixelate,
        }
}

/// The annotations of `h` of the kind that the tool `t` draws, in drawing order.
pub open spec fn kind_list<F, C>(h: Seq<AnnotationView<F, C>>, t: Tool) -> Seq<AnnotationView<F, C>> {
    h.filter(made_by(t))
}

/// The arrows of `h`, in drawing order.
pub open spec fn arrows<F, C>(h: Seq<AnnotationView<F, C>>) -> Seq<ArrowAnnotation<F, C>> {
    kind_list(h, Tool::Arrow).map_values(|a: AnnotationView<F, C>| a->Arrow_0)
}

/// The lines of `h`, in drawing order.
pub open spec fn lines<F, C>(h: Seq<AnnotationView<F, C>>) -> Seq<LineAnnotation<F, C>> {
    kind_list(h, Tool::Line).map_values(|a: AnnotationView<F, C>| a->Line_0)
}

/// The circle outlines of `h`, in drawing order.
pub open spec fn circles<F, C>(h: Seq<AnnotationView<F, C>>) -> Seq<CircleOutlineAnnotation<F, C>> {
    kind_list(h, Tool::Circle).map_values(|a: AnnotationView<F, C>| a->Circle_0)
}

/// The rectangle outlines of `h`, in drawing order.
pub open spec fn rect_outlines<F, C>(h: Seq<AnnotationView<F, C>>) -> Seq<RectOutlineAnnotation<F, C>> {
    kind_list(h, Tool::Rectangle).map_values(|a: AnnotationView<F, C>| a->Rectangle_0)
}

/// The pencil strokes of `h`, in drawing order.
pub open spec fn pencils<F, C>(h: Seq<AnnotationView<F, C>>) -> Seq<PencilView<F, C>> {
    kind_list(h, Tool::Pencil).map_values(|a: AnnotationView<F, C>| a->Pencil_0)
}

/// The magnifiers of `h`, in drawing order.
pub open spec fn magnifiers<F, C>(h: Seq<AnnotationView<F, C>>) -> Seq<MagnifierAnnotation<F, C>> {
    kind_list(h, Tool::Magnifier).map_values(|a: AnnotationView<F, C>| a->Magnifier_0)
}

/// The black-box redactions of `h`, in drawing order.
pub open spec fn redactions<F, C>(h: Seq<AnnotationView<F, C>>) -> Seq<RedactAnnotation<F>> {
    kind_list(h, Tool::Redact).map_values(|a: AnnotationView<F, C>| a->Redact_0)
}

/// The pixelations of `h`, in drawing order.
pub open spec fn pixelations<F, C>(h: Seq<AnnotationView<F, C>>) -> Seq<PixelateAnnotation<F>> {
    kind_list(h, Tool::Pixelate).map_values(|a: AnnotationView<F, C>| a->Pixelate_0)
}

/// The text labels of `h`, in drawing order.
pub open spec fn texts<F, C>(h: Seq<AnnotationView<F, C>>) -> Seq<TextView<F, C>> {
    h.filter(|a: AnnotationView<F, C>| a is Text).map_values(|a: AnnotationView<F, C>| a->Text_0)
}

/// Magnifier counts only grow along prefixes.
pub proof fn lemma_magnifier_count_monotonic<F, C>(h: Seq<AnnotationView<F, C>>, a: int, b: int)
    requires
        0 <= a <= b <= h.len(),
    ensures
        magnifier_count(h.take(a)) <= magnifier_count(h.take(b)),
    decreases b - a,
{
    if a < b {
        lemma_magnifier_count_monotonic(h, a, b - 1);
        assert(h.take(b).drop_last() =~= h.take(b - 1));
    }
}

/// Counting through a magnifier at `j` raises the count by one.
pub proof fn lemma_magnifier_count_step<F, C>(h: Seq<AnnotationView<F, C>>, j: int)
    requires
        0 <= j < h.len(),
    ensures
        magnifier_count(h.take(j + 1)) == magnifier_count(h.take(j)) + if h[j] is Magnifier {
            1int
        } else {
            0int
        },
{
    assert(h.take(j + 1).drop_last() =~= h.take(j));
}

/// At most one entry is the `i`-th magnifier.
pub proof fn lemma_nth_magnifier_unique<F, C>(h: Seq<AnnotationView<F, C>>, j: int, k: int, i: int)
    requires
        is_nth_magnifier(h, j, i),
        is_nth_magnifier(h, k, i),
    ensures
        j == k,
{
    if j < k {
        lemma_magnifier_count_step(h, j);
        lemma_magnifier_count_monotonic(h, j + 1, k);
    } else if k < j {
        lemma_magnifier_count_step(h, k);
        lemma_magnifier_count_monotonic(h, k + 1, j);
    }
}

/// An index at or past the number of magnifiers names none.
pub proof fn lemma_no_nth_magnifier<F, C>(h: Seq<AnnotationView<F, C>>, i: int)
    requires
        i >= magnifier_count(h),
    ensures
        forall|j: int| !is_nth_magnifier(h, j, i),
{
    assert forall|j: int| !is_nth_magnifier(h, j, i) by {
        if 0 <= j < h.len() && h[j] is Magnifier {
            lemma_magnifier_count_step(h, j);
            lemma_magnifier_count_monotonic(h, j + 1, h.len() as int);
            assert(h.take(h.len() as int) =~= h);
        }
    }
}

/// Appending a magnifier makes it the last one, with index equal to the old count.
pub proof fn lemma_pushed_magnifier_is_last<F, C>(
    h: Seq<AnnotationView<F, C>>,
    m: MagnifierAnnotation<F, C>,
)
    ensures
        magnifier_count(h.push(AnnotationView::Magnifier(m))) == magnifier_count(h) + 1,
        is_nth_magnifier(h.push(AnnotationView::Magnifier(m)), h.len() as int, magnifier_count(h) as int),
        nth_magnifier(h.push(AnnotationView::Magnifier(m)), magnifier_count(h) as int) == Some(m),
{
    let h2 = h.push(AnnotationView::Magnifier(m));
    assert(h2.drop_last() =~= h);
    assert(h2.take(h.len() as int) =~= h);
    let j = h.len() as int;
    assert(is_nth_magnifier(h2, j, magnifier_count(h) as int));
    let c = choose|k: int| is_nth_magnifier(h2, k, magnifier_count(h) as int);
    lemma_nth_magnifier_unique(h2, c, j, magnifier_count(h) as int);
}

/// Appending an entry keeps the magnifier with index `i`, unless the entry is
/// itself the magnifier with that index.
proof fn lemma_nth_magnifier_push<F, C>(h: Seq<AnnotationView<F, C>>, x: AnnotationView<F, C>, i: int)
    requires
        !(x is Magnifier && i == magnifier_count(h)),
    ensures
        nth_magnifier(h.push(x), i) == nth_magnifier(h, i),
{
    let h2 = h.push(x);
    assert forall|j: int| is_nth_magnifier(h2, j, i) <==> is_nth_magnifier(h, j, i) by {
        if 0 <= j < h.len() {
            assert(h2.take(j) =~= h.take(j));
            assert(h2[j] == h[j]);
        } else if j == h.len() {
            assert(h2.take(j) =~= h);
        }
    }
    if exists|j: int| is_nth_magnifier(h, j, i) {
        let j = choose|j: int| is_nth_magnifier(h, j, i);
        let c = choose|k: int| is_nth_magnifier(h2, k, i);
        assert(is_nth_magnifier(h2, j, i));
        lemma_nth_magnifier_unique(h2, c, j, i);
        assert(h2[j] == h[j]);
    }
}

/// The index that selects a magnifier counts the magnifiers of the history
/// in drawing order: the magnifier list holds as many as are counted, and the
/// magnifier with index `i` is the list's entry `i`.
pub proof fn lemma_nth_magnifier_is_listed<F, C>(h: Seq<AnnotationView<F, C>>, i: int)
    requires
        0 <= i,
    ensures
        magnifiers(h).len() == magnifier_count(h),
        nth_magnifier(h, i) == if i < magnifier_count(h) {
            Some(magnifiers(h)[i])
        } else {
            None
        },
    decreases h.len(),
{
    if i >= magnifier_count(h) {
        lemma_no_nth_magnifier(h, i);
    }
    if h.len() == 0 {
        h.lemma_filter_len(made_by(Tool::Magnifier));
    } else {
        let h1 = h.drop_last();
        let x = h.last();
        assert(h =~= h1.push(x));
        lemma_nth_magnifier_is_listed(h1, i);
        h1.lemma_filter_push(x, made_by(Tool::Magnifier));
        if x is Magnifier {
            assert(magnifiers(h) =~= magnifiers(h1).push(x->Magnifier_0));
            if i == magnifier_count(h1) {
                lemma_pushed_magnifier_is_last(h1, x->Magnifier_0);
                assert(AnnotationView::Magnifier(x->Magnifier_0) == x);
            } else {
                lemma_nth_magnifier_push(h1, x, i);
            }
        } else {
            assert(magnifiers(h) =~= magnifiers(h1));
            lemma_nth_magnifier_push(h1, x, i);
        }
    }
}

/// Two sequences with magnifiers at the same places hold equally many.
proof fn lemma_magnifier_count_same_kinds<F, C>(a: Seq<AnnotationView<F, C>>, b: Seq<AnnotationView<F, C>>)
    requires
        a.len() == b.len(),
        forall|k: int| 0 <= k < a.len() ==> (#[trigger] a[k] is Magnifier <==> b[k] is Magnifier),
    ensures
        magnifier_count(a) == magnifier_count(b),
    decreases a.len(),
{
    if a.len() > 0 {
        let a1 = a.drop_last();
        let b1 = b.drop_last();
        assert forall|k: int| 0 <= k < a1.len() implies (#[trigger] a1[k] is Magnifier <==> b1[k] is Magnifier) by {
            assert(a1[k] == a[k] && b1[k] == b[k]);
        }
        lemma_magnifier_count_same_kinds(a1, b1);
        assert(a[a.len() - 1] is Magnifier <==> b[b.len() - 1] is Magnifier);
    }
}

/// Changing entries in place without changing which are magnifiers keeps
/// every magnifier's index.
proof fn lemma_nth_same_kinds<F, C>(h: Seq<AnnotationView<F, C>>, h2: Seq<AnnotationView<F, C>>)
    requires
        h.len() == h2.len(),
        forall|k: int| 0 <= k < h.len() ==> (#[trigger] h[k] is Magnifier <==> h2[k] is Magnifier),
    ensures
        forall|j: int, i: int| #[trigger] is_nth_magnifier(h2, j, i) <==> is_nth_magnifier(h, j, i),
        magnifier_count(h2) == magnifier_count(h),
{
    lemma_magnifier_count_same_kinds(h, h2);
    assert forall|j: int, i: int| #[trigger] is_nth_magnifier(h2, j, i) <==> is_nth_magnifier(h, j, i) by {
        if 0 <= j < h.len() {
            let t = h.take(j);
            let t2 = h2.take(j);
            assert forall|k: int| 0 <= k < t.len() implies (#[trigger] t[k] is Magnifier <==> t2[k] is Magnifier) by {
                assert(t[k] == h[k] && t2[k] == h2[k]);
            }
            lemma_magnifier_count_same_kinds(t, t2);
        }
    }
}

/// What moving the corners of the magnifier with index `i` does: that
/// magnifier, if it exists, gets exactly the new corners and keeps its zoom
/// and style; every other entry and every other magnifier's index stay.
pub proof fn lemma_magnifier_reshaped<F, C>(h: Seq<AnnotationView<F, C>>, i: int, sx: F, sy: F, ex: F, ey: F)
    ensures
        ({
            let h2 = magnifier_reshaped(h, i, sx, sy, ex, ey);
            &&& h2.len() == h.len()
            &&& magnifier_count(h2) == magnifier_count(h)
            &&& forall|j: int| 0 <= j < h.len() && !is_nth_magnifier(h, j, i) ==> #[trigger] h2[j] == h[j]
            &&& forall|k: int| k != i ==> #[trigger] nth_magnifier(h2, k) == nth_magnifier(h, k)
            &&& nth_magnifier(h, i) is None ==> h2 == h
            &&& nth_magnifier(h, i) matches Some(m) ==> nth_magnifier(h2, i) == Some(
                MagnifierAnnotation {
                    start_x: sx,
                    start_y: sy,
                    end_x: ex,
                    end_y: ey,
                    magnification: m.magnification,
                    color: m.color,
                    shadow: m.shadow,
                },
            )
        }),
{
    let h2 = magnifier_reshaped(h, i, sx, sy, ex, ey);
    assert forall|k: int| 0 <= k < h.len() implies (#[trigger] h[k] is Magnifier <==> h2[k] is Magnifier) by {}
    lemma_nth_same_kinds(h, h2);
    lemma_nth_edit(h, h2, i);
    if nth_magnifier(h, i) is None {
        assert(h2 =~= h);
    }
}

/// What setting the zoom of the magnifier with index `i` does: that
/// magnifier, if it exists, gets exactly that zoom and keeps its corners and
/// style; every other entry and every other magnifier's index stay.
pub proof fn lemma_magnifier_zoomed<F, C>(h: Seq<AnnotationView<F, C>>, i: int, zoom: F)
    ensures
        ({
            let h2 = magnifier_zoomed(h, i, zoom);
            &&& h2.len() == h.len()
            &&& magnifier_count(h2) == magnifier_count(h)
            &&& forall|j: int| 0 <= j < h.len() && !is_nth_magnifier(h, j, i) ==> #[trigger] h2[j] == h[j]
            &&& forall|k: int| k != i ==> #[trigger] nth_magnifier(h2, k) == nth_magnifier(h, k)
            &&& nth_magnifier(h, i) is None ==> h2 == h
            &&& nth_magnifier(h, i) matches Some(m) ==> nth_magnifier(h2, i) == Some(
                MagnifierAnnotation {
                    start_x: m.start_x,
                    start_y: m.start_y,
                    end_x: m.end_x,
                    end_y: m.end_y,
                    magnification: zoom,
                    color: m.color,
                    shadow: m.shadow,
                },
            )
        }),
{
    let h2 = magnifier_zoomed(h, i, zoom);
    assert forall|k: int| 0 <= k < h.len() implies (#[trigger] h[k] is Magnifier <==> h2[k] is Magnifier) by {}
    lemma_nth_same_kinds(h, h2);
    lemma_nth_edit(h, h2, i);
    if nth_magnifier(h, i) is None {
        assert(h2 =~= h);
    }
}

/// When `h2` keeps the magnifier positions of `h` and changes nothing but the
/// `i`-th magnifier, the other magnifiers are found unchanged and the `i`-th
/// is found at its old place.
proof fn lemma_nth_edit<F, C>(h: Seq<AnnotationView<F, C>>, h2: Seq<AnnotationView<F, C>>, i: int)
    requires
        h.len() == h2.len(),
        forall|j: int, k: int| #[trigger] is_nth_magnifier(h2, j, k) <==> is_nth_magnifier(h, j, k),
        forall|j: int| 0 <= j < h.len() && !is_nth_magnifier(h, j, i) ==> #[trigger] h2[j] == h[j],
    ensures
        forall|k: int| k != i ==> #[trigger] nth_magnifier(h2, k) == nth_magnifier(h, k),
        nth_magnifier(h, i) is Some ==> {
            let j = choose|j: int| is_nth_magnifier(h, j, i);
            &&& is_nth_magnifier(h, j, i)
            &&& nth_magnifier(h2, i) == Some(h2[j]->Magnifier_0)
        },
{
    assert forall|k: int| k != i implies #[trigger] nth_magnifier(h2, k) == nth_magnifier(h, k) by {
        if exists|j: int| is_nth_magnifier(h, j, k) {
            let j = choose|j: int| is_nth_magnifier(h, j, k);
            let c = choose|j: int| is_nth_magnifier(h2, j, k);
            assert(is_nth_magnifier(h2, j, k));
            lemma_nth_magnifier_unique(h2, c, j, k);
            if is_nth_magnifier(h, j, i) {
                lemma_magnifier_count_monotonic(h, j, j);
            }
            assert(h2[j] == h[j]);
        } else {
            assert forall|j: int| !is_nth_magnifier(h2, j, k) by {
                assert(!is_nth_magnifier(h, j, k));
            }
        }
    }
    if nth_magnifier(h, i) is Some {
        let j = choose|j: int| is_nth_magnifier(h, j, i);
        let c = choose|j: int| is_nth_magnifier(h2, j, i);
        assert(is_nth_magnifier(h2, j, i));
        lemma_nth_magnifier_unique(h2, c, j, i);
    }
}

/// The drawing tools that can be active, one at a time.
#[derive(Clone, Copy, Debug, PartialEq, Eq, Structural)]
pub enum Tool {
    Arrow,
    Line,
    Circle,
    Rectangle,
    Pencil,
    Magnifier,
    Redact,
    Pixelate,
}

/// Drawing-tool state and the annotation history of a screenshot session.
pub struct Annotations<F, C> {
    pub arrow_mode: bool,
    pub arrow_drawing: Option<(F, F)>,
    pub line_mode: bool,
    pub line_drawing: Option<(F, F)>,
    pub circle_mode: bool,
    pub circle_drawing: Option<(F, F)>,
    pub rect_outline_mode: bool,
    pub rect_outline_drawing: Option<(F, F)>,
    pub pencil_mode: bool,
    /// Points sampled so far for the stroke being drawn
    pub pencil_drawing: Option<Vec<(F, F)>>,
    pub magnifier_mode: bool,
    pub magnifier_drawing: Option<(F, F)>,
    /// Index of the selected magnifier among the magnifiers of `history`
    pub selected_magnifier: Option<usize>,
    pub redact_mode: bool,
    pub redact_drawing: Option<(F, F)>,
    pub pixelate_mode: bool,
    pub pixelate_drawing: Option<(F, F)>,
    /// The text label being typed, if any
    pub text_editing: Option<TextEditing<F, C>>,
    /// Committed annotations in drawing order (the undo history)
    pub history: Vec<Annotation<F, C>>,
    /// Undone annotations, the most recently undone last
    pub redo_stack: Vec<Annotation<F, C>>,
}

/// The mathematical value of `Annotations`.
pub struct AnnotationsView<F, C> {
    pub arrow_mode: bool,
    pub arrow_drawing: Option<(F, F)>,
    pub line_mode: bool,
    pub line_drawing: Option<(F, F)>,
    pub circle_mode: bool,
    pub circle_drawing: Option<(F, F)>,
    pub rect_outline_mode: bool,
    pub rect_outline_drawing: Option<(F, F)>,
    pub pencil_mode: bool,
    pub pencil_drawing: Option<Seq<(F, F)>>,
    pub magnifier_mode: bool,
    pub magnifier_drawing: Option<(F, F)>,
    pub selected_magnifier: Option<usize>,
    pub redact_mode: bool,
    pub redact_drawing: Option<(F, F)>,
    pub pixelate_mode: bool,
    pub pixelate_drawing: Option<(F, F)>,
    pub text_editing: Option<TextEditingView<F, C>>,
    pub history: Seq<AnnotationView<F, C>>,
    pub redo_stack: Seq<AnnotationView<F, C>>,
}

impl<F, C> View for Annotations<F, C> {
    type V = AnnotationsView<F, C>;

    open spec fn view(&self) -> AnnotationsView<F, C> {
        AnnotationsView {
            arrow_mode: self.arrow_mode,
            arrow_drawing: self.arrow_drawing,
            line_mode: self.line_mode,
            line_drawing: self.line_drawing,
            circle_mode: self.circle_mode,
            circle_drawing: self.circle_drawing,
            rect_outline_mode: self.rect_outline_mode,
            rect_outline_drawing: self.rect_outline_drawing,
            pencil_mode: self.pencil_mode,
            pencil_drawing: match self.pencil_drawing {
                Some(p) => Some(p@),
                None => None,
            },
            magnifier_mode: self.magnifier_mode,
            magnifier_drawing: self.magnifier_drawing,
            selected_magnifier: self.selected_magnifier,
            redact_mode: self.redact_mode,
            redact_drawing: self.redact_drawing,
            pixelate_mode: self.pixelate_mode,
            pixelate_drawing: self.pixelate_drawing,
            text_editing: match self.text_editing {
                Some(t) => Some(t@),
                None => None,
            },
            history: views_of(self.history@),
            redo_stack: views_of(self.redo_stack@),
        }
    }
}

impl<F, C> AnnotationsView<F, C> {
    /// Whether the tool's mode is on.
    pub open spec fn mode_of(self, t: Tool) -> bool {
        match t {
            Tool::Arrow => self.arrow_mode,
            Tool::Line => self.line_mode,
            Tool::Circle => self.circle_mode,
            Tool::Rectangle => self.rect_outline_mode,
            Tool::Pencil => self.pencil_mode,
            Tool::Magnifier => self.magnifier_mode,
            Tool::Redact => self.redact_mode,
            Tool::Pixelate => self.pixelate_mode,
        }
    }

    /// Whether a drag with the tool is in progress.
    pub open spec fn drawing_of(self, t: Tool) -> bool {
        match t {
            Tool::Arrow => self.arrow_drawing is Some,
            Tool::Line => self.line_drawing is Some,
            Tool::Circle => self.circle_drawing is Some,
            Tool::Rectangle => self.rect_outline_drawing is Some,
            Tool::Pencil => self.pencil_drawing is Some,
            Tool::Magnifier => self.magnifier_drawing is Some,
            Tool::Redact => self.redact_drawing is Some,
            Tool::Pixelate => self.pixelate_drawing is Some,
        }
    }

    /// At most one tool is active, and a drag is in progress only with the
    /// active tool.
    pub open spec fn tools_consistent(self) -> bool {
        &&& forall|t1: Tool, t2: Tool| #[trigger]
            self.mode_of(t1) && #[trigger] self.mode_of(t2) ==> t1 == t2
        &&& forall|t: Tool| #[trigger] self.drawing_of(t) ==> self.mode_of(t)
    }

    /// Every tool except `keep` is switched off and its drag discarded;
    /// switching the magnifier off also drops its selection.
    pub open spec fn others_off(self, keep: Tool) -> Self {
        AnnotationsView {
            arrow_mode: if keep == Tool::Arrow { self.arrow_mode } else { false },
            arrow_drawing: if keep == Tool::Arrow { self.arrow_drawing } else { None },
            line_mode: if keep == Tool::Line { self.line_mode } else { false },
            line_drawing: if keep == Tool::Line { self.line_drawing } else { None },
            circle_mode: if keep == Tool::Circle { self.circle_mode } else { false },
            circle_drawing: if keep == Tool::Circle { self.circle_drawing } else { None },
            rect_outline_mode: if keep == Tool::Rectangle { self.rect_outline_mode } else { false },
            rect_outline_drawing: if keep == Tool::Rectangle { self.rect_outline_drawing } else { None },
            pencil_mode: if keep == Tool::Pencil { self.pencil_mode } else { false },
            pencil_drawing: if keep == Tool::Pencil { self.pencil_drawing } else { None },
            magnifier_mode: if keep == Tool::Magnifier { self.magnifier_mode } else { false },
            magnifier_drawing: if keep == Tool::Magnifier { self.magnifier_drawing } else { None },
            selected_magnifier: if keep == Tool::Magnifier { self.selected_magnifier } else { None },
            redact_mode: if keep == Tool::Redact { self.redact_mode } else { false },
            redact_drawing: if keep == Tool::Redact { self.redact_drawing } else { None },
            pixelate_mode: if keep == Tool::Pixelate { self.pixelate_mode } else { false },
            pixelate_drawing: if keep == Tool::Pixelate { self.pixelate_drawing } else { None },
            ..self
        }
    }

    /// The start point of the drag in progress with a two-point tool.
    pub open spec fn drag_of(self, t: Tool) -> Option<(F, F)> {
        match t {
            Tool::Arrow => self.arrow_drawing,
            Tool::Line => self.line_drawing,
            Tool::Circle => self.circle_drawing,
            Tool::Rectangle => self.rect_outline_drawing,
            Tool::Pencil => None,
            Tool::Magnifier => self.magnifier_drawing,
            Tool::Redact => self.redact_drawing,
            Tool::Pixelate => self.pixelate_drawing,
        }
    }

    /// The tool's mode set to `on`.
    pub open spec fn with_mode(self, t: Tool, on: bool) -> Self {
        match t {
            Tool::Arrow => AnnotationsView { arrow_mode: on, ..self },
            Tool::Line => AnnotationsView { line_mode: on, ..self },
            Tool::Circle => AnnotationsView { circle_mode: on, ..self },
            Tool::Rectangle => AnnotationsView { rect_outline_mode: on, ..self },
            Tool::Pencil => AnnotationsView { pencil_mode: on, ..self },
            Tool::Magnifier => AnnotationsView { magnifier_mode: on, ..self },
            Tool::Redact => AnnotationsView { redact_mode: on, ..self },
            Tool::Pixelate => AnnotationsView { pixelate_mode: on, ..self },
        }
    }

    /// The drag of a two-point tool set to `d`.
    pub open spec fn with_drag(self, t: Tool, d: Option<(F, F)>) -> Self {
        match t {
            Tool::Arrow => AnnotationsView { arrow_drawing: d, ..self },
            Tool::Line => AnnotationsView { line_drawing: d, ..self },
            Tool::Circle => AnnotationsView { circle_drawing: d, ..self },
            Tool::Rectangle => AnnotationsView { rect_outline_drawing: d, ..self },
            Tool::Pencil => self,
            Tool::Magnifier => AnnotationsView { magnifier_drawing: d, ..self },
            Tool::Redact => AnnotationsView { redact_drawing: d, ..self },
            Tool::Pixelate => AnnotationsView { pixelate_drawing: d, ..self },
        }
    }

    /// The tool switched off: its drag is discarded, and for the magnifier
    /// the selection is dropped too.
    pub open spec fn tool_off(self, t: Tool) -> Self {
        let a = self.with_mode(t, false);
        if t == Tool::Pencil {
            AnnotationsView { pencil_drawing: None, ..a }
        } else if t == Tool::Magnifier {
            AnnotationsView { magnifier_drawing: None, selected_magnifier: None, ..a }
        } else {
            a.with_drag(t, None)
        }
    }

    /// A new annotation is committed: it goes on top of the history and the
    /// redo stack is emptied.
    pub open spec fn added(self, a: AnnotationView<F, C>) -> Self {
        AnnotationsView { history: self.history.push(a), redo_stack: Seq::empty(), ..self }
    }

    /// The most recent annotation moves from the history to the redo stack.
    pub open spec fn undone(self) -> Self {
        if self.history.len() > 0 {
            AnnotationsView {
                history: self.history.drop_last(),
                redo_stack: self.redo_stack.push(self.history.last()),
                ..self
            }
        } else {
            self
        }
    }

    /// The most recently undone annotation moves back onto the history.
    pub open spec fn redone(self) -> Self {
        if self.redo_stack.len() > 0 {
            AnnotationsView {
                history: self.history.push(self.redo_stack.last()),
                redo_stack: self.redo_stack.drop_last(),
                ..self
            }
        } else {
            self
        }
    }

    /// All shapes leave the history and the redo stack; redactions stay, in order.
    pub open spec fn shapes_cleared(self) -> Self {
        AnnotationsView {
            history: self.history.filter(redaction_pred()),
            redo_stack: self.redo_stack.filter(redaction_pred()),
            ..self
        }
    }

    /// All redactions leave the history and the redo stack; shapes stay, in order.
    pub open spec fn redactions_cleared(self) -> Self {
        AnnotationsView {
            history: self.history.filter(shape_pred()),
            redo_stack: self.redo_stack.filter(shape_pred()),
            ..self
        }
    }
}

/// Removes the annotations that `keep_redactions` does not keep from `v`,
/// keeping the order of the others.
fn retain_by_kind<F, C>(v: Vec<Annotation<F, C>>, keep_redactions: bool) -> (r: Vec<Annotation<F, C>>)
    ensures
        views_of(r@) == views_of(v@).filter(
            if keep_redactions {
                redaction_pred::<F, C>()
            } else {
                shape_pred::<F, C>()
            },
        ),
{
    let ghost pred = if keep_redactions {
        redaction_pred::<F, C>()
    } else {
        shape_pred::<F, C>()
    };
    let ghost vv = views_of(v@);
    let mut r: Vec<Annotation<F, C>> = Vec::new();
    let mut rest = v;
    let ghost mut done: int = 0;
    while rest.len() > 0
        invariant
            pred == (if keep_redactions {
                redaction_pred::<F, C>()
            } else {
                shape_pred::<F, C>()
            }),
            0 <= done <= vv.len(),
            views_of(rest@) == vv.skip(done),
            views_of(r@) == vv.take(done).filter(pred),
        decreases rest.len(),
    {
        let ghost before = views_of(r@);
        let ghost rv = views_of(rest@);
        let ghost old_rest = rest@;
        proof {
            assert(rv.len() == old_rest.len());
            assert(rv[0] == old_rest[0]@);
            assert(vv.skip(done)[0] == vv[done]);
        }
        let a = rest.remove(0);
        proof {
            assert(rest@ =~= old_rest.subrange(1, old_rest.len() as int));
            assert(a@ == vv[done]);
            assert(views_of(rest@) =~= rv.subrange(1, rv.len() as int));
            assert(rv.subrange(1, rv.len() as int) =~= vv.skip(done + 1));
            assert(vv.take(done + 1) =~= vv.take(done).push(vv[done]));
            vv.take(done).lemma_filter_push(vv[done], pred);
        }
        let keep = if keep_redactions {
            a.is_redaction()
        } else {
            a.is_shape()
        };
        proof {
            if keep_redactions {
                assert(pred == redaction_pred::<F, C>());
                assert(redaction_pred::<F, C>()(a@) == a@.is_redaction());
            } else {
                assert(pred == shape_pred::<F, C>());
                assert(shape_pred::<F, C>()(a@) == a@.is_shape());
            }
            assert(pred(vv[done]) == keep);
        }
        if keep {
            r.push(a);
            proof {
                assert(views_of(r@) =~= before.push(vv[done]));
            }
        }
        proof {
            done = done + 1;
        }
    }
    proof {
        assert(vv.take(done) =~= vv);
    }
    r
}

impl<F: Copy, C: Copy> Annotations<F, C> {
    /// A session with no tool active, nothing drawn and nothing to redo.
    pub fn new() -> (r: Self)
        ensures
            r@.history.len() == 0,
            r@.redo_stack.len() == 0,
            forall|t: Tool| !r@.mode_of(t) && !r@.drawing_of(t),
            r@.selected_magnifier is None,
            r@.text_editing is None,
    {
        let r = Annotations {
            arrow_mode: false,
            arrow_drawing: None,
            line_mode: false,
            line_drawing: None,
            circle_mode: false,
            circle_drawing: None,
            rect_outline_mode: false,
            rect_outline_drawing: None,
            pencil_mode: false,
            pencil_drawing: None,
            magnifier_mode: false,
            magnifier_drawing: None,
            selected_magnifier: None,
            redact_mode: false,
            redact_drawing: None,
            pixelate_mode: false,
            pixelate_drawing: None,
            text_editing: None,
            history: Vec::new(),
            redo_stack: Vec::new(),
        };
        proof {
            assert(views_of(r.history@) =~= Seq::<AnnotationView<F, C>>::empty());
            assert(views_of(r.redo_stack@) =~= Seq::<AnnotationView<F, C>>::empty());
        }
        r
    }

    /// The last point sampled for the pencil stroke being drawn, if any; the
    /// caller measures the distance of a new pointer position from it.
    pub fn pencil_last_point(&self) -> (r: Option<(F, F)>)
        ensures
            r == match self@.pencil_drawing {
                Some(pts) => if pts.len() > 0 {
                    Some(pts.last())
                } else {
                    None
                },
                None => None,
            },
    {
        match &self.pencil_drawing {
            Some(points) => {
                if points.len() > 0 {
                    Some(points[points.len() - 1])
                } else {
                    None
                }
            },
            None => None,
        }
    }

    /// Commits an annotation to the history; the redo stack is emptied.
    pub fn add(&mut self, a: Annotation<F, C>)
        ensures
            final(self)@ == old(self)@.added(a@),
    {
        let ghost old_h = views_of(self.history@);
        self.history.push(a);
        self.redo_stack = Vec::new();
        proof {
            assert(views_of(self.history@) =~= old_h.push(a@));
            assert(views_of(self.redo_stack@) =~= Seq::<AnnotationView<F, C>>::empty());
        }
    }

    /// Moves the most recent annotation to the redo stack.
    pub fn undo(&mut self)
        ensures
            final(self)@ == old(self)@.undone(),
    {
        let ghost old_h = views_of(self.history@);
        let ghost old_r = views_of(self.redo_stack@);
        if let Some(a) = self.history.pop() {
            self.redo_stack.push(a);
            proof {
                assert(views_of(self.history@) =~= old_h.drop_last());
                assert(views_of(self.redo_stack@) =~= old_r.push(old_h.last()));
            }
        }
    }

    /// Moves the most recently undone annotation back onto the history.
    pub fn redo(&mut self)
        ensures
            final(self)@ == old(self)@.redone(),
    {
        let ghost old_h = views_of(self.history@);
        let ghost old_r = views_of(self.redo_stack@);
        if let Some(a) = self.redo_stack.pop() {
            self.history.push(a);
            proof {
                assert(views_of(self.redo_stack@) =~= old_r.drop_last());
                assert(views_of(self.history@) =~= old_h.push(old_r.last()));
            }
        }
    }

    /// Removes every shape annotation (everything but redactions).
    pub fn clear_shapes(&mut self)
        ensures
            final(self)@ == old(self)@.shapes_cleared(),
    {
        let mut h: Vec<Annotation<F, C>> = Vec::new();
        std::mem::swap(&mut h, &mut self.history);
        self.history = retain_by_kind(h, true);
        let mut r: Vec<Annotation<F, C>> = Vec::new();
        std::mem::swap(&mut r, &mut self.redo_stack);
        self.redo_stack = retain_by_kind(r, true);
    }

    /// Removes every redaction annotation (redact, pixelate).
    pub fn clear_redactions(&mut self)
        ensures
            final(self)@ == old(self)@.redactions_cleared(),
    {
        let mut h: Vec<Annotation<F, C>> = Vec::new();
        std::mem::swap(&mut h, &mut self.history);
        self.history = retain_by_kind(h, false);
        let mut r: Vec<Annotation<F, C>> = Vec::new();
        std::mem::swap(&mut r, &mut self.redo_stack);
        self.redo_stack = retain_by_kind(r, false);
    }

    /// Number of magnifiers in the history.
    pub fn magnifier_count(&self) -> (r: usize)
        ensures
            r == magnifier_count(self@.history),
    {
        let ghost h = self@.history;
        let mut k: usize = 0;
        let mut j: usize = 0;
        while j < self.history.len()
            invariant
                h == views_of(self.history@),
                j <= h.len(),
                k == magnifier_count(h.take(j as int)),
                k <= j,
            decreases h.len() - j,
        {
            proof {
                lemma_magnifier_count_step(h, j as int);
            }
            if let Annotation::Magnifier(_) = &self.history[j] {
                k = k + 1;
            }
            j = j + 1;
        }
        proof {
            assert(h.take(h.len() as int) =~= h);
        }
        k
    }

    /// Position in the history of the magnifier with index `i`.
    pub fn magnifier_position(&self, i: usize) -> (r: Option<usize>)
        ensures
            match r {
                Some(p) => is_nth_magnifier(self@.history, p as int, i as int),
                None => forall|j: int| !is_nth_magnifier(self@.history, j, i as int),
            },
    {
        let ghost h = self@.history;
        let mut k: usize = 0;
        let mut j: usize = 0;
        while j < self.history.len()
            invariant
                h == views_of(self.history@),
                j <= h.len(),
                k == magnifier_count(h.take(j as int)),
                k <= j,
                k <= i,
            decreases h.len() - j,
        {
            proof {
                lemma_magnifier_count_step(h, j as int);
            }
            if let Annotation::Magnifier(_) = &self.history[j] {
                if k == i {
                    return Some(j);
                }
                k = k + 1;
            }
            j = j + 1;
        }
        proof {
            assert(h.take(h.len() as int) =~= h);
            lemma_no_nth_magnifier(h, i as int);
        }
        None
    }

    /// The magnifier with index `i` among the committed magnifiers.
    pub fn magnifier(&self, i: usize) -> (r: Option<MagnifierAnnotation<F, C>>)
        ensures
            r == nth_magnifier(self@.history, i as int),
    {
        match self.magnifier_position(i) {
            Some(p) => {
                proof {
                    let c = choose|j: int| is_nth_magnifier(self@.history, j, i as int);
                    lemma_nth_magnifier_unique(self@.history, c, p as int, i as int);
                }
                match &self.history[p] {
                    Annotation::Magnifier(m) => Some(*m),
                    _ => None,
                }
            },
            None => None,
        }
    }

    /// Moves the corners of the magnifier with index `i`, if there is one.
    pub fn set_magnifier_corners(&mut self, i: usize, sx: F, sy: F, ex: F, ey: F)
        ensures
            final(self)@ == (AnnotationsView {
                history: magnifier_reshaped(old(self)@.history, i as int, sx, sy, ex, ey),
                ..old(self)@
            }),
    {
        let ghost h = self@.history;
        match self.magnifier_position(i) {
            Some(p) => {
                let m = match &self.history[p] {
                    Annotation::Magnifier(m) => *m,
                    _ => {
                        proof {
                            assert(views_of(self.history@)[p as int] == self.history@[p as int]@);
                        }
                        return;
                    },
                };
                let updated = MagnifierAnnotation { start_x: sx, start_y: sy, end_x: ex, end_y: ey, ..m };
                self.history.set(p, Annotation::Magnifier(updated));
                proof {
                    assert forall|j: int| 0 <= j < h.len() implies views_of(self.history@)[j]
                        == magnifier_reshaped(h, i as int, sx, sy, ex, ey)[j] by {
                        if is_nth_magnifier(h, j, i as int) {
                            lemma_nth_magnifier_unique(h, j, p as int, i as int);
                        }
                    }
                    assert(views_of(self.history@) =~= magnifier_reshaped(h, i as int, sx, sy, ex, ey));
                }
            },
            None => {
                proof {
                    assert(h =~= magnifier_reshaped(h, i as int, sx, sy, ex, ey));
                }
            },
        }
    }

    /// Sets the zoom of the magnifier with index `i`, if there is one.
    pub fn set_magnifier_zoom(&mut self, i: usize, zoom: F)
        ensures
            final(self)@ == (AnnotationsView {
                history: magnifier_zoomed(old(self)@.history, i as int, zoom),
                ..old(self)@
            }),
    {
        let ghost h = self@.history;
        match self.magnifier_position(i) {
            Some(p) => {
                let m = match &self.history[p] {
                    Annotation::Magnifier(m) => *m,
                    _ => {
                        proof {
                            assert(views_of(self.history@)[p as int] == self.history@[p as int]@);
                        }
                        return;
                    },
                };
                let updated = MagnifierAnnotation { magnification: zoom, ..m };
                self.history.set(p, Annotation::Magnifier(updated));
                proof {
                    assert forall|j: int| 0 <= j < h.len() implies views_of(self.history@)[j]
                        == magnifier_zoomed(h, i as int, zoom)[j] by {
                        if is_nth_magnifier(h, j, i as int) {
                            lemma_nth_magnifier_unique(h, j, p as int, i as int);
                        }
                    }
                    assert(views_of(self.history@) =~= magnifier_zoomed(h, i as int, zoom));
                }
            },
            None => {
                proof {
                    assert(h =~= magnifier_zoomed(h, i as int, zoom));
                }
            },
        }
    }
}

/// OCR and QR results of the current selection.
pub struct Detection {
    /// Text recognised by OCR, if any
    pub ocr_text: Option<String>,
    /// Decoded contents of the QR codes found
    pub qr_codes: Vec<String>,
}

/// The mathematical value of `Detection`.
pub struct DetectionView {
    pub ocr_text: Option<Seq<char>>,
    pub qr_codes: Seq<Seq<char>>,
}

impl View for Detection {
    type V = DetectionView;

    open spec fn view(&self) -> DetectionView {
        DetectionView {
            ocr_text: match self.ocr_text {
                Some(t) => Some(t@),
                None => None,
            },
            qr_codes: self.qr_codes@.map_values(|s: String| s@),
        }
    }
}

/// Detection with no results.
pub open spec fn no_detection() -> DetectionView {
    DetectionView { ocr_text: None, qr_codes: Seq::empty() }
}

impl Detection {
    /// No results yet.
    pub fn new() -> (r: Self)
        ensures
            r@ == no_detection(),
    {
        let r = Detection { ocr_text: None, qr_codes: Vec::new() };
        proof {
            assert(r@.qr_codes =~= Seq::<Seq<char>>::empty());
        }
        r
    }

    /// Forgets all results.
    pub fn clear(&mut self)
        ensures
            final(self)@ == no_detection(),
    {
        self.ocr_text = None;
        self.qr_codes = Vec::new();
        proof {
            assert(self@.qr_codes =~= Seq::<Seq<char>>::empty());
        }
    }
}

/// What the user has chosen to capture.
#[derive(Clone, Copy, Debug, PartialEq, Eq)]
pub enum Choice {
    /// A whole screen; `None` while the screen picker is still open
    Output(Option<usize>),
    /// A dragged rectangle, with its width and height once it has an area
    Rectangle(Option<(u32, u32)>),
    /// A window; `None` while the window picker is still open
    Window(Option<usize>),
}

/// Selection state of the session.
#[derive(Clone, Copy, Debug, PartialEq, Eq)]
pub struct Session {
    pub choice: Choice,
}

/// The settings that new annotations take their style from.
#[derive(Clone, Copy, Debug, PartialEq)]
pub struct UiSettings<F, C> {
    pub shape_color: C,
    pub shape_shadow: bool,
    pub shape_thickness: F,
    pub magnifier_magnification: F,
    pub pixelation_block_size: u32,
}

/// The whole state that drawing messages and key presses act on.
pub struct Args<F, C> {
    pub annotations: Annotations<F, C>,
    pub detection: Detection,
    pub session: Session,
    pub ui: UiSettings<F, C>,
}

/// The mathematical value of `Args`.
pub struct ArgsView<F, C> {
    pub annotations: AnnotationsView<F, C>,
    pub detection: DetectionView,
    pub session: Session,
    pub ui: UiSettings<F, C>,
}

impl<F, C> View for Args<F, C> {
    type V = ArgsView<F, C>;

    open spec fn view(&self) -> ArgsView<F, C> {
        ArgsView {
            annotations: self.annotations@,
            detection: self.detection@,
            session: self.session,
            ui: self.ui,
        }
    }
}

} // verus!
