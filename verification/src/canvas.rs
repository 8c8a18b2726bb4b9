//! The annotations drawn on a cropped capture: the strokes in progress, the
//! undo and redo stacks, and the status line.
//!
//! Points and styles (colours, stroke widths, font sizes) are measured by the
//! host UI in floating point; here a point is any value `P` and a style any
//! value `S`, and this module decides what each pointer event does to the
//! annotations.

use vstd::prelude::*;

use crate::tools::Tool;

verus! {

/// The status line below the toolbar.
#[derive(Clone, Copy, PartialEq, Eq, Structural, Debug)]
pub enum Status {
    /// Nothing to report yet.
    Empty,
    /// A text label was placed.
    TextAdded,
    /// A stroke was finished.
    StrokeFinished,
}

impl Status {
    /// The text shown for this status.
    pub open spec fn spec_text(&self) -> Seq<char> {
        match self {
            Status::Empty => ""@,
            Status::TextAdded => "文字已添加"@,
            Status::StrokeFinished => "标注完成"@,
        }
    }

    /// The text shown for this status.
    pub fn text(&self) -> (t: String)
        ensures
            t@ == self.spec_text(),
    {
        match self {
            Status::Empty => "".to_owned(),
            Status::TextAdded => "文字已添加".to_owned(),
            Status::StrokeFinished => "标注完成".to_owned(),
        }
    }
}

/// An annotation on the canvas: a rectangle between two corners, an arrow from
/// its tail to its head, a freehand line through its points, or a text label.
pub enum Annotation<P, S> {
    Rectangle { min: P, max: P, style: S },
    Arrow { start: P, end: P, style: S },
    Freehand { points: Vec<P>, style: S },
    Text { pos: P, text: String, style: S },
}

/// The abstract value of an annotation.
pub enum AnnotationView<P, S> {
    Rectangle { min: P, max: P, style: S },
    Arrow { start: P, end: P, style: S },
    Freehand { points: Seq<P>, style: S },
    Text { pos: P, text: Seq<char>, style: S },
}

impl<P, S> View for Annotation<P, S> {
    type V = AnnotationView<P, S>;

    open spec fn view(&self) -> AnnotationView<P, S> {
        match self {
            Annotation::Rectangle { min, max, style } => AnnotationView::Rectangle { min: *min, max: *max, style: *style },
            Annotation::Arrow { start, end, style } => AnnotationView::Arrow { start: *start, end: *end, style: *style },
            Annotation::Freehand { points, style } => AnnotationView::Freehand { points: points@, style: *style },
            Annotation::Text { pos, text, style } => AnnotationView::Text { pos: *pos, text: text@, style: *style },
        }
    }
}

/// The text of a newly placed label.
pub open spec fn label_text() -> Seq<char> {
    "标注"@
}

/// The annotation `tool` places where a drag starts at `pos`: an empty
/// rectangle or arrow at `pos`, a freehand line of that one point, or a label.
pub open spec fn placed<P, S>(tool: Tool, pos: P, style: S) -> AnnotationView<P, S> {
    match tool {
        Tool::Rectangle => AnnotationView::Rectangle { min: pos, max: pos, style },
        Tool::Arrow => AnnotationView::Arrow { start: pos, end: pos, style },
        Tool::Freehand => AnnotationView::Freehand { points: seq![pos], style },
        _ => AnnotationView::Text { pos, text: label_text(), style },
    }
}

/// The newest annotation `last` after the stroke of `tool`, drawn with `style`,
/// is dragged to `pos`: a rectangle keeps the first corner of a rectangle (or
/// starts at `pos`) and takes `pos` as its other corner; an arrow keeps the tail
/// of an arrow (or starts at `pos`) and points at `pos`; a freehand line gets
/// `pos` appended; anything else stays as it is.
pub open spec fn reshaped<P, S>(tool: Tool, style: S, last: AnnotationView<P, S>, pos: P) -> AnnotationView<P, S> {
    match tool {
        Tool::Rectangle => AnnotationView::Rectangle {
            min: match last {
                AnnotationView::Rectangle { min, .. } => min,
                _ => pos,
            },
            max: pos,
            style,
        },
        Tool::Arrow => AnnotationView::Arrow {
            start: match last {
                AnnotationView::Arrow { start, .. } => start,
                _ => pos,
            },
            end: pos,
            style,
        },
        Tool::Freehand => match last {
            AnnotationView::Freehand { points, style: line_style } => AnnotationView::Freehand {
                points: points.push(pos),
                style: line_style,
            },
            _ => last,
        },
        _ => last,
    }
}

/// Whether a finished annotation is too small to keep: a rectangle or an arrow
/// when the host measured it as small (area or length under its threshold), a
/// freehand line of fewer than two points; a label never.
pub open spec fn is_too_small<P, S>(a: AnnotationView<P, S>, measured_small: bool) -> bool {
    match a {
        AnnotationView::Rectangle { .. } => measured_small,
        AnnotationView::Arrow { .. } => measured_small,
        AnnotationView::Freehand { points, .. } => points.len() < 2,
        AnnotationView::Text { .. } => false,
    }
}

/// Whether a stroke in progress replaces the newest annotation by a new shape,
/// which needs a newest annotation to start from (rectangles and arrows).
pub open spec fn stroke_needs_newest<S>(drawing: Option<(Tool, S)>) -> bool {
    match drawing {
        Some((t, _)) => t == Tool::Rectangle || t == Tool::Arrow,
        None => false,
    }
}

/// What the pointer did on the canvas, as the host UI saw it: a drag started
/// at `pos` (drawing with `style`), the pointer was dragged to a position, or
/// the drag was released; `measured_small` tells whether the newest annotation,
/// if a rectangle or an arrow, has an area or length under the threshold.
pub enum ToolEvent<P, S> {
    Idle,
    DragStarted { pos: P, style: S },
    Dragged(P),
    Released { measured_small: bool },
}

/// The abstract state of a canvas.
#[verifier::ext_equal]
pub struct CanvasState<P, S> {
    pub annotations: Seq<AnnotationView<P, S>>,
    pub redo_stack: Seq<AnnotationView<P, S>>,
    pub drawing: Option<(Tool, S)>,
    pub status: Status,
}

impl<P, S> CanvasState<P, S> {
    /// The empty canvas.
    pub open spec fn empty() -> Self {
        CanvasState {
            annotations: Seq::empty(),
            redo_stack: Seq::empty(),
            drawing: None,
            status: Status::Empty,
        }
    }

    /// Undo: the newest annotation moves onto the redo stack.
    pub open spec fn undone(self) -> Self {
        if self.annotations.len() == 0 {
            self
        } else {
            CanvasState {
                annotations: self.annotations.drop_last(),
                redo_stack: self.redo_stack.push(self.annotations.last()),
                ..self
            }
        }
    }

    /// Redo: the top of the redo stack comes back as the newest annotation.
    pub open spec fn redone(self) -> Self {
        if self.redo_stack.len() == 0 {
            self
        } else {
            CanvasState {
                annotations: self.annotations.push(self.redo_stack.last()),
                redo_stack: self.redo_stack.drop_last(),
                ..self
            }
        }
    }

    /// All annotations that undo and redo can reach, oldest first: those shown,
    /// then those undone, most recently undone first.
    pub open spec fn timeline(self) -> Seq<AnnotationView<P, S>> {
        self.annotations + self.redo_stack.reverse()
    }

    /// The state after the pointer event `event` with `tool` active.
    pub open spec fn handled(self, tool: Tool, event: ToolEvent<P, S>) -> Self {
        if tool == Tool::Select {
            CanvasState { drawing: None, ..self }
        } else {
            match event {
                ToolEvent::Idle => self,
                ToolEvent::DragStarted { pos, style } => {
                    let placed = CanvasState {
                        annotations: self.annotations.push(placed(tool, pos, style)),
                        redo_stack: Seq::empty(),
                        ..self
                    };
                    if tool == Tool::Text {
                        CanvasState { status: Status::TextAdded, ..placed }
                    } else {
                        CanvasState { drawing: Some((tool, style)), ..placed }
                    }
                },
                ToolEvent::Dragged(pos) => match self.drawing {
                    Some((t, style)) => if self.annotations.len() > 0 {
                        CanvasState {
                            annotations: self.annotations.update(
                                self.annotations.len() - 1,
                                reshaped(t, style, self.annotations.last(), pos),
                            ),
                            ..self
                        }
                    } else {
                        self
                    },
                    None => self,
                },
                ToolEvent::Released { measured_small } => CanvasState {
                    annotations: if self.annotations.len() > 0 && is_too_small(self.annotations.last(), measured_small) {
                        self.annotations.drop_last()
                    } else {
                        self.annotations
                    },
                    drawing: None,
                    status: Status::StrokeFinished,
                    ..self
                },
            }
        }
    }
}

/// The annotations on a cropped capture, with the undo and redo stacks, the
/// stroke being dragged (its tool and style), and the status line.
pub struct Canvas<P, S> {
    pub annotations: Vec<Annotation<P, S>>,
    pub redo_stack: Vec<Annotation<P, S>>,
    pub drawing: Option<(Tool, S)>,
    pub status: Status,
}

/// The abstract values of a list of annotations.
pub open spec fn views<P, S>(v: Seq<Annotation<P, S>>) -> Seq<AnnotationView<P, S>> {
    v.map_values(|a: Annotation<P, S>| a@)
}

impl<P, S> View for Canvas<P, S> {
    type V = CanvasState<P, S>;

    open spec fn view(&self) -> CanvasState<P, S> {
        CanvasState {
            annotations: views(self.annotations@),
            redo_stack: views(self.redo_stack@),
            drawing: self.drawing,
            status: self.status,
        }
    }
}

proof fn lemma_views_push<P, S>(v: Seq<Annotation<P, S>>, a: Annotation<P, S>)
    ensures
        views(v.push(a)) == views(v).push(a@),
{
    assert(views(v.push(a)) =~= views(v).push(a@));
}

proof fn lemma_views_drop_last<P, S>(v: Seq<Annotation<P, S>>)
    requires
        v.len() > 0,
    ensures
        views(v.drop_last()) == views(v).drop_last(),
        views(v).last() == v.last()@,
{
    assert(views(v.drop_last()) =~= views(v).drop_last());
}

impl<P, S> Canvas<P, S> {
    /// A canvas without annotations.
    pub fn new() -> (c: Self)
        ensures
            c@ == CanvasState::<P, S>::empty(),
    {
        let c = Canvas { annotations: Vec::new(), redo_stack: Vec::new(), drawing: None, status: Status::Empty };
        assert(c@ =~= CanvasState::<P, S>::empty());
        c
    }

    /// The undo button: moves the newest annotation onto the redo stack; does
    /// nothing when there is none.
    pub fn undo(&mut self)
        ensures
            final(self)@ == old(self)@.undone(),
    {
        let ghost before = self.annotations@;
        let ghost redo_before = self.redo_stack@;
        match self.annotations.pop() {
            Some(a) => {
                proof {
                    lemma_views_drop_last(before);
                    lemma_views_push(redo_before, a);
                }
                self.redo_stack.push(a);
            },
            None => {},
        }
    }

    /// The redo button: brings back the most recently undone annotation; does
    /// nothing when there is none.
    pub fn redo(&mut self)
        ensures
            final(self)@ == old(self)@.redone(),
    {
        let ghost before = self.annotations@;
        let ghost redo_before = self.redo_stack@;
        match self.redo_stack.pop() {
            Some(a) => {
                proof {
                    lemma_views_drop_last(redo_before);
                    lemma_views_push(before, a);
                }
                self.annotations.push(a);
            },
            None => {},
        }
    }
}

/// The annotation `tool` places where a drag starts at `pos`.
fn place<P: Copy, S: Copy>(tool: Tool, pos: P, style: S) -> (a: Annotation<P, S>)
    requires
        tool != Tool::Select,
    ensures
        a@ == placed(tool, pos, style),
{
    match tool {
        Tool::Rectangle => Annotation::Rectangle { min: pos, max: pos, style },
        Tool::Arrow => Annotation::Arrow { start: pos, end: pos, style },
        Tool::Freehand => {
            let mut points: Vec<P> = Vec::new();
            points.push(pos);
            assert(points@ =~= seq![pos]);
            Annotation::Freehand { points, style }
        },
        _ => Annotation::Text { pos, text: "标注".to_owned(), style },
    }
}

/// The newest annotation `last` after the stroke of `tool` is dragged to `pos`.
fn reshape<P: Copy, S: Copy>(tool: Tool, style: S, last: Annotation<P, S>, pos: P) -> (a: Annotation<P, S>)
    ensures
        a@ == reshaped(tool, style, last@, pos),
{
    match tool {
        Tool::Rectangle => {
            let min: P = match &last {
                Annotation::Rectangle { min, .. } => *min,
                _ => pos,
            };
            Annotation::Rectangle { min, max: pos, style }
        },
        Tool::Arrow => {
            let start: P = match &last {
                Annotation::Arrow { start, .. } => *start,
                _ => pos,
            };
            Annotation::Arrow { start, end: pos, style }
        },
        Tool::Freehand => match last {
            Annotation::Freehand { points, style: line_style } => {
                let mut points = points;
                points.push(pos);
                Annotation::Freehand { points, style: line_style }
            },
            other => other,
        },
        _ => last,
    }
}

/// Whether the finished annotation `a` is too small to keep.
fn too_small<P, S>(a: &Annotation<P, S>, measured_small: bool) -> (small: bool)
    ensures
        small == is_too_small(a@, measured_small),
{
    match a {
        Annotation::Rectangle { .. } => measured_small,
        Annotation::Arrow { .. } => measured_small,
        Annotation::Freehand { points, .. } => points.len() < 2,
        Annotation::Text { .. } => false,
    }
}

/// Applies one pointer event on the canvas with `active_tool`:
/// - with `Select`, any stroke in progress is dropped and nothing is drawn;
/// - a drag start places the tool's annotation and empties the redo stack; a
///   text label also sets the status line, any other tool starts a stroke with
///   the given style;
/// - while a stroke is in progress, dragging reshapes the newest annotation
///   (a rectangle or arrow stroke needs one: the caller must not drag it when
///   every annotation is gone);
/// - a release ends the stroke, drops the newest annotation if it is too small,
///   and sets the status line.
pub fn handle_tool<P: Copy, S: Copy>(canvas: &mut Canvas<P, S>, active_tool: Tool, event: ToolEvent<P, S>)
    requires
        (event is Dragged && active_tool != Tool::Select && stroke_needs_newest(old(canvas).drawing))
            ==> old(canvas).annotations.len() > 0,
    ensures
        final(canvas)@ == old(canvas)@.handled(active_tool, event),
{
    match active_tool {
        Tool::Select => {
            canvas.drawing = None;
            return;
        },
        _ => {},
    }
    let ghost before = canvas.annotations@;
    match event {
        ToolEvent::Idle => {},
        ToolEvent::DragStarted { pos, style } => {
            let a = place(active_tool, pos, style);
            proof {
                lemma_views_push(before, a);
            }
            canvas.annotations.push(a);
            canvas.redo_stack.clear();
            assert(views(canvas.redo_stack@) =~= Seq::<AnnotationView<P, S>>::empty());
            match active_tool {
                Tool::Text => {
                    canvas.status = Status::TextAdded;
                },
                _ => {
                    canvas.drawing = Some((active_tool, style));
                },
            }
        },
        ToolEvent::Dragged(pos) => {
            match canvas.drawing {
                Some((t, style)) => {
                    if canvas.annotations.len() > 0 {
                        match canvas.annotations.pop() {
                            Some(last) => {
                                let next = reshape(t, style, last, pos);
                                proof {
                                    lemma_views_drop_last(before);
                                    lemma_views_push(before.drop_last(), next);
                                    assert(views(before).drop_last().push(next@)
                                        =~= views(before).update(views(before).len() - 1, next@));
                                }
                                canvas.annotations.push(next);
                            },
                            None => {},
                        }
                    }
                },
                None => {},
            }
        },
        ToolEvent::Released { measured_small } => {
            canvas.drawing = None;
            let n: usize = canvas.annotations.len();
            if n > 0 {
                proof {
                    lemma_views_drop_last(before);
                }
                if too_small(&canvas.annotations[n - 1], measured_small) {
                    canvas.annotations.pop();
                }
            }
            canvas.status = Status::StrokeFinished;
        },
    }
}

/// Undo followed by redo gives back the same annotations and redo stack.
pub proof fn lemma_undo_then_redo<P, S>(s: CanvasState<P, S>)
    requires
        s.annotations.len() > 0,
    ensures
        s.undone().redone() == s,
{
    assert(s.undone().redone() =~= s);
}

/// Redo followed by undo gives back the same annotations and redo stack.
pub proof fn lemma_redo_then_undo<P, S>(s: CanvasState<P, S>)
    requires
        s.redo_stack.len() > 0,
    ensures
        s.redone().undone() == s,
{
    assert(s.redone().undone() =~= s);
}

/// Undo and redo lose nothing and reorder nothing: the sequence of annotations
/// they can reach stays the same, and so does its length.
pub proof fn lemma_undo_redo_keep_timeline<P, S>(s: CanvasState<P, S>)
    ensures
        s.undone().timeline() == s.timeline(),
        s.redone().timeline() == s.timeline(),
        s.undone().annotations.len() + s.undone().redo_stack.len() == s.annotations.len() + s.redo_stack.len(),
        s.redone().annotations.len() + s.redone().redo_stack.len() == s.annotations.len() + s.redo_stack.len(),
{
    if s.annotations.len() > 0 {
        let t = s.undone();
        assert(t.redo_stack.reverse() =~= seq![s.annotations.last()] + s.redo_stack.reverse());
        assert(t.timeline() =~= s.timeline());
    }
    if s.redo_stack.len() > 0 {
        let t = s.redone();
        assert(s.redo_stack.reverse() =~= seq![s.redo_stack.last()] + t.redo_stack.reverse());
        assert(t.timeline() =~= s.timeline());
    }
}

/// Placing a new annotation appends it and forgets everything that could have
/// been redone, so a following redo changes nothing.
pub proof fn lemma_new_annotation_forgets_redo<P, S>(s: CanvasState<P, S>, tool: Tool, pos: P, style: S)
    requires
        tool != Tool::Select,
    ensures
        ({
            let t = s.handled(tool, ToolEvent::DragStarted { pos, style });
            &&& t.annotations == s.annotations.push(placed(tool, pos, style))
            &&& t.redo_stack.len() == 0
            &&& t.redone() == t
        }),
{
}

/// With the `Select` tool no pointer event changes the annotations, the redo
/// stack or the status line, and no stroke stays in progress.
pub proof fn lemma_select_draws_nothing<P, S>(s: CanvasState<P, S>, event: ToolEvent<P, S>)
    ensures
        s.handled(Tool::Select, event).annotations == s.annotations,
        s.handled(Tool::Select, event).redo_stack == s.redo_stack,
        s.handled(Tool::Select, event).status == s.status,
        s.handled(Tool::Select, event).drawing is None,
{
}

/// A release drops at most the newest annotation, and only one that is too
/// small; it never touches the redo stack, and no stroke stays in progress.
pub proof fn lemma_release_keeps_all_but_newest<P, S>(s: CanvasState<P, S>, tool: Tool, measured_small: bool)
    ensures
        ({
            let t = s.handled(tool, ToolEvent::Released { measured_small });
            &&& t.redo_stack == s.redo_stack
            &&& tool != Tool::Select ==> t.status == Status::StrokeFinished
            &&& t.drawing is None
            &&& t.annotations == s.annotations || (
                s.annotations.len() > 0
                && is_too_small(s.annotations.last(), measured_small)
                && t.annotations == s.annotations.drop_last())
        }),
{
}

/// Dragging never changes how many annotations there are, nor the redo stack,
/// and leaves every annotation but the newest as it was.
pub proof fn lemma_drag_reshapes_only_newest<P, S>(s: CanvasState<P, S>, tool: Tool, pos: P)
    ensures
        ({
            let t = s.handled(tool, ToolEvent::Dragged(pos));
            &&& t.annotations.len() == s.annotations.len()
            &&& t.redo_stack == s.redo_stack
            &&& forall|i: int| 0 <= i < s.annotations.len() - 1 ==> t.annotations[i] == s.annotations[i]
        }),
{
}

/// The redo stack only ever stays as it was or is emptied, and it is emptied
/// only when a drawing tool places a new annotation.
pub proof fn lemma_redo_kept_or_emptied_by_new_annotation<P, S>(s: CanvasState<P, S>, tool: Tool, event: ToolEvent<P, S>)
    ensures
        s.handled(tool, event).redo_stack == s.redo_stack || (
            s.handled(tool, event).redo_stack.len() == 0 && tool != Tool::Select && event is DragStarted),
{
}

/// The state after the stroke in progress on `s` was dragged to the positions
/// `drags`, in order.
pub open spec fn dragged_through<P, S>(s: CanvasState<P, S>, tool: Tool, drags: Seq<P>) -> CanvasState<P, S>
    decreases drags.len(),
{
    if drags.len() == 0 {
        s
    } else {
        dragged_through(s, tool, drags.drop_last()).handled(tool, ToolEvent::Dragged(drags.last()))
    }
}

/// The shape a stroke of `tool` has after starting at `start` and being
/// dragged to the positions `drags`: a rectangle from `start` to the last
/// position, an arrow from `start` to the last position (`start` itself when
/// never dragged), or a freehand line through `start` and every position.
pub open spec fn stroke_shape<P, S>(tool: Tool, start: P, style: S, drags: Seq<P>) -> AnnotationView<P, S> {
    let end = if drags.len() == 0 { start } else { drags.last() };
    match tool {
        Tool::Rectangle => AnnotationView::Rectangle { min: start, max: end, style },
        Tool::Arrow => AnnotationView::Arrow { start, end, style },
        _ => AnnotationView::Freehand { points: seq![start] + drags, style },
    }
}

/// Whether `tool` draws strokes (rectangles, arrows and freehand lines).
pub open spec fn is_stroke_tool(tool: Tool) -> bool {
    tool == Tool::Rectangle || tool == Tool::Arrow || tool == Tool::Freehand
}

proof fn lemma_drags_reshape_stroke<P, S>(s: CanvasState<P, S>, tool: Tool, start: P, style: S, drags: Seq<P>)
    requires
        is_stroke_tool(tool),
    ensures
        ({
            let started = s.handled(tool, ToolEvent::DragStarted { pos: start, style });
            let t = dragged_through(started, tool, drags);
            &&& t.annotations == s.annotations.push(stroke_shape(tool, start, style, drags))
            &&& t.redo_stack.len() == 0
            &&& t.drawing == Some((tool, style))
            &&& t.status == s.status
        }),
    decreases drags.len(),
{
    if drags.len() > 0 {
        let started = s.handled(tool, ToolEvent::DragStarted { pos: start, style });
        lemma_drags_reshape_stroke(s, tool, start, style, drags.drop_last());
        let before = dragged_through(started, tool, drags.drop_last());
        let prev = stroke_shape(tool, start, style, drags.drop_last());
        assert(before.annotations.last() == prev);
        if tool == Tool::Freehand {
            assert(seq![start] + drags.drop_last() + seq![drags.last()] =~= seq![start] + drags);
            assert((seq![start] + drags.drop_last()).push(drags.last()) =~= seq![start] + drags);
        }
        assert(reshaped(tool, style, prev, drags.last()) == stroke_shape(tool, start, style, drags));
        assert(before.annotations.update(before.annotations.len() - 1, reshaped(tool, style, prev, drags.last()))
            =~= s.annotations.push(stroke_shape(tool, start, style, drags)));
    }
}

/// A whole stroke of a drawing tool: started at `start` with `style`, dragged
/// to the positions `drags`, then released. The canvas ends with its earlier
/// annotations plus the stroke's final shape, or without it when that shape is
/// too small; either way the redo stack is empty, no stroke is in progress and
/// the status line says the stroke is finished.
pub proof fn lemma_stroke_gesture<P, S>(s: CanvasState<P, S>, tool: Tool, start: P, style: S, drags: Seq<P>, measured_small: bool)
    requires
        is_stroke_tool(tool),
    ensures
        ({
            let started = s.handled(tool, ToolEvent::DragStarted { pos: start, style });
            let t = dragged_through(started, tool, drags).handled(tool, ToolEvent::Released { measured_small });
            let shape = stroke_shape(tool, start, style, drags);
            &&& t.annotations == if is_too_small(shape, measured_small) {
                s.annotations
            } else {
                s.annotations.push(shape)
            }
            &&& t.redo_stack.len() == 0
            &&& t.drawing is None
            &&& t.status == Status::StrokeFinished
        }),
{
    lemma_drags_reshape_stroke(s, tool, start, style, drags);
    let started = s.handled(tool, ToolEvent::DragStarted { pos: start, style });
    let d = dragged_through(started, tool, drags);
    assert(d.annotations.drop_last() =~= s.annotations);
}

/// Undo never adds an annotation: with nothing shown it changes nothing, and
/// otherwise it moves exactly the newest annotation onto the top of the redo
/// stack, keeping the tool in progress and the status line.
pub proof fn lemma_undo_moves_newest_to_redo<P, S>(s: CanvasState<P, S>)
    ensures
        s.undone().annotations.len() <= s.annotations.len(),
        s.annotations.len() == 0 ==> s.undone() == s,
        s.annotations.len() > 0 ==> {
            &&& s.undone().annotations == s.annotations.subrange(0, s.annotations.len() - 1)
            &&& s.undone().redo_stack.len() == s.redo_stack.len() + 1
            &&& s.undone().redo_stack.subrange(0, s.redo_stack.len() as int) == s.redo_stack
            &&& s.undone().redo_stack[s.redo_stack.len() as int] == s.annotations[s.annotations.len() - 1]
        },
        s.undone().drawing == s.drawing,
        s.undone().status == s.status,
{
    if s.annotations.len() > 0 {
        assert(s.undone().redo_stack.subrange(0, s.redo_stack.len() as int) =~= s.redo_stack);
    }
}

/// Redo never removes an annotation: with nothing undone it changes nothing,
/// and otherwise it brings back exactly the top of the redo stack as the newest
/// annotation, keeping the tool in progress and the status line.
pub proof fn lemma_redo_brings_back_top<P, S>(s: CanvasState<P, S>)
    ensures
        s.redone().annotations.len() >= s.annotations.len(),
        s.redo_stack.len() == 0 ==> s.redone() == s,
        s.redo_stack.len() > 0 ==> {
            &&& s.redone().annotations.len() == s.annotations.len() + 1
            &&& s.redone().annotations.subrange(0, s.annotations.len() as int) == s.annotations
            &&& s.redone().annotations[s.annotations.len() as int] == s.redo_stack[s.redo_stack.len() - 1]
            &&& s.redone().redo_stack == s.redo_stack.subrange(0, s.redo_stack.len() - 1)
        },
        s.redone().drawing == s.drawing,
        s.redone().status == s.status,
{
    if s.redo_stack.len() > 0 {
        assert(s.redone().annotations.subrange(0, s.annotations.len() as int) =~= s.annotations);
    }
}

/// A frame without pointer activity changes nothing unless `Select` is active:
/// in particular a stroke in progress stays in progress.
pub proof fn lemma_idle_changes_nothing<P, S>(s: CanvasState<P, S>, tool: Tool)
    requires
        tool != Tool::Select,
    ensures
        s.handled(tool, ToolEvent::Idle) == s,
{
}

/// What a drag start places, tool by tool: a rectangle or an arrow with both
/// ends at the press point, a freehand line of that one point, or a label
/// reading "标注" there; all in the given style, on top of the earlier
/// annotations, with the redo stack emptied. A label sets the status line and
/// leaves the stroke state alone; the other tools start a stroke of their own
/// with the given style and leave the status line alone.
pub proof fn lemma_drag_start_places<P, S>(s: CanvasState<P, S>, tool: Tool, pos: P, style: S)
    requires
        tool != Tool::Select,
    ensures
        ({
            let t = s.handled(tool, ToolEvent::DragStarted { pos, style });
            let n = s.annotations.len() as int;
            &&& t.annotations.len() == n + 1
            &&& t.annotations.subrange(0, n) == s.annotations
            &&& tool == Tool::Rectangle ==> t.annotations[n] == AnnotationView::<P, S>::Rectangle { min: pos, max: pos, style }
            &&& tool == Tool::Arrow ==> t.annotations[n] == AnnotationView::<P, S>::Arrow { start: pos, end: pos, style }
            &&& tool == Tool::Freehand ==> t.annotations[n] == AnnotationView::<P, S>::Freehand { points: seq![pos], style }
            &&& tool == Tool::Text ==> t.annotations[n] == AnnotationView::<P, S>::Text { pos, text: "标注"@, style }
            &&& t.redo_stack.len() == 0
            &&& tool == Tool::Text ==> t.status == Status::TextAdded && t.drawing == s.drawing
            &&& tool != Tool::Text ==> t.status == s.status && t.drawing == Some((tool, style))
        }),
{
    let t = s.handled(tool, ToolEvent::DragStarted { pos, style });
    assert(t.annotations.subrange(0, s.annotations.len() as int) =~= s.annotations);
}

/// What a drag does, by the stroke in progress: nothing without a stroke or
/// without annotations; otherwise only the newest annotation changes. A
/// rectangle stroke makes it a rectangle in the stroke's style from the first
/// corner of the newest rectangle (or from the pointer, if the newest is no
/// rectangle) to the pointer; an arrow stroke likewise keeps the tail of the
/// newest arrow; a freehand stroke appends the pointer to the newest line, and
/// leaves anything that is not a line as it is.
pub proof fn lemma_drag_follows_pointer<P, S>(s: CanvasState<P, S>, tool: Tool, pos: P)
    requires
        tool != Tool::Select,
    ensures
        ({
            let t = s.handled(tool, ToolEvent::Dragged(pos));
            let n = s.annotations.len() as int;
            let d = s.drawing->Some_0.0;
            let st = s.drawing->Some_0.1;
            &&& t.redo_stack == s.redo_stack
            &&& t.drawing == s.drawing
            &&& t.status == s.status
            &&& (s.drawing is None || n == 0) ==> t == s
            &&& n > 0 ==> t.annotations.len() == n && t.annotations.subrange(0, n - 1) == s.annotations.subrange(0, n - 1)
            &&& (n > 0 && s.drawing is Some && d == Tool::Rectangle) ==> t.annotations[n - 1]
                == AnnotationView::<P, S>::Rectangle {
                    min: if s.annotations[n - 1] is Rectangle { s.annotations[n - 1]->Rectangle_min } else { pos },
                    max: pos,
                    style: st,
                }
            &&& (n > 0 && s.drawing is Some && d == Tool::Arrow) ==> t.annotations[n - 1]
                == AnnotationView::<P, S>::Arrow {
                    start: if s.annotations[n - 1] is Arrow { s.annotations[n - 1]->Arrow_start } else { pos },
                    end: pos,
                    style: st,
                }
            &&& (n > 0 && s.drawing is Some && d == Tool::Freehand) ==> (
                if s.annotations[n - 1] is Freehand {
                    t.annotations[n - 1] == AnnotationView::<P, S>::Freehand {
                        points: s.annotations[n - 1]->Freehand_points.push(pos),
                        style: s.annotations[n - 1]->Freehand_style,
                    }
                } else {
                    t.annotations[n - 1] == s.annotations[n - 1]
                })
        }),
{
    let t = s.handled(tool, ToolEvent::Dragged(pos));
    let n = s.annotations.len() as int;
    if n > 0 {
        assert(t.annotations.subrange(0, n - 1) =~= s.annotations.subrange(0, n - 1));
    }
}

/// What a release does: the stroke ends, the status line says so, the redo
/// stack is kept, and the newest annotation is dropped exactly when it is a
/// rectangle or an arrow the host measured as small, or a freehand line of
/// fewer than two points; a label is always kept.
pub proof fn lemma_release_drops_small_shapes<P, S>(s: CanvasState<P, S>, tool: Tool, measured_small: bool)
    requires
        tool != Tool::Select,
    ensures
        ({
            let t = s.handled(tool, ToolEvent::Released { measured_small });
            let n = s.annotations.len() as int;
            &&& t.redo_stack == s.redo_stack
            &&& t.drawing is None
            &&& t.status == Status::StrokeFinished
            &&& n == 0 ==> t.annotations == s.annotations
            &&& n > 0 ==> {
                let last = s.annotations[n - 1];
                let dropped = match last {
                    AnnotationView::Rectangle { .. } => measured_small,
                    AnnotationView::Arrow { .. } => measured_small,
                    AnnotationView::Freehand { points, .. } => points.len() < 2,
                    AnnotationView::Text { .. } => false,
                };
                if dropped {
                    t.annotations == s.annotations.subrange(0, n - 1)
                } else {
                    t.annotations == s.annotations
                }
            }
        }),
{
}

} // verus!
