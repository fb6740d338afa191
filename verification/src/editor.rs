//! The annotation editor.

use vstd::prelude::*;

use crate::annotation::{
    Annotation, AnnotationDoc, AnnotationView, Color, DocView, Drag, Shape, ShapeView, Tool,
    DEFAULT_WIDTH, HANDLE_RADIUS, TEXT_HEIGHT, TEXT_WIDTH,
};
use crate::annotation;
use crate::geom::{Point, Size};

verus! {

#[derive(Debug, Clone, Copy, PartialEq, Eq, Structural)]
pub enum EditEvent {
    Down(Point),
    Move(Point),
    Up(Point),
}

#[derive(Debug, Clone, Copy, PartialEq, Eq, Structural)]
pub enum EditOutcome {
    /// Nothing changed.
    Idle,
    Redraw,
    /// A text was made, and the user should type into it. Typing is left to a
    /// native control, so that input methods work.
    BeginTextInput(usize),
}

/// The contents of an [`AnnotationEditor`].
pub struct EditorView {
    pub doc: DocView,
    /// The snapshots that undo and redo go through.
    pub snapshots: Seq<DocView>,
    /// Which snapshot is the current one.
    pub index: int,
    pub tool: Tool,
    pub drag: Drag,
    pub color: Color,
    pub width: i64,
}

/// The last annotation that a click at `p` hits. Later annotations are drawn
/// above earlier ones.
pub open spec fn topmost_hit(objects: Seq<AnnotationView>, p: Point) -> Option<usize>
    decreases objects.len(),
{
    if objects.len() == 0 {
        None
    } else if objects.last().hit(p) {
        Some((objects.len() - 1) as usize)
    } else {
        topmost_hit(objects.drop_last(), p)
    }
}

/// The largest number of a numbered mark, or zero.
pub open spec fn last_number(objects: Seq<AnnotationView>) -> u32
    decreases objects.len(),
{
    if objects.len() == 0 {
        0
    } else {
        let before = last_number(objects.drop_last());
        match objects.last().shape {
            ShapeView::Number(n) => if n > before {
                n
            } else {
                before
            },
            _ => before,
        }
    }
}

/// The figure that a tool draws.
pub open spec fn drawn_shape(tool: Tool, objects: Seq<AnnotationView>) -> ShapeView {
    match tool {
        Tool::Rect => ShapeView::Rect,
        Tool::Ellipse => ShapeView::Ellipse,
        Tool::Line => ShapeView::Line,
        Tool::Arrow => ShapeView::Arrow,
        Tool::Highlight => ShapeView::Highlight,
        Tool::Number => ShapeView::Number(
            if last_number(objects) == u32::MAX {
                u32::MAX
            } else {
                (last_number(objects) + 1) as u32
            },
        ),
        _ => ShapeView::Redact,
    }
}

impl EditorView {
    pub open spec fn wf(self) -> bool {
        0 <= self.index < self.snapshots.len()
    }

    /// A new editor.
    pub open spec fn fresh() -> EditorView {
        let doc = DocView { objects: Seq::empty(), selected: None };
        EditorView {
            doc,
            snapshots: seq![doc],
            index: 0,
            tool: Tool::Select,
            drag: Drag::Idle,
            color: Color::red(),
            width: DEFAULT_WIDTH,
        }
    }

    /// The document becomes the snapshot after the current one; the snapshots
    /// that followed are dropped.
    pub open spec fn committed(self) -> EditorView {
        EditorView {
            snapshots: self.snapshots.take(self.index + 1).push(self.doc),
            index: self.index + 1,
            ..self
        }
    }

    pub open spec fn with_tool(self, tool: Tool) -> EditorView {
        EditorView {
            tool,
            drag: Drag::Idle,
            doc: DocView { selected: None, ..self.doc },
            ..self
        }
    }

    pub open spec fn with_object(self, i: int, object: AnnotationView) -> EditorView {
        EditorView {
            doc: DocView { objects: self.doc.objects.update(i, object), ..self.doc },
            ..self
        }
    }

    /// Annotation `i` is a text.
    pub open spec fn is_text(self, i: int) -> bool {
        0 <= i < self.doc.objects.len() && self.doc.objects[i].shape is Text
    }

    pub open spec fn with_text(self, i: int, s: Seq<char>) -> EditorView {
        if self.is_text(i) {
            self.with_object(
                i,
                AnnotationView { shape: ShapeView::Text(s), ..self.doc.objects[i] },
            )
        } else {
            self
        }
    }

    pub open spec fn with_extent(self, i: int, extent: Size) -> EditorView {
        if self.is_text(i) {
            let o = self.doc.objects[i];
            self.with_object(
                i,
                AnnotationView { b: o.a.plus(Point { x: extent.width, y: extent.height }), ..o },
            )
        } else {
            self
        }
    }

    /// Annotation `i` is gone, and with it the selection if it was selected.
    pub open spec fn without(self, i: usize) -> EditorView {
        EditorView {
            doc: DocView {
                objects: self.doc.objects.remove(i as int),
                selected: if self.doc.selected == Some(i) {
                    None
                } else {
                    self.doc.selected
                },
            },
            ..self
        }
    }

    /// Annotation `i` exists and is not worth keeping.
    pub open spec fn drops(self, i: usize) -> bool {
        i < self.doc.objects.len() && self.doc.objects[i as int].degenerate()
    }

    pub open spec fn after_finish_text(self, i: usize) -> EditorView {
        if self.drops(i) {
            self.without(i).committed()
        } else {
            self.committed()
        }
    }

    /// The selection names an annotation.
    pub open spec fn has_selection(self) -> bool {
        self.doc.selected matches Some(i) && i < self.doc.objects.len()
    }

    pub open spec fn deselected(self) -> EditorView {
        EditorView { doc: DocView { selected: None, ..self.doc }, ..self }
    }

    pub open spec fn after_delete(self) -> EditorView {
        if self.has_selection() {
            self.without(self.doc.selected->0).committed()
        } else {
            self.deselected()
        }
    }

    pub open spec fn after_undo(self) -> EditorView {
        if self.index == 0 {
            self
        } else {
            EditorView { index: self.index - 1, doc: self.snapshots[self.index - 1], ..self }
        }
    }

    pub open spec fn can_redo(self) -> bool {
        self.index + 1 < self.snapshots.len()
    }

    pub open spec fn after_redo(self) -> EditorView {
        if self.can_redo() {
            EditorView { index: self.index + 1, doc: self.snapshots[self.index + 1], ..self }
        } else {
            self
        }
    }

    pub open spec fn with_drag(self, drag: Drag) -> EditorView {
        EditorView { drag, ..self }
    }

    /// A new annotation, which is then the selected one.
    pub open spec fn with_new(self, object: AnnotationView) -> EditorView {
        EditorView {
            doc: DocView {
                objects: self.doc.objects.push(object),
                selected: Some(self.doc.objects.len() as usize),
            },
            ..self
        }
    }

    /// The button goes down at `p` with the selection tool: near a corner of
    /// the selected annotation it grabs the corner, elsewhere it selects and
    /// grabs the topmost annotation that it hits, or none.
    pub open spec fn after_select_down(self, p: Point) -> EditorView {
        if self.has_selection() && p.minus(self.doc.objects[self.doc.selected->0 as int].a).within(
            HANDLE_RADIUS,
        ) {
            self.with_drag(Drag::Resizing { corner: 0 })
        } else if self.has_selection() && p.minus(
            self.doc.objects[self.doc.selected->0 as int].b,
        ).within(HANDLE_RADIUS) {
            self.with_drag(Drag::Resizing { corner: 1 })
        } else {
            let hit = topmost_hit(self.doc.objects, p);
            EditorView {
                doc: DocView { selected: hit, ..self.doc },
                drag: match hit {
                    Some(i) => Drag::Moving { grab: p.minus(self.doc.objects[i as int].a) },
                    None => Drag::Idle,
                },
                ..self
            }
        }
    }

    pub open spec fn after_down(self, p: Point) -> (EditorView, EditOutcome) {
        match self.tool {
            Tool::Select => (self.after_select_down(p), EditOutcome::Redraw),
            Tool::Text => (
                self.with_new(
                    AnnotationView {
                        shape: ShapeView::Text(Seq::empty()),
                        a: p,
                        b: p.plus(Point { x: TEXT_WIDTH, y: TEXT_HEIGHT }),
                        color: self.color,
                        width: self.width,
                    },
                ),
                EditOutcome::BeginTextInput(self.doc.objects.len() as usize),
            ),
            tool => (
                self.with_new(
                    AnnotationView {
                        shape: drawn_shape(tool, self.doc.objects),
                        a: p,
                        b: p,
                        color: self.color,
                        width: self.width,
                    },
                ).with_drag(Drag::Creating),
                EditOutcome::Redraw,
            ),
        }
    }

    /// An annotation after the pointer moved to `p` during a drag.
    pub open spec fn dragged(o: AnnotationView, drag: Drag, p: Point) -> AnnotationView {
        match drag {
            Drag::Idle => o,
            Drag::Creating => AnnotationView { b: p, ..o },
            Drag::Moving { grab } => AnnotationView {
                a: p.minus(grab),
                b: p.minus(grab).plus(o.b.minus(o.a)),
                ..o
            },
            Drag::Resizing { corner } => if corner == 0 {
                AnnotationView { a: p, ..o }
            } else {
                AnnotationView { b: p, ..o }
            },
        }
    }

    pub open spec fn after_move(self, p: Point) -> (EditorView, EditOutcome) {
        if self.has_selection() && self.drag != Drag::Idle {
            let i = self.doc.selected->0 as int;
            (
                self.with_object(i, EditorView::dragged(self.doc.objects[i], self.drag, p)),
                EditOutcome::Redraw,
            )
        } else {
            (self, EditOutcome::Idle)
        }
    }

    /// The end of a drag: a figure that was drawn too small is dropped without
    /// a trace, anything else can be undone.
    pub open spec fn after_up(self) -> (EditorView, EditOutcome) {
        if self.drag == Drag::Idle {
            (self, EditOutcome::Idle)
        } else {
            let rest = self.with_drag(Drag::Idle);
            if self.draws_too_little() {
                (rest.without(self.doc.selected->0), EditOutcome::Redraw)
            } else {
                (rest.committed(), EditOutcome::Redraw)
            }
        }
    }

    pub open spec fn after(self, event: EditEvent) -> (EditorView, EditOutcome) {
        match event {
            EditEvent::Down(p) => self.after_down(p),
            EditEvent::Move(p) => self.after_move(p),
            EditEvent::Up(_) => self.after_up(),
        }
    }

    /// The pointer moves through points, one after the other.
    pub open spec fn after_moves(self, points: Seq<Point>) -> EditorView
        decreases points.len(),
    {
        if points.len() == 0 {
            self
        } else {
            self.after_moves(points.drop_last()).after(EditEvent::Move(points.last())).0
        }
    }

    /// A whole drag before the button goes up: a press and moves.
    pub open spec fn during_drag(self, start: Point, points: Seq<Point>) -> EditorView {
        self.after(EditEvent::Down(start)).0.after_moves(points)
    }

    /// A whole drag: a press, moves and the release.
    pub open spec fn after_drag(self, start: Point, points: Seq<Point>, end: Point)
        -> EditorView {
        self.during_drag(start, points).after(EditEvent::Up(end)).0
    }

    /// What is being drawn is too small to be kept.
    pub open spec fn draws_too_little(self) -> bool {
        self.drag == Drag::Creating && self.has_selection() && self.drops(self.doc.selected->0)
    }

    /// The selection names an annotation, if there is one, in the document and in
    /// every snapshot.
    pub open spec fn selections_exist(self) -> bool {
        &&& selection_exists(self.doc)
        &&& forall|k: int|
            0 <= k < self.snapshots.len() ==> selection_exists(#[trigger] self.snapshots[k])
    }
}

/// The selection of a document names an annotation, if there is one.
pub open spec fn selection_exists(doc: DocView) -> bool {
    doc.selected matches Some(i) ==> i < doc.objects.len()
}

/// The undo stack. It holds whole documents: there are rarely more than a few
/// annotations.
struct History {
    stack: Vec<AnnotationDoc>,
    index: usize,
}

spec fn documents(stack: Seq<AnnotationDoc>) -> Seq<DocView> {
    stack.map_values(|d: AnnotationDoc| d@)
}

impl History {
    spec fn wf(self) -> bool {
        self.index < self.stack@.len()
    }

    fn new(doc: &AnnotationDoc) -> (r: History)
        ensures
            documents(r.stack@) == seq![doc@],
            r.index == 0,
            r.wf(),
    {
        let mut stack: Vec<AnnotationDoc> = Vec::new();
        stack.push(doc.clone());
        proof {
            assert(documents(stack@) =~= seq![doc@]);
        }
        History { stack, index: 0 }
    }

    fn commit(&mut self, doc: &AnnotationDoc)
        requires
            old(self).wf(),
        ensures
            final(self).wf(),
            documents(final(self).stack@) == documents(old(self).stack@).take(
                old(self).index + 1,
            ).push(doc@),
            final(self).index == old(self).index + 1,
    {
        proof {
            assert(self.index < self.stack.len());
        }
        self.stack.truncate(self.index + 1);
        self.stack.push(doc.clone());
        self.index = self.stack.len() - 1;
        proof {
            assert(documents(self.stack@) =~= documents(old(self).stack@).take(
                old(self).index + 1,
            ).push(doc@));
        }
    }

    fn undo(&mut self) -> (r: Option<AnnotationDoc>)
        requires
            old(self).wf(),
        ensures
            final(self).wf(),
            final(self).stack == old(self).stack,
            match r {
                Some(d) => old(self).index > 0 && final(self).index == old(self).index - 1 && d@
                    == documents(old(self).stack@)[old(self).index - 1],
                None => old(self).index == 0 && final(self).index == 0,
            },
    {
        if self.index == 0 {
            return None;
        }
        self.index = self.index - 1;
        Some(self.stack[self.index].clone())
    }

    fn redo(&mut self) -> (r: Option<AnnotationDoc>)
        requires
            old(self).wf(),
        ensures
            final(self).wf(),
            final(self).stack == old(self).stack,
            match r {
                Some(d) => old(self).index + 1 < old(self).stack@.len() && final(self).index
                    == old(self).index + 1 && d@ == documents(old(self).stack@)[old(self).index
                    + 1],
                None => old(self).index + 1 >= old(self).stack@.len() && final(self).index
                    == old(self).index,
            },
    {
        if self.index >= self.stack.len() - 1 {
            return None;
        }
        self.index = self.index + 1;
        Some(self.stack[self.index].clone())
    }
}

pub struct AnnotationEditor {
    doc: AnnotationDoc,
    history: History,
    tool: Tool,
    drag: Drag,
    color: Color,
    width: i64,
}

impl View for AnnotationEditor {
    type V = EditorView;

    closed spec fn view(&self) -> EditorView {
        EditorView {
            doc: self.doc@,
            snapshots: documents(self.history.stack@),
            index: self.history.index as int,
            tool: self.tool,
            drag: self.drag,
            color: self.color,
            width: self.width,
        }
    }
}

impl Default for AnnotationEditor {
    fn default() -> (r: AnnotationEditor)
        ensures
            r@ == EditorView::fresh(),
    {
        AnnotationEditor::new()
    }
}

impl AnnotationEditor {
    pub fn new() -> (r: AnnotationEditor)
        ensures
            r@ == EditorView::fresh(),
    {
        let doc: AnnotationDoc = AnnotationDoc::default();
        AnnotationEditor {
            history: History::new(&doc),
            doc,
            tool: Tool::Select,
            drag: Drag::Idle,
            color: Color::red(),
            width: DEFAULT_WIDTH,
        }
    }

    pub fn objects(&self) -> (r: &[Annotation])
        ensures
            annotation::contents(r@) == self@.doc.objects,
    {
        self.doc.objects.as_slice()
    }

    pub fn selected(&self) -> (r: Option<usize>)
        ensures
            r == self@.doc.selected,
    {
        self.doc.selected
    }

    pub fn tool(&self) -> (r: Tool)
        ensures
            r == self@.tool,
    {
        self.tool
    }

    /// Takes up a tool. Nothing is selected then: otherwise the user would
    /// seem to be editing the former annotation still.
    pub fn set_tool(&mut self, tool: Tool)
        ensures
            final(self)@ == old(self)@.with_tool(tool),
    {
        self.tool = tool;
        self.doc.selected = None;
        self.drag = Drag::Idle;
    }

    /// The colour of what is drawn next.
    pub fn color(&self) -> (r: Color)
        ensures
            r == self@.color,
    {
        self.color
    }

    /// Takes up a colour. What has been drawn keeps its own.
    pub fn set_color(&mut self, color: Color)
        ensures
            final(self)@ == (EditorView { color, ..old(self)@ }),
    {
        self.color = color;
    }

    /// The line width of what is drawn next.
    pub fn width(&self) -> (r: i64)
        ensures
            r == self@.width,
    {
        self.width
    }

    /// Takes up a line width. What has been drawn keeps its own.
    pub fn set_width(&mut self, width: i64)
        ensures
            final(self)@ == (EditorView { width, ..old(self)@ }),
    {
        self.width = width;
    }

    pub fn is_empty(&self) -> (r: bool)
        ensures
            r == (self@.doc.objects.len() == 0),
    {
        self.doc.objects.len() == 0
    }

    /// Whether the pointer is drawing, moving or resizing an annotation.
    pub fn has_active_drag(&self) -> (r: bool)
        ensures
            r == (self@.drag != Drag::Idle),
    {
        self.drag != Drag::Idle
    }

    /// Replaces what a text says.
    pub fn set_text(&mut self, index: usize, text: String)
        ensures
            final(self)@ == old(self)@.with_text(index as int, text@),
    {
        if index < self.doc.objects.len() {
            if let Shape::Text(_) = self.doc.objects[index].shape {
                self.doc.objects[index].shape = Shape::Text(text);
                proof {
                    assert(self@.doc.objects =~= old(self)@.with_text(
                        index as int,
                        text@,
                    ).doc.objects);
                }
            }
        }
    }

    /// Gives a text the size that it takes on the screen. The editor has no
    /// font metrics of its own.
    pub fn set_text_extent(&mut self, index: usize, extent: Size)
        ensures
            final(self)@ == old(self)@.with_extent(index as int, extent),
    {
        if index < self.doc.objects.len() {
            if let Shape::Text(_) = self.doc.objects[index].shape {
                let a: Point = self.doc.objects[index].a;
                self.doc.objects[index].b = a.plus(
                    Point { x: extent.width, y: extent.height },
                );
                proof {
                    assert(self@.doc.objects =~= old(self)@.with_extent(
                        index as int,
                        extent,
                    ).doc.objects);
                }
            }
        }
    }

    /// Ends the input of a text. A text without a visible character is
    /// dropped: it could not be seen, but could still be selected.
    pub fn finish_text(&mut self, index: usize)
        requires
            old(self)@.wf(),
        ensures
            final(self)@ == old(self)@.after_finish_text(index),
            final(self)@.wf(),
    {
        if index < self.doc.objects.len() && self.doc.objects[index].is_degenerate() {
            self.remove(index);
        }
        self.history.commit(&self.doc);
    }

    fn remove(&mut self, index: usize)
        requires
            index < old(self)@.doc.objects.len(),
        ensures
            final(self)@ == old(self)@.without(index),
            final(self).history == old(self).history,
    {
        let _ = self.doc.objects.remove(index);
        if self.doc.selected == Some(index) {
            self.doc.selected = None;
        }
        proof {
            assert(self@.doc.objects =~= old(self)@.without(index).doc.objects);
        }
    }

    /// Deletes the selected annotation and reports whether there was one.
    pub fn delete_selected(&mut self) -> (r: bool)
        requires
            old(self)@.wf(),
        ensures
            r == old(self)@.has_selection(),
            final(self)@ == old(self)@.after_delete(),
            final(self)@.wf(),
    {
        let i: usize = match self.doc.selected {
            Some(i) => i,
            None => {
                return false;
            },
        };
        if i >= self.doc.objects.len() {
            self.doc.selected = None;
            return false;
        }
        self.remove(i);
        self.history.commit(&self.doc);
        true
    }

    /// Takes the last change back and reports whether there was one.
    pub fn undo(&mut self) -> (r: bool)
        requires
            old(self)@.wf(),
        ensures
            r == (old(self)@.index > 0),
            final(self)@ == old(self)@.after_undo(),
            final(self)@.wf(),
    {
        match self.history.undo() {
            Some(d) => {
                self.doc = d;
                true
            },
            None => false,
        }
    }

    /// Makes a change again that was taken back, and reports whether there was
    /// one.
    pub fn redo(&mut self) -> (r: bool)
        requires
            old(self)@.wf(),
        ensures
            r == old(self)@.can_redo(),
            final(self)@ == old(self)@.after_redo(),
            final(self)@.wf(),
    {
        match self.history.redo() {
            Some(d) => {
                self.doc = d;
                true
            },
            None => false,
        }
    }

    pub fn handle(&mut self, event: EditEvent) -> (r: EditOutcome)
        requires
            old(self)@.wf(),
        ensures
            (final(self)@, r) == old(self)@.after(event),
            final(self)@.wf(),
    {
        match event {
            EditEvent::Down(p) => self.on_down(p),
            EditEvent::Move(p) => self.on_move(p),
            EditEvent::Up(_) => self.on_up(),
        }
    }

    fn topmost_hit(&self, p: Point) -> (r: Option<usize>)
        ensures
            r == topmost_hit(self@.doc.objects, p),
            r matches Some(i) ==> i < self@.doc.objects.len(),
    {
        let mut i: usize = self.doc.objects.len();
        proof {
            assert(self@.doc.objects.take(i as int) =~= self@.doc.objects);
        }
        while i > 0
            invariant
                i <= self.doc.objects@.len(),
                topmost_hit(self@.doc.objects, p) == topmost_hit(
                    self@.doc.objects.take(i as int),
                    p,
                ),
            decreases i,
        {
            proof {
                assert(self@.doc.objects.take(i as int).drop_last() =~= self@.doc.objects.take(
                    i - 1,
                ));
                assert(self@.doc.objects.take(i as int).last() == self.doc.objects@[i - 1]@);
            }
            i = i - 1;
            if self.doc.objects[i].hit(p) {
                return Some(i);
            }
        }
        None
    }

    fn last_number(&self) -> (r: u32)
        ensures
            r == last_number(self@.doc.objects),
    {
        let mut best: u32 = 0;
        let mut i: usize = 0;
        while i < self.doc.objects.len()
            invariant
                i <= self.doc.objects@.len(),
                best == last_number(self@.doc.objects.take(i as int)),
            decreases self.doc.objects@.len() - i,
        {
            if let Shape::Number(n) = self.doc.objects[i].shape {
                if n > best {
                    best = n;
                }
            }
            i = i + 1;
            proof {
                assert(self@.doc.objects.take(i as int).drop_last() =~= self@.doc.objects.take(
                    i - 1,
                ));
                assert(self@.doc.objects.take(i as int).last() == self.doc.objects@[i - 1]@);
            }
        }
        proof {
            assert(self@.doc.objects.take(i as int) =~= self@.doc.objects);
        }
        best
    }

    fn drawn_shape(&self) -> (r: Shape)
        ensures
            r@ == drawn_shape(self@.tool, self@.doc.objects),
    {
        match self.tool {
            Tool::Rect => Shape::Rect,
            Tool::Ellipse => Shape::Ellipse,
            Tool::Line => Shape::Line,
            Tool::Arrow => Shape::Arrow,
            Tool::Highlight => Shape::Highlight,
            Tool::Number => {
                let last: u32 = self.last_number();
                Shape::Number(
                    if last == u32::MAX {
                        u32::MAX
                    } else {
                        last + 1
                    },
                )
            },
            _ => Shape::Redact,
        }
    }

    fn push_selected(&mut self, object: Annotation) -> (i: usize)
        ensures
            final(self)@ == old(self)@.with_new(object@),
            i == old(self)@.doc.objects.len(),
    {
        let i: usize = self.doc.objects.len();
        self.doc.objects.push(object);
        self.doc.selected = Some(i);
        proof {
            assert(self@.doc.objects =~= old(self)@.with_new(object@).doc.objects);
        }
        i
    }

    fn on_down(&mut self, p: Point) -> (r: EditOutcome)
        requires
            old(self)@.wf(),
        ensures
            (final(self)@, r) == old(self)@.after_down(p),
            final(self)@.wf(),
    {
        match self.tool {
            Tool::Select => {
                // The corners come first: where a corner overlaps an
                // annotation, the user means the corner.
                if let Some(i) = self.doc.selected {
                    if i < self.doc.objects.len() {
                        if p.minus(self.doc.objects[i].a).within(HANDLE_RADIUS) {
                            self.drag = Drag::Resizing { corner: 0 };
                            return EditOutcome::Redraw;
                        }
                        if p.minus(self.doc.objects[i].b).within(HANDLE_RADIUS) {
                            self.drag = Drag::Resizing { corner: 1 };
                            return EditOutcome::Redraw;
                        }
                    }
                }
                let hit: Option<usize> = self.topmost_hit(p);
                self.doc.selected = hit;
                self.drag = match hit {
                    Some(i) => Drag::Moving { grab: p.minus(self.doc.objects[i].a) },
                    None => Drag::Idle,
                };
                EditOutcome::Redraw
            },
            Tool::Text => {
                let text: String = String::new();
                let i: usize = self.push_selected(
                    Annotation {
                        shape: Shape::Text(text),
                        a: p,
                        b: p.plus(Point { x: TEXT_WIDTH, y: TEXT_HEIGHT }),
                        color: self.color,
                        width: self.width,
                    },
                );
                EditOutcome::BeginTextInput(i)
            },
            _ => {
                let shape: Shape = self.drawn_shape();
                let _ = self.push_selected(
                    Annotation { shape, a: p, b: p, color: self.color, width: self.width },
                );
                self.drag = Drag::Creating;
                EditOutcome::Redraw
            },
        }
    }

    fn on_move(&mut self, p: Point) -> (r: EditOutcome)
        requires
            old(self)@.wf(),
        ensures
            (final(self)@, r) == old(self)@.after_move(p),
            final(self)@.wf(),
    {
        let i: usize = match self.doc.selected {
            Some(i) => i,
            None => {
                return EditOutcome::Idle;
            },
        };
        if i >= self.doc.objects.len() {
            return EditOutcome::Idle;
        }
        match self.drag {
            Drag::Creating => {
                self.doc.objects[i].b = p;
            },
            Drag::Moving { grab } => {
                let d: Point = self.doc.objects[i].b.minus(self.doc.objects[i].a);
                let a: Point = p.minus(grab);
                self.doc.objects[i].a = a;
                self.doc.objects[i].b = a.plus(d);
            },
            Drag::Resizing { corner } => {
                if corner == 0 {
                    self.doc.objects[i].a = p;
                } else {
                    self.doc.objects[i].b = p;
                }
            },
            Drag::Idle => {
                return EditOutcome::Idle;
            },
        }
        proof {
            assert(self@.doc.objects =~= old(self)@.after_move(p).0.doc.objects);
        }
        EditOutcome::Redraw
    }

    fn on_up(&mut self) -> (r: EditOutcome)
        requires
            old(self)@.wf(),
        ensures
            (final(self)@, r) == old(self)@.after_up(),
            final(self)@.wf(),
    {
        if self.drag == Drag::Idle {
            return EditOutcome::Idle;
        }
        let creating: bool = self.drag == Drag::Creating;
        self.drag = Drag::Idle;
        if creating {
            if let Some(i) = self.doc.selected {
                if i < self.doc.objects.len() && self.doc.objects[i].is_degenerate() {
                    self.remove(i);
                    return EditOutcome::Redraw;
                }
            }
        }
        self.history.commit(&self.doc);
        EditOutcome::Redraw
    }
}

/// What [`topmost_hit`] means: the annotation is hit and none above it is; if
/// there is none, no annotation is hit.
pub proof fn law_topmost_hit(objects: Seq<AnnotationView>, p: Point)
    requires
        objects.len() <= usize::MAX,
    ensures
        match topmost_hit(objects, p) {
            Some(i) => i < objects.len() && objects[i as int].hit(p) && forall|k: int|
                i < k < objects.len() ==> !(#[trigger] objects[k]).hit(p),
            None => forall|k: int| 0 <= k < objects.len() ==> !(#[trigger] objects[k]).hit(p),
        },
    decreases objects.len(),
{
    if objects.len() > 0 && !objects.last().hit(p) {
        let init = objects.drop_last();
        law_topmost_hit(init, p);
        assert forall|k: int| 0 <= k < objects.len() && !objects[k].hit(p) implies k
            == objects.len() - 1 || !(#[trigger] init[k]).hit(p) by {
            if k < init.len() {
                assert(init[k] == objects[k]);
            }
        }
        assert forall|k: int| 0 <= k < init.len() implies init[k] == #[trigger] objects[k] by {}
    }
}

/// A new mark has a number that no other mark has, as long as the numbers
/// last.
pub proof fn law_numbers_are_new(objects: Seq<AnnotationView>, k: int)
    requires
        0 <= k < objects.len(),
        last_number(objects) < u32::MAX,
    ensures
        drawn_shape(Tool::Number, objects) == ShapeView::Number((last_number(objects) + 1) as u32),
        objects[k].shape != drawn_shape(Tool::Number, objects),
{
    lemma_last_number_is_largest(objects, k);
}

proof fn lemma_last_number_is_largest(objects: Seq<AnnotationView>, k: int)
    requires
        0 <= k < objects.len(),
    ensures
        objects[k].shape matches ShapeView::Number(n) ==> n <= last_number(objects),
    decreases objects.len(),
{
    if k < objects.len() - 1 {
        lemma_last_number_is_largest(objects.drop_last(), k);
        assert(objects.drop_last()[k] == objects[k]);
    }
}

/// Every operation keeps the undo stack in order.
pub proof fn law_operations_keep_the_invariant(e: EditorView, event: EditEvent, i: usize)
    requires
        e.wf(),
    ensures
        EditorView::fresh().wf(),
        e.after(event).0.wf(),
        e.after_finish_text(i).wf(),
        e.after_delete().wf(),
        e.after_undo().wf(),
        e.after_redo().wf(),
{
}

/// Undo takes back what was committed last: it restores the snapshot that was
/// current before.
pub proof fn law_undo_reverts_a_commit(e: EditorView)
    requires
        e.wf(),
    ensures
        e.committed().index > 0,
        e.committed().after_undo().doc == e.snapshots[e.index],
        e.committed().after_undo().index == e.index,
{
}

/// Redo after undo brings the document back.
pub proof fn law_redo_reverts_an_undo(e: EditorView)
    requires
        e.wf(),
        e.index > 0,
        e.doc == e.snapshots[e.index],
    ensures
        e.after_undo().can_redo(),
        e.after_undo().after_redo() == e,
{
}

/// Undo after redo brings the document back.
pub proof fn law_undo_reverts_a_redo(e: EditorView)
    requires
        e.wf(),
        e.can_redo(),
        e.doc == e.snapshots[e.index],
    ensures
        e.after_redo().index > 0,
        e.after_redo().after_undo() == e,
{
}

/// A new change drops what could have been made again.
pub proof fn law_a_change_drops_the_redo_branch(e: EditorView)
    requires
        e.wf(),
    ensures
        !e.committed().can_redo(),
        e.committed().after_redo() == e.committed(),
{
}

/// A click without a drag draws nothing and leaves nothing to undo.
pub proof fn law_a_click_draws_nothing(e: EditorView, p: Point, q: Point)
    requires
        e.tool !is Select,
        e.tool !is Text,
        e.doc.objects.len() < usize::MAX,
    ensures
        ({
            let after = e.after(EditEvent::Down(p)).0.after(EditEvent::Up(q)).0;
            &&& after.doc.objects == e.doc.objects
            &&& after.doc.selected is None
            &&& after.snapshots == e.snapshots
            &&& after.index == e.index
            &&& after.drag is Idle
        }),
{
    let down = e.after(EditEvent::Down(p)).0;
    let n = e.doc.objects.len();
    let o = down.doc.objects[n as int];
    assert(o.a == p && o.b == p);
    assert(o.b.minus(o.a) == Point { x: 0, y: 0 });
    assert(o.b.minus(o.a).shorter_than(annotation::MIN_SIZE)) by {
        let v = Point { x: 0, y: 0 };
        assert(crate::geom::dot(v, v) == 0) by {
            assert(v.x * v.x == 0 && v.y * v.y == 0) by (nonlinear_arith)
                requires
                    v.x == 0,
                    v.y == 0,
            ;
        }
        assert(crate::geom::square(annotation::MIN_SIZE as int) == 9_000_000_000_000);
    }
    assert(o.degenerate());
    assert(down.drops(n as usize));
    assert(down.doc.objects.remove(n as int) =~= e.doc.objects);
}

/// Moves change nothing but the selected annotation.
proof fn lemma_moves(e: EditorView, points: Seq<Point>)
    ensures
        ({
            let end = e.after_moves(points);
            &&& end == (EditorView { doc: end.doc, ..e })
            &&& end.doc.selected == e.doc.selected
            &&& end.doc.objects.len() == e.doc.objects.len()
            &&& forall|k: int|
                0 <= k < e.doc.objects.len() && e.doc.selected != Some(k as usize)
                    ==> end.doc.objects[k] == e.doc.objects[k]
        }),
    decreases points.len(),
{
    if points.len() > 0 {
        lemma_moves(e, points.drop_last());
    }
}

/// A whole drag that draws, moves or resizes an annotation is one step of undo,
/// however often the pointer moved: undo gives back the annotations before the
/// press, redo those after the release, and there is nothing to redo before.
pub proof fn law_a_drag_is_one_step(e: EditorView, start: Point, points: Seq<Point>, end: Point)
    requires
        e.wf(),
        e.doc.objects == e.snapshots[e.index].objects,
        e.after(EditEvent::Down(start)).0.drag !is Idle,
        !e.during_drag(start, points).draws_too_little(),
    ensures
        ({
            let after = e.after_drag(start, points, end);
            &&& after.doc == e.during_drag(start, points).doc
            &&& after.index == e.index + 1
            &&& after.drag is Idle
            &&& !after.can_redo()
            &&& after.after_undo().index == e.index
            &&& after.after_undo().doc.objects == e.doc.objects
            &&& after.after_undo().can_redo()
            &&& after.after_undo().after_redo() == after
        }),
{
    let down = e.after(EditEvent::Down(start)).0;
    lemma_moves(down, points);
    let last = down.after_moves(points);
    assert(last.snapshots == e.snapshots && last.index == e.index);
    assert(e.after_drag(start, points, end) == last.with_drag(Drag::Idle).committed());
}

/// A figure that is drawn too small leaves no trace, however the pointer moved.
pub proof fn law_a_small_drag_draws_nothing(
    e: EditorView,
    start: Point,
    points: Seq<Point>,
    end: Point,
)
    requires
        e.tool !is Select,
        e.tool !is Text,
        e.doc.objects.len() < usize::MAX,
        e.during_drag(start, points).draws_too_little(),
    ensures
        ({
            let after = e.after_drag(start, points, end);
            &&& after.doc.objects == e.doc.objects
            &&& after.doc.selected is None
            &&& after.snapshots == e.snapshots
            &&& after.index == e.index
            &&& after.drag is Idle
        }),
{
    let down = e.after(EditEvent::Down(start)).0;
    let n = e.doc.objects.len();
    lemma_moves(down, points);
    let last = down.after_moves(points);
    assert(last.doc.selected == Some(n as usize));
    assert(last.doc.objects.remove(n as int) =~= e.doc.objects);
}

/// The selection never names an annotation that is not there.
///
/// Ending the input of a text is left out where it drops the text and the last
/// annotation, another one, is selected: the annotations move up, and the
/// selection does not.
pub proof fn law_the_selection_exists(
    e: EditorView,
    event: EditEvent,
    tool: Tool,
    i: usize,
    text: Seq<char>,
    extent: Size,
)
    requires
        e.wf(),
        e.selections_exist(),
        e.doc.objects.len() < usize::MAX,
    ensures
        EditorView::fresh().selections_exist(),
        e.after(event).0.selections_exist(),
        e.with_tool(tool).selections_exist(),
        e.with_text(i as int, text).selections_exist(),
        e.with_extent(i as int, extent).selections_exist(),
        e.after_delete().selections_exist(),
        e.after_undo().selections_exist(),
        e.after_redo().selections_exist(),
        !(e.drops(i) && e.doc.selected != Some(i) && e.doc.selected == Some(
            (e.doc.objects.len() - 1) as usize,
        )) ==> e.after_finish_text(i).selections_exist(),
{
    if let EditEvent::Down(p) = event {
        law_topmost_hit(e.doc.objects, p);
    }
}

/// Moving an annotation keeps its extent.
pub proof fn law_moving_keeps_the_extent(o: AnnotationView, grab: Point, p: Point)
    requires
        o.a.moderate(),
        o.b.moderate(),
        crate::geom::moderate(p.x - grab.x),
        crate::geom::moderate(p.y - grab.y),
        crate::geom::moderate(p.x - grab.x + o.b.x - o.a.x),
        crate::geom::moderate(p.y - grab.y + o.b.y - o.a.y),
    ensures
        ({
            let moved = EditorView::dragged(o, Drag::Moving { grab }, p);
            &&& moved.b.minus(moved.a) == o.b.minus(o.a)
            &&& moved.bounds().size == o.bounds().size
            &&& moved.shape == o.shape
        }),
{
}

/// Where a press grabs a corner, it neither selects nor moves anything else.
pub proof fn law_corners_come_first(e: EditorView, p: Point)
    requires
        e.tool is Select,
        e.has_selection(),
        p.minus(e.doc.objects[e.doc.selected->0 as int].a).within(HANDLE_RADIUS) || p.minus(
            e.doc.objects[e.doc.selected->0 as int].b,
        ).within(HANDLE_RADIUS),
    ensures
        e.after(EditEvent::Down(p)).0.drag is Resizing,
        e.after(EditEvent::Down(p)).0.doc == e.doc,
{
}

/// Taking up a tool clears the selection and keeps the annotations.
pub proof fn law_a_tool_change_clears_the_selection(e: EditorView, tool: Tool)
    ensures
        e.with_tool(tool).doc.selected is None,
        e.with_tool(tool).doc.objects == e.doc.objects,
        e.with_tool(tool).tool == tool,
{
}

/// A figure that is drawn from `a` to `b` with a tool is large enough to be kept:
/// an arrow or a line if its ends are three logical points apart, anything else if
/// it is that wide and that high.
pub open spec fn drawn_large_enough(tool: Tool, a: Point, b: Point) -> bool {
    if tool is Arrow || tool is Line {
        (b.x - a.x) * (b.x - a.x) + (b.y - a.y) * (b.y - a.y) >= 3_000_000 * 3_000_000
    } else {
        annotation::far_apart(a.x as int, b.x as int) && annotation::far_apart(
            a.y as int,
            b.y as int,
        )
    }
}

/// While a figure is drawn, it reaches from the press to the last point.
proof fn lemma_drawing(e: EditorView, start: Point, points: Seq<Point>)
    requires
        e.tool !is Select,
        e.tool !is Text,
        e.doc.objects.len() < usize::MAX,
    ensures
        ({
            let now = e.during_drag(start, points);
            let n = e.doc.objects.len();
            let down = e.after(EditEvent::Down(start)).0;
            &&& now.drag is Creating
            &&& now.doc.selected == Some(n as usize)
            &&& now.doc.objects.len() == n + 1
            &&& now.doc.objects.drop_last() == e.doc.objects
            &&& now.doc.objects[n as int] == (AnnotationView {
                b: if points.len() == 0 {
                    start
                } else {
                    points.last()
                },
                ..down.doc.objects[n as int]
            })
            &&& now == (EditorView { doc: now.doc, drag: now.drag, ..e })
        }),
    decreases points.len(),
{
    let n = e.doc.objects.len();
    if points.len() > 0 {
        lemma_drawing(e, start, points.drop_last());
        let before = e.during_drag(start, points.drop_last());
        let now = e.during_drag(start, points);
        assert(now == before.after(EditEvent::Move(points.last())).0);
        assert(now.doc.objects.drop_last() =~= before.doc.objects.drop_last());
    } else {
        let now = e.during_drag(start, points);
        assert(now.doc.objects.drop_last() =~= e.doc.objects);
    }
}

/// A drag with a drawing tool, from the press to the last point that the pointer
/// moved to, leaves one more annotation with those two ends and the colour and the
/// stroke width of the editor, which is then selected, if it is large enough.
/// Otherwise it leaves the annotations as they were. The others are never changed.
pub proof fn law_a_drag_draws_a_figure(
    e: EditorView,
    start: Point,
    points: Seq<Point>,
    end: Point,
)
    requires
        e.wf(),
        e.tool !is Select,
        e.tool !is Text,
        e.doc.objects.len() < usize::MAX,
        points.len() > 0,
        start.moderate(),
        points.last().moderate(),
    ensures
        ({
            let after = e.after_drag(start, points, end);
            let n = e.doc.objects.len() as int;
            let last = points[points.len() - 1];
            &&& after.drag is Idle
            &&& after.tool == e.tool
            &&& drawn_large_enough(e.tool, start, last) ==> {
                &&& after.doc.objects.len() == n + 1
                &&& forall|k: int|
                    0 <= k < n ==> #[trigger] after.doc.objects[k] == e.doc.objects[k]
                &&& after.doc.objects[n].a == start
                &&& after.doc.objects[n].b == last
                &&& after.doc.objects[n].color == e.color
                &&& after.doc.objects[n].width == e.width
                &&& after.doc.selected == Some(n as usize)
                &&& after.after_undo().doc == e.snapshots[e.index]
            }
            &&& !drawn_large_enough(e.tool, start, last) ==> {
                &&& after.doc.objects == e.doc.objects
                &&& after.doc.selected is None
                &&& after.snapshots == e.snapshots
                &&& after.index == e.index
            }
        }),
{
    lemma_drawing(e, start, points);
    let now = e.during_drag(start, points);
    let n = e.doc.objects.len() as int;
    let o = now.doc.objects[n];
    law_a_tool_draws_its_figure(e, start);
    if e.tool is Arrow || e.tool is Line {
        annotation::law_a_segment_is_dropped_by_its_length(o);
    } else {
        annotation::law_a_box_is_dropped_by_its_sides(o);
    }
    assert(now.doc.objects.remove(n) =~= now.doc.objects.drop_last());
    assert forall|k: int| 0 <= k < n implies #[trigger] now.doc.objects[k] == e.doc.objects[k] by {
        assert(now.doc.objects.drop_last()[k] == now.doc.objects[k]);
    }
}

/// Each drawing tool draws the figure that it is named after.
pub proof fn law_a_tool_draws_its_figure(e: EditorView, p: Point)
    requires
        e.tool !is Select,
        e.tool !is Text,
    ensures
        ({
            let down = e.after(EditEvent::Down(p)).0;
            let shape = down.doc.objects[e.doc.objects.len() as int].shape;
            &&& down.doc.objects.len() == e.doc.objects.len() + 1
            &&& down.drag is Creating
            &&& e.after(EditEvent::Down(p)).1 is Redraw
            &&& shape is Rect <==> e.tool is Rect
            &&& shape is Ellipse <==> e.tool is Ellipse
            &&& shape is Line <==> e.tool is Line
            &&& shape is Arrow <==> e.tool is Arrow
            &&& shape is Highlight <==> e.tool is Highlight
            &&& shape is Redact <==> e.tool is Redact
            &&& shape is Number <==> e.tool is Number
        }),
{
}

/// Marks are numbered from one upwards: a new mark has the number after the
/// largest one, or one where there is none.
pub proof fn law_marks_are_numbered_upwards(objects: Seq<AnnotationView>, k: int)
    requires
        0 <= k < objects.len(),
    ensures
        (forall|i: int| 0 <= i < objects.len() ==> !((#[trigger] objects[i]).shape is Number))
            ==> drawn_shape(Tool::Number, objects) == ShapeView::Number(1),
        (objects[k].shape matches ShapeView::Number(n) && n < u32::MAX && forall|i: int|
            0 <= i < objects.len() ==> ((#[trigger] objects[i]).shape matches ShapeView::Number(
                m,
            ) ==> m <= n)) ==> drawn_shape(Tool::Number, objects) == ShapeView::Number(
            (objects[k].shape->Number_0 + 1) as u32,
        ),
{
    lemma_last_number_is_one_of_them(objects);
    lemma_last_number_is_largest(objects, k);
}

proof fn lemma_last_number_is_one_of_them(objects: Seq<AnnotationView>)
    ensures
        last_number(objects) == 0 || exists|i: int|
            0 <= i < objects.len() && (#[trigger] objects[i]).shape == ShapeView::Number(
                last_number(objects),
            ),
    decreases objects.len(),
{
    if objects.len() > 0 {
        let init = objects.drop_last();
        lemma_last_number_is_one_of_them(init);
        if last_number(objects) != 0 {
            if objects.last().shape == ShapeView::Number(last_number(objects)) {
                assert(objects[objects.len() - 1].shape == ShapeView::Number(last_number(objects)));
            } else {
                let i = choose|i: int|
                    0 <= i < init.len() && (#[trigger] init[i]).shape == ShapeView::Number(
                        last_number(init),
                    );
                assert(objects[i].shape == ShapeView::Number(last_number(objects)));
            }
        }
    }
}

/// A press with the text tool makes an empty text at the pointer, with room for a
/// line, and asks for input to it. Nothing is left to undo before it is finished.
pub proof fn law_the_text_tool_makes_a_text(e: EditorView, p: Point)
    requires
        e.tool is Text,
        p.moderate(),
    ensures
        ({
            let (after, outcome) = e.after(EditEvent::Down(p));
            let n = e.doc.objects.len() as int;
            let o = after.doc.objects[n];
            &&& outcome == EditOutcome::BeginTextInput(n as usize)
            &&& after.doc.objects.len() == n + 1
            &&& forall|k: int| 0 <= k < n ==> #[trigger] after.doc.objects[k] == e.doc.objects[k]
            &&& o.shape matches ShapeView::Text(s) && s.len() == 0
            &&& o.a == p
            &&& o.b.x == p.x + 160_000_000
            &&& o.b.y == p.y + 24_000_000
            &&& o.color == e.color
            &&& o.width == e.width
            &&& after.doc.selected == Some(n as usize)
            &&& after.snapshots == e.snapshots
            &&& after.index == e.index
            &&& after.drag == e.drag
        }),
{
}

/// A text says what was typed and takes the room that it needs, and keeps where it
/// starts and how it looks. No other annotation changes.
pub proof fn law_typing_changes_one_text(
    e: EditorView,
    i: int,
    k: int,
    text: Seq<char>,
    extent: Size,
)
    requires
        0 <= i < e.doc.objects.len(),
        0 <= k < e.doc.objects.len(),
        e.doc.objects[i].shape is Text,
        e.doc.objects[i].a.moderate(),
        crate::geom::moderate(extent.width as int),
        crate::geom::moderate(extent.height as int),
    ensures
        ({
            let after = e.with_text(i, text).with_extent(i, extent);
            let o = e.doc.objects[i];
            let typed = after.doc.objects[i];
            &&& after.doc.objects.len() == e.doc.objects.len()
            &&& k != i ==> after.doc.objects[k] == e.doc.objects[k]
            &&& after.doc.selected == e.doc.selected
            &&& typed.shape matches ShapeView::Text(s) && s == text
            &&& typed.a == o.a
            &&& typed.b.x == o.a.x + extent.width
            &&& typed.b.y == o.a.y + extent.height
            &&& typed.color == o.color
            &&& typed.width == o.width
        }),
{
}

/// A text with a visible character stays when typing ends, and one without goes.
/// Either way the others stay, and it can be undone.
pub proof fn law_finished_texts_stay_if_they_can_be_seen(e: EditorView, i: usize)
    requires
        e.wf(),
        i < e.doc.objects.len(),
        e.doc.objects[i as int].shape is Text,
    ensures
        ({
            let s = e.doc.objects[i as int].shape->Text_0;
            let after = e.after_finish_text(i);
            &&& (exists|k: int| 0 <= k < s.len() && !crate::text::white_space(#[trigger] s[k]))
                ==> after.doc == e.doc
            &&& (forall|k: int| 0 <= k < s.len() ==> crate::text::white_space(#[trigger] s[k]))
                ==> after.doc.objects == e.doc.objects.remove(i as int) && after.doc.selected
                == if e.doc.selected == Some(i) {
                None
            } else {
                e.doc.selected
            }
            &&& after.after_undo().doc == e.snapshots[e.index]
        }),
{
}

/// Deleting takes away the selected annotation and no other, and can be undone.
/// With nothing selected it changes no annotation.
pub proof fn law_deleting_takes_the_selected_annotation(e: EditorView, i: usize, k: int)
    requires
        e.wf(),
        0 <= k < e.doc.objects.len(),
    ensures
        (e.doc.selected == Some(i) && i < e.doc.objects.len()) ==> {
            let after = e.after_delete();
            &&& after.doc.objects.len() == e.doc.objects.len() - 1
            &&& k < i ==> after.doc.objects[k] == e.doc.objects[k]
            &&& k > i ==> after.doc.objects[k - 1] == e.doc.objects[k]
            &&& after.doc.selected is None
            &&& after.after_undo().doc == e.snapshots[e.index]
            &&& after.index == e.index + 1
        },
        e.doc.selected is None ==> {
            &&& e.after_delete().doc.objects == e.doc.objects
            &&& e.after_delete().snapshots == e.snapshots
            &&& e.after_delete().index == e.index
        },
{
}

/// The coordinates are small enough that a few sums of them are exact.
pub open spec fn close_to_origin(p: Point) -> bool {
    &&& -1_000_000_000_000_000_000 <= p.x <= 1_000_000_000_000_000_000
    &&& -1_000_000_000_000_000_000 <= p.y <= 1_000_000_000_000_000_000
}

pub open spec fn all_close_to_origin(points: Seq<Point>) -> bool {
    forall|k: int| 0 <= k < points.len() ==> close_to_origin(#[trigger] points[k])
}

/// A press at `p` is no farther than seven logical points from `corner`.
pub open spec fn grabs(p: Point, corner: Point) -> bool {
    (p.x - corner.x) * (p.x - corner.x) + (p.y - corner.y) * (p.y - corner.y) <= 7_000_000
        * 7_000_000
}

/// A press of the selection tool near an end of the selected annotation grabs that
/// end, the first one if both are near. During the drag the end is where the
/// pointer is, the other end stays, and no other annotation changes.
pub proof fn law_a_grabbed_end_follows_the_pointer(
    e: EditorView,
    i: usize,
    start: Point,
    points: Seq<Point>,
    k: int,
)
    requires
        e.tool is Select,
        e.doc.selected == Some(i),
        i < e.doc.objects.len(),
        0 <= k < e.doc.objects.len(),
        start.moderate(),
        e.doc.objects[i as int].a.moderate(),
        e.doc.objects[i as int].b.moderate(),
        points.len() > 0,
        grabs(start, e.doc.objects[i as int].a) || grabs(start, e.doc.objects[i as int].b),
    ensures
        ({
            let now = e.during_drag(start, points).doc;
            let o = e.doc.objects[i as int];
            let last = points[points.len() - 1];
            &&& now.selected == Some(i)
            &&& now.objects.len() == e.doc.objects.len()
            &&& k != i ==> now.objects[k] == e.doc.objects[k]
            &&& now.objects[i as int] == if grabs(start, o.a) {
                AnnotationView { a: last, ..o }
            } else {
                AnnotationView { b: last, ..o }
            }
        }),
    decreases points.len(),
{
    let o = e.doc.objects[i as int];
    let down = e.after(EditEvent::Down(start)).0;
    assert(down.doc == e.doc && down.drag is Resizing);
    if points.len() > 1 {
        law_a_grabbed_end_follows_the_pointer(e, i, start, points.drop_last(), k);
    } else {
        assert(points.drop_last() =~= Seq::empty());
        assert(e.during_drag(start, points.drop_last()) == down);
    }
    lemma_moves(down, points.drop_last());
}

/// A press of the selection tool on an annotation, away from the ends of the
/// selected one, selects the topmost one there. During the drag both of its ends
/// are as far from where they were as the pointer is from the press, and no other
/// annotation changes.
pub proof fn law_a_grabbed_annotation_follows_the_pointer(
    e: EditorView,
    i: usize,
    start: Point,
    points: Seq<Point>,
    k: int,
)
    requires
        e.tool is Select,
        i < e.doc.objects.len() <= usize::MAX,
        0 <= k < e.doc.objects.len(),
        e.has_selection() ==> !grabs(start, e.doc.objects[e.doc.selected->0 as int].a) && !grabs(
            start,
            e.doc.objects[e.doc.selected->0 as int].b,
        ),
        e.has_selection() ==> e.doc.objects[e.doc.selected->0 as int].a.moderate()
            && e.doc.objects[e.doc.selected->0 as int].b.moderate(),
        e.doc.objects[i as int].hit(start),
        forall|m: int| i < m < e.doc.objects.len() ==> !(#[trigger] e.doc.objects[m]).hit(start),
        close_to_origin(start),
        close_to_origin(e.doc.objects[i as int].a),
        close_to_origin(e.doc.objects[i as int].b),
        all_close_to_origin(points),
    ensures
        ({
            let now = e.during_drag(start, points).doc;
            let o = e.doc.objects[i as int];
            let moved = now.objects[i as int];
            let dx = if points.len() == 0 {
                0
            } else {
                points[points.len() - 1].x - start.x
            };
            let dy = if points.len() == 0 {
                0
            } else {
                points[points.len() - 1].y - start.y
            };
            &&& now.selected == Some(i)
            &&& now.objects.len() == e.doc.objects.len()
            &&& k != i ==> now.objects[k] == e.doc.objects[k]
            &&& moved.a.x == o.a.x + dx
            &&& moved.a.y == o.a.y + dy
            &&& moved.b.x == o.b.x + dx
            &&& moved.b.y == o.b.y + dy
            &&& moved == (AnnotationView { a: moved.a, b: moved.b, ..o })
        }),
    decreases points.len(),
{
    let o = e.doc.objects[i as int];
    let down = e.after(EditEvent::Down(start)).0;
    law_topmost_hit(e.doc.objects, start);
    match topmost_hit(e.doc.objects, start) {
        Some(j) => {
            assert(e.doc.objects[j as int].hit(start));
            assert(i == j);
        },
        None => {},
    }
    assert(down.drag == (Drag::Moving { grab: start.minus(o.a) }));
    assert(down.doc.selected == Some(i) && down.doc.objects == e.doc.objects);
    if points.len() > 0 {
        let init = points.drop_last();
        assert forall|m: int| 0 <= m < init.len() implies close_to_origin(#[trigger] init[m]) by {
            assert(init[m] == points[m]);
        }
        law_a_grabbed_annotation_follows_the_pointer(e, i, start, init, k);
        lemma_moves(down, init);
        assert(close_to_origin(points[points.len() - 1]));
        if init.len() > 0 {
            assert(init[init.len() - 1] == points[points.len() - 2]);
            assert(close_to_origin(points[points.len() - 2]));
        }
    }
}

/// A press of the selection tool on nothing clears the selection and starts no
/// drag.
pub proof fn law_a_press_on_nothing_deselects(e: EditorView, p: Point)
    requires
        e.tool is Select,
        !e.has_selection(),
        e.doc.objects.len() <= usize::MAX,
        forall|m: int| 0 <= m < e.doc.objects.len() ==> !(#[trigger] e.doc.objects[m]).hit(p),
    ensures
        e.after(EditEvent::Down(p)).0.doc.selected is None,
        e.after(EditEvent::Down(p)).0.doc.objects == e.doc.objects,
        e.after(EditEvent::Down(p)).0.drag is Idle,
{
    law_topmost_hit(e.doc.objects, p);
}

/// Without a drag, moves and releases change nothing.
pub proof fn law_nothing_happens_without_a_drag(e: EditorView, p: Point)
    requires
        e.drag is Idle,
    ensures
        e.after(EditEvent::Move(p)) == (e, EditOutcome::Idle),
        e.after(EditEvent::Up(p)) == (e, EditOutcome::Idle),
{
}

/// A new editor has no annotations, nothing to undo and nothing to redo, and draws
/// in red with lines that are three logical points wide.
pub proof fn law_a_new_editor_is_empty()
    ensures
        EditorView::fresh().doc.objects.len() == 0,
        EditorView::fresh().doc.selected is None,
        EditorView::fresh().after_undo() == EditorView::fresh(),
        EditorView::fresh().after_redo() == EditorView::fresh(),
        EditorView::fresh().tool is Select,
        EditorView::fresh().width == 3_000_000,
        EditorView::fresh().color.r == crate::fixed::UNIT,
        EditorView::fresh().color.a == crate::fixed::UNIT,
        EditorView::fresh().color.g < EditorView::fresh().color.r,
        EditorView::fresh().color.b < EditorView::fresh().color.r,
{
}

} // verus!
