//! A vector drawing pad for a toolkit that calls it once per frame and keeps no
//! objects of its own: every frame says what the user does, and is answered
//! with what to draw.

use vstd::prelude::*;

use crate::draw;
use crate::fixed;
use crate::fixed::{larger_of, minus, plus};
use crate::geom;
use crate::geom::{distance_to_segment_at_most, Point, Rect};
use crate::text;
use crate::text::is_blank;

verus! {

/// The size of a corner handle.
pub const HANDLE: i64 = 7_000_000;

/// Half the size of a corner handle.
pub const HANDLE_RADIUS: i64 = 3_500_000;

/// How far from a corner a press grabs it.
pub const GRAB_RADIUS: i64 = 11_200_000;

/// How far from an arrow a press still hits it.
pub const ARROW_TOLERANCE: i64 = 6_000_000;

/// How far around anything else a press still hits it.
pub const BOX_TOLERANCE: i64 = 4_000_000;

/// How far outside of an object the selection box lies.
pub const SELECTION_MARGIN: i64 = 3_000_000;

/// The radius of the corners of a rectangle.
pub const CORNER_RADIUS: i64 = 2_000_000;

/// The size of a new text.
pub const TEXT_WIDTH: i64 = 220_000_000;

pub const TEXT_HEIGHT: i64 = 34_000_000;

/// The line width at the start.
pub const START_WIDTH: i64 = 3_000_000;

#[derive(Debug, Clone, Copy, PartialEq, Eq, Structural)]
pub enum Tool {
    Select,
    Rect,
    Arrow,
    Text,
}

/// A colour, eight bits per channel.
#[derive(Debug, Clone, Copy, PartialEq, Eq, Structural)]
pub struct Ink {
    pub r: u8,
    pub g: u8,
    pub b: u8,
    pub a: u8,
}

#[derive(Debug, PartialEq)]
pub enum Figure {
    Rect,
    Arrow,
    Text(String),
}

/// The contents of a [`Figure`].
pub enum FigureView {
    Rect,
    Arrow,
    Text(Seq<char>),
}

impl View for Figure {
    type V = FigureView;

    open spec fn view(&self) -> FigureView {
        match *self {
            Figure::Rect => FigureView::Rect,
            Figure::Arrow => FigureView::Arrow,
            Figure::Text(s) => FigureView::Text(s@),
        }
    }
}

impl Clone for Figure {
    fn clone(&self) -> (r: Figure)
        ensures
            r == *self,
    {
        match self {
            Figure::Rect => Figure::Rect,
            Figure::Arrow => Figure::Arrow,
            Figure::Text(s) => Figure::Text(s.clone()),
        }
    }
}

/// Something drawn: a figure between two corners, or from a tail to a tip.
#[derive(Debug, PartialEq)]
pub struct Obj {
    pub figure: Figure,
    pub a: Point,
    pub b: Point,
    pub ink: Ink,
    pub width: i64,
}

/// The contents of an [`Obj`].
pub struct ObjView {
    pub figure: FigureView,
    pub a: Point,
    pub b: Point,
    pub ink: Ink,
    pub width: i64,
}

impl View for Obj {
    type V = ObjView;

    open spec fn view(&self) -> ObjView {
        ObjView {
            figure: self.figure@,
            a: self.a,
            b: self.b,
            ink: self.ink,
            width: self.width,
        }
    }
}

impl Clone for Obj {
    fn clone(&self) -> (r: Obj)
        ensures
            r == *self,
    {
        Obj {
            figure: self.figure.clone(),
            a: self.a,
            b: self.b,
            ink: self.ink,
            width: self.width,
        }
    }
}

/// A point lies in a rectangle or at most `d` outside of it, the edges included.
pub open spec fn near_box(r: Rect, d: i64, p: Point) -> bool {
    &&& fixed::clamped(r.origin.x - d) <= p.x <= fixed::clamped(r.max_x() + d)
    &&& fixed::clamped(r.origin.y - d) <= p.y <= fixed::clamped(r.max_y() + d)
}

impl ObjView {
    pub open spec fn bounds(self) -> Rect {
        Rect::from_points(self.a, self.b)
    }

    pub open spec fn hit(self, p: Point) -> bool {
        if self.figure is Arrow {
            geom::near_segment(
                p,
                self.a,
                self.b,
                fixed::larger(self.width as int, ARROW_TOLERANCE as int) as i64,
            )
        } else {
            near_box(self.bounds(), BOX_TOLERANCE, p)
        }
    }
}

impl Obj {
    /// The rectangle around the object.
    pub fn bounds(&self) -> (r: Rect)
        ensures
            r == self@.bounds(),
    {
        Rect::from_points(self.a, self.b)
    }

    /// Whether a press at `p` hits the object. The toolkit does not know.
    pub fn hit(&self, p: Point) -> (r: bool)
        ensures
            r == self@.hit(p),
    {
        if let Figure::Arrow = self.figure {
            return distance_to_segment_at_most(
                p,
                self.a,
                self.b,
                larger_of(self.width, ARROW_TOLERANCE),
            );
        }
        let r: Rect = self.bounds();
        minus(r.origin.x, BOX_TOLERANCE) <= p.x && p.x <= plus(r.max_x(), BOX_TOLERANCE) && minus(
            r.origin.y,
            BOX_TOLERANCE,
        ) <= p.y && p.y <= plus(r.max_y(), BOX_TOLERANCE)
    }
}

/// Everything drawn, and which object is selected.
#[derive(Debug, PartialEq)]
pub struct Doc {
    pub objs: Vec<Obj>,
    pub sel: Option<usize>,
}

/// The contents of a [`Doc`].
pub struct SheetView {
    pub objs: Seq<ObjView>,
    pub sel: Option<usize>,
}

pub open spec fn obj_views(objs: Seq<Obj>) -> Seq<ObjView> {
    objs.map_values(|o: Obj| o@)
}

impl View for Doc {
    type V = SheetView;

    open spec fn view(&self) -> SheetView {
        SheetView { objs: obj_views(self.objs@), sel: self.sel }
    }
}

impl Clone for Doc {
    fn clone(&self) -> (r: Doc)
        ensures
            r@ == self@,
    {
        let mut objs: Vec<Obj> = Vec::new();
        let mut i: usize = 0;
        while i < self.objs.len()
            invariant
                i <= self.objs@.len(),
                objs@ == self.objs@.take(i as int),
            decreases self.objs@.len() - i,
        {
            objs.push(self.objs[i].clone());
            i = i + 1;
            proof {
                assert(objs@ =~= self.objs@.take(i as int));
            }
        }
        proof {
            assert(objs@ =~= self.objs@);
        }
        Doc { objs, sel: self.sel }
    }
}

/// What the pointer is doing.
#[derive(Debug, Clone, Copy, PartialEq, Eq, Structural)]
pub enum Drag {
    Idle,
    Creating,
    Moving { grab: Point },
    /// Moves `a` for corner zero, otherwise `b`.
    Resizing { corner: u8 },
}

/// The undo stack, which holds whole documents.
pub struct History {
    pub stack: Vec<Doc>,
    pub idx: usize,
}

pub open spec fn sheets(stack: Seq<Doc>) -> Seq<SheetView> {
    stack.map_values(|d: Doc| d@)
}

impl History {
    pub open spec fn wf(self) -> bool {
        self.idx < self.stack@.len()
    }

    pub fn new(d: &Doc) -> (r: History)
        ensures
            r.wf(),
            sheets(r.stack@) == seq![d@],
            r.idx == 0,
    {
        let mut stack: Vec<Doc> = Vec::new();
        stack.push(d.clone());
        proof {
            assert(sheets(stack@) =~= seq![d@]);
        }
        History { stack, idx: 0 }
    }

    /// Adds a document after the current one and forgets what came after that.
    pub fn push(&mut self, d: &Doc)
        requires
            old(self).wf(),
        ensures
            final(self).wf(),
            sheets(final(self).stack@) == sheets(old(self).stack@).take(old(self).idx + 1).push(
                d@,
            ),
            final(self).idx == old(self).idx + 1,
    {
        proof {
            assert(self.idx < self.stack.len());
        }
        self.stack.truncate(self.idx + 1);
        self.stack.push(d.clone());
        self.idx = self.stack.len() - 1;
        proof {
            assert(sheets(self.stack@) =~= sheets(old(self).stack@).take(
                old(self).idx + 1,
            ).push(d@));
        }
    }

    pub fn undo(&mut self, d: &mut Doc)
        requires
            old(self).wf(),
        ensures
            final(self).wf(),
            final(self).stack == old(self).stack,
            old(self).idx == 0 ==> final(self).idx == 0 && *final(d) == *old(d),
            old(self).idx > 0 ==> final(self).idx == old(self).idx - 1 && final(d)@ == sheets(
                old(self).stack@,
            )[old(self).idx - 1],
    {
        if self.idx > 0 {
            self.idx = self.idx - 1;
            *d = self.stack[self.idx].clone();
        }
    }

    pub fn redo(&mut self, d: &mut Doc)
        requires
            old(self).wf(),
        ensures
            final(self).wf(),
            final(self).stack == old(self).stack,
            old(self).idx + 1 < old(self).stack@.len() ==> final(self).idx == old(self).idx + 1
                && final(d)@ == sheets(old(self).stack@)[old(self).idx + 1],
            old(self).idx + 1 >= old(self).stack@.len() ==> final(self).idx == old(self).idx
                && *final(d) == *old(d),
    {
        proof {
            assert(self.idx < self.stack.len());
        }
        if self.idx + 1 < self.stack.len() {
            self.idx = self.idx + 1;
            *d = self.stack[self.idx].clone();
        }
    }
}

/// The drawing pad.
pub struct Sketch {
    pub doc: Doc,
    pub hist: History,
    pub tool: Tool,
    pub drag: Drag,
    pub ink: Ink,
    pub width: i64,
    /// The text that is being typed.
    pub editing: Option<usize>,
}

/// The contents of a [`Sketch`].
pub struct SketchView {
    pub doc: SheetView,
    pub stack: Seq<SheetView>,
    pub idx: int,
    pub tool: Tool,
    pub drag: Drag,
    pub ink: Ink,
    pub width: i64,
    pub editing: Option<usize>,
}

impl View for Sketch {
    type V = SketchView;

    open spec fn view(&self) -> SketchView {
        SketchView {
            doc: self.doc@,
            stack: sheets(self.hist.stack@),
            idx: self.hist.idx as int,
            tool: self.tool,
            drag: self.drag,
            ink: self.ink,
            width: self.width,
            editing: self.editing,
        }
    }
}

/// What the user does with the tool row in one frame.
#[derive(Debug, Clone, Copy, PartialEq, Eq, Structural)]
pub struct ToolRow {
    pub tool: Tool,
    pub ink: Ink,
    pub width: i64,
    pub undo: bool,
    pub redo: bool,
    pub delete: bool,
}

/// The keys pressed in one frame.
#[derive(Debug, Clone, Copy, PartialEq, Eq, Structural)]
pub struct Keys {
    pub command: bool,
    pub shift: bool,
    pub z: bool,
    /// Delete or backspace.
    pub delete: bool,
}

/// What the pointer does on the canvas in one frame.
#[derive(Debug, Clone, Copy, PartialEq, Eq, Structural)]
pub struct Canvas {
    pub pointer: Option<Point>,
    pub drag_started: bool,
    pub dragged: bool,
    pub drag_stopped: bool,
    pub clicked: bool,
    pub double_clicked: bool,
}

/// What a text field shows after one frame.
#[derive(Debug, PartialEq)]
pub struct Typed {
    pub text: String,
    pub lost_focus: bool,
}

/// The topmost object that a press at `p` hits: the one drawn last.
pub open spec fn topmost(objs: Seq<ObjView>, p: Point) -> Option<usize>
    decreases objs.len(),
{
    if objs.len() == 0 {
        None
    } else if objs.last().hit(p) {
        Some((objs.len() - 1) as usize)
    } else {
        topmost(objs.drop_last(), p)
    }
}

impl SketchView {
    pub open spec fn wf(self) -> bool {
        0 <= self.idx < self.stack.len()
    }

    pub open spec fn fresh() -> SketchView {
        let doc = SheetView { objs: Seq::empty(), sel: None };
        SketchView {
            doc,
            stack: seq![doc],
            idx: 0,
            tool: Tool::Select,
            drag: Drag::Idle,
            ink: Ink { r: 255, g: 59, b: 48, a: 255 },
            width: START_WIDTH,
            editing: None,
        }
    }

    pub open spec fn pushed(self) -> SketchView {
        SketchView {
            stack: self.stack.take(self.idx + 1).push(self.doc),
            idx: self.idx + 1,
            ..self
        }
    }

    /// The document before the last change; typing ends.
    pub open spec fn undone(self) -> SketchView {
        let ended = SketchView { editing: None, ..self };
        if self.idx > 0 {
            SketchView { idx: self.idx - 1, doc: self.stack[self.idx - 1], ..ended }
        } else {
            ended
        }
    }

    pub open spec fn redone(self) -> SketchView {
        let ended = SketchView { editing: None, ..self };
        if self.idx + 1 < self.stack.len() {
            SketchView { idx: self.idx + 1, doc: self.stack[self.idx + 1], ..ended }
        } else {
            ended
        }
    }

    /// The selected object is one of the document.
    pub open spec fn has_selected(self) -> bool {
        self.doc.sel matches Some(i) && i < self.doc.objs.len()
    }

    pub open spec fn selected(self) -> ObjView {
        self.doc.objs[self.doc.sel->0 as int]
    }

    pub open spec fn deselected(self) -> SketchView {
        SketchView { doc: SheetView { sel: None, ..self.doc }, ..self }
    }

    pub open spec fn without_selected(self) -> SketchView {
        SketchView {
            doc: SheetView {
                objs: self.doc.objs.remove(self.doc.sel->0 as int),
                sel: None,
            },
            ..self
        }
    }

    /// The button of the tool row deletes the selected object.
    pub open spec fn deleted_by_button(self) -> SketchView {
        if self.doc.sel is None {
            self
        } else if self.has_selected() {
            SketchView { editing: None, ..self.without_selected() }.pushed()
        } else {
            SketchView { editing: None, ..self.deselected() }.pushed()
        }
    }

    /// A key deletes the selected object.
    pub open spec fn deleted_by_key(self) -> SketchView {
        if self.has_selected() {
            self.without_selected().pushed()
        } else {
            self.deselected()
        }
    }

    pub open spec fn after_row(self, row: ToolRow) -> SketchView {
        let a = SketchView { tool: row.tool, ink: row.ink, width: row.width, ..self };
        let b = if row.undo {
            a.undone()
        } else {
            a
        };
        let c = if row.redo {
            b.redone()
        } else {
            b
        };
        if row.delete {
            c.deleted_by_button()
        } else {
            c
        }
    }

    /// While a text is typed, the delete key belongs to it.
    pub open spec fn after_keys(self, keys: Keys) -> SketchView {
        let a = if keys.command && keys.z && !keys.shift {
            self.undone()
        } else {
            self
        };
        let b = if keys.command && keys.z && keys.shift {
            a.redone()
        } else {
            a
        };
        if keys.delete && self.editing is None {
            b.deleted_by_key()
        } else {
            b
        }
    }

    pub open spec fn with_new(self, figure: FigureView, a: Point, b: Point) -> SketchView {
        SketchView {
            doc: SheetView {
                objs: self.doc.objs.push(
                    ObjView { figure, a, b, ink: self.ink, width: self.width },
                ),
                sel: Some(self.doc.objs.len() as usize),
            },
            ..self
        }
    }

    /// A drag starts at `p`.
    pub open spec fn drag_started(self, p: Point) -> SketchView {
        match self.tool {
            Tool::Select => if self.has_selected() && p.minus(self.selected().a).within(
                GRAB_RADIUS,
            ) {
                SketchView { drag: Drag::Resizing { corner: 0 }, ..self }
            } else if self.has_selected() && p.minus(self.selected().b).within(GRAB_RADIUS) {
                SketchView { drag: Drag::Resizing { corner: 1 }, ..self }
            } else {
                let hit = topmost(self.doc.objs, p);
                SketchView {
                    doc: SheetView { sel: hit, ..self.doc },
                    editing: None,
                    drag: match hit {
                        Some(i) => Drag::Moving { grab: p.minus(self.doc.objs[i as int].a) },
                        None => Drag::Idle,
                    },
                    ..self
                }
            },
            Tool::Rect => SketchView {
                drag: Drag::Creating,
                ..self.with_new(FigureView::Rect, p, p)
            },
            Tool::Arrow => SketchView {
                drag: Drag::Creating,
                ..self.with_new(FigureView::Arrow, p, p)
            },
            Tool::Text => self,
        }
    }

    pub open spec fn dragged_obj(o: ObjView, drag: Drag, p: Point) -> ObjView {
        match drag {
            Drag::Idle => o,
            Drag::Creating => ObjView { b: p, ..o },
            Drag::Moving { grab } => ObjView {
                a: p.minus(grab),
                b: p.minus(grab).plus(o.b.minus(o.a)),
                ..o
            },
            Drag::Resizing { corner } => if corner == 0 {
                ObjView { a: p, ..o }
            } else {
                ObjView { b: p, ..o }
            },
        }
    }

    /// A drag reaches `p`.
    pub open spec fn dragged(self, p: Point) -> SketchView {
        if self.has_selected() {
            SketchView {
                doc: SheetView {
                    objs: self.doc.objs.update(
                        self.doc.sel->0 as int,
                        SketchView::dragged_obj(self.selected(), self.drag, p),
                    ),
                    ..self.doc
                },
                ..self
            }
        } else {
            self
        }
    }

    pub open spec fn drag_stopped(self) -> SketchView {
        if self.drag == Drag::Idle {
            self
        } else {
            SketchView { drag: Drag::Idle, ..self }.pushed()
        }
    }

    /// A click with the text tool starts a text.
    pub open spec fn text_placed(self, p: Point) -> SketchView {
        SketchView {
            editing: Some(self.doc.objs.len() as usize),
            ..self.with_new(
                FigureView::Text(Seq::empty()),
                p,
                p.plus(Point { x: TEXT_WIDTH, y: TEXT_HEIGHT }),
            )
        }.pushed()
    }

    /// A double click on a text starts typing again.
    pub open spec fn text_reopened(self, p: Point) -> SketchView {
        match topmost(self.doc.objs, p) {
            Some(i) => if self.doc.objs[i as int].figure is Text {
                SketchView {
                    doc: SheetView { sel: Some(i), ..self.doc },
                    editing: Some(i),
                    ..self
                }
            } else {
                self
            },
            None => self,
        }
    }

    pub open spec fn after_canvas(self, canvas: Canvas) -> SketchView {
        let a = match canvas.pointer {
            Some(p) => {
                let s = if canvas.drag_started {
                    self.drag_started(p)
                } else {
                    self
                };
                if canvas.dragged {
                    s.dragged(p)
                } else {
                    s
                }
            },
            None => self,
        };
        let b = if canvas.drag_stopped {
            a.drag_stopped()
        } else {
            a
        };
        match canvas.pointer {
            Some(p) => {
                let c = if canvas.clicked && b.tool == Tool::Text {
                    b.text_placed(p)
                } else {
                    b
                };
                if canvas.double_clicked && c.tool == Tool::Select {
                    c.text_reopened(p)
                } else {
                    c
                }
            },
            None => b,
        }
    }

    /// The text that is being typed is there.
    pub open spec fn is_typing(self) -> bool {
        self.editing matches Some(i) && i < self.doc.objs.len() && self.doc.objs[i as int].figure
            is Text
    }

    pub open spec fn with_text(self, i: int, s: Seq<char>) -> SketchView {
        SketchView {
            doc: SheetView {
                objs: self.doc.objs.update(
                    i,
                    ObjView { figure: FigureView::Text(s), ..self.doc.objs[i] },
                ),
                ..self.doc
            },
            ..self
        }
    }

    pub open spec fn without(self, i: usize) -> SketchView {
        SketchView {
            doc: SheetView {
                objs: self.doc.objs.remove(i as int),
                sel: if self.doc.sel == Some(i) {
                    None
                } else {
                    self.doc.sel
                },
            },
            ..self
        }
    }

    /// A frame of typing. When the field is left, typing ends, and a text without
    /// a visible character is dropped.
    pub open spec fn after_typing(self, text: Seq<char>, lost_focus: bool) -> SketchView {
        if self.editing is None {
            self
        } else if !self.is_typing() {
            SketchView { editing: None, ..self }
        } else {
            let i = self.editing->0;
            let typed = self.with_text(i as int, text);
            if !lost_focus {
                typed
            } else if text::blank(text) {
                SketchView { editing: None, ..typed.without(i) }.pushed()
            } else {
                SketchView { editing: None, ..typed }.pushed()
            }
        }
    }
}

impl Default for Sketch {
    fn default() -> (r: Sketch)
        ensures
            r@ == SketchView::fresh(),
    {
        let doc: Doc = Doc { objs: Vec::new(), sel: None };
        proof {
            assert(doc@.objs =~= Seq::empty());
        }
        Sketch {
            hist: History::new(&doc),
            doc,
            tool: Tool::Select,
            drag: Drag::Idle,
            ink: Ink { r: 255, g: 59, b: 48, a: 255 },
            width: START_WIDTH,
            editing: None,
        }
    }
}

impl Sketch {
    fn undo(&mut self)
        requires
            old(self)@.wf(),
        ensures
            final(self)@.wf(),
            final(self)@ == old(self)@.undone(),
    {
        self.hist.undo(&mut self.doc);
        self.editing = None;
    }

    fn redo(&mut self)
        requires
            old(self)@.wf(),
        ensures
            final(self)@.wf(),
            final(self)@ == old(self)@.redone(),
    {
        self.hist.redo(&mut self.doc);
        self.editing = None;
    }

    fn remove(&mut self, i: usize)
        requires
            i < old(self)@.doc.objs.len(),
        ensures
            final(self)@ == (SketchView {
                doc: SheetView { objs: old(self)@.doc.objs.remove(i as int), ..old(self)@.doc },
                ..old(self)@
            }),
    {
        self.doc.objs.remove(i);
        proof {
            assert(self@.doc.objs =~= old(self)@.doc.objs.remove(i as int));
        }
    }

    /// One frame of the tool row.
    pub fn tool_row(&mut self, row: ToolRow)
        requires
            old(self)@.wf(),
        ensures
            final(self)@.wf(),
            final(self)@ == old(self)@.after_row(row),
    {
        self.tool = row.tool;
        self.ink = row.ink;
        self.width = row.width;
        if row.undo {
            self.undo();
        }
        if row.redo {
            self.redo();
        }
        if row.delete {
            if let Some(i) = self.doc.sel {
                self.doc.sel = None;
                if i < self.doc.objs.len() {
                    self.remove(i);
                }
                self.editing = None;
                self.hist.push(&self.doc);
            }
        }
    }

    /// One frame of the keyboard.
    pub fn keys(&mut self, keys: Keys)
        requires
            old(self)@.wf(),
        ensures
            final(self)@.wf(),
            final(self)@ == old(self)@.after_keys(keys),
    {
        let typing: bool = self.editing.is_some();
        if keys.command && keys.z && !keys.shift {
            self.undo();
        }
        if keys.command && keys.z && keys.shift {
            self.redo();
        }
        if keys.delete && !typing {
            if let Some(i) = self.doc.sel {
                self.doc.sel = None;
                if i < self.doc.objs.len() {
                    self.remove(i);
                    self.hist.push(&self.doc);
                }
            }
        }
    }

    fn topmost(&self, p: Point) -> (r: Option<usize>)
        ensures
            r == topmost(self@.doc.objs, p),
            r matches Some(i) ==> i < self@.doc.objs.len(),
    {
        let ghost objs = self@.doc.objs;
        let mut n: usize = self.doc.objs.len();
        proof {
            assert(objs.take(n as int) =~= objs);
        }
        while n > 0
            invariant
                n <= self.doc.objs@.len(),
                objs == self@.doc.objs,
                topmost(objs, p) == topmost(objs.take(n as int), p),
            decreases n,
        {
            proof {
                assert(objs.take(n as int).drop_last() =~= objs.take(n - 1));
                assert(objs.take(n as int).last() == self.doc.objs@[n - 1]@);
            }
            if self.doc.objs[n - 1].hit(p) {
                return Some(n - 1);
            }
            n = n - 1;
        }
        None
    }

    fn add(&mut self, figure: Figure, a: Point, b: Point) -> (r: usize)
        ensures
            r == old(self)@.doc.objs.len(),
            final(self)@ == old(self)@.with_new(figure@, a, b),
    {
        let i: usize = self.doc.objs.len();
        self.doc.objs.push(Obj { figure, a, b, ink: self.ink, width: self.width });
        self.doc.sel = Some(i);
        proof {
            assert(self@.doc.objs =~= old(self)@.with_new(figure@, a, b).doc.objs);
        }
        i
    }

    /// A drag starts.
    fn start_drag(&mut self, p: Point)
        requires
            old(self)@.wf(),
        ensures
            final(self)@.wf(),
            final(self)@ == old(self)@.drag_started(p),
    {
        match self.tool {
            Tool::Select => {
                if let Some(i) = self.doc.sel {
                    if i < self.doc.objs.len() {
                        proof {
                            assert(self@.selected() == self.doc.objs@[i as int]@);
                        }
                        if p.minus(self.doc.objs[i].a).within(GRAB_RADIUS) {
                            self.drag = Drag::Resizing { corner: 0 };
                            return;
                        }
                        if p.minus(self.doc.objs[i].b).within(GRAB_RADIUS) {
                            self.drag = Drag::Resizing { corner: 1 };
                            return;
                        }
                    }
                }
                let hit: Option<usize> = self.topmost(p);
                self.doc.sel = hit;
                self.editing = None;
                match hit {
                    Some(i) => {
                        proof {
                            assert(self@.doc.objs[i as int] == self.doc.objs@[i as int]@);
                        }
                        self.drag = Drag::Moving { grab: p.minus(self.doc.objs[i].a) };
                    },
                    None => {
                        self.drag = Drag::Idle;
                    },
                }
            },
            Tool::Rect => {
                self.add(Figure::Rect, p, p);
                self.drag = Drag::Creating;
            },
            Tool::Arrow => {
                self.add(Figure::Arrow, p, p);
                self.drag = Drag::Creating;
            },
            Tool::Text => {},
        }
    }

    /// A drag goes on.
    fn drag_to(&mut self, p: Point)
        requires
            old(self)@.wf(),
        ensures
            final(self)@.wf(),
            final(self)@ == old(self)@.dragged(p),
    {
        let i: usize = match self.doc.sel {
            Some(i) => i,
            None => return,
        };
        if i >= self.doc.objs.len() {
            return;
        }
        let ghost before = self@.doc.objs;
        match self.drag {
            Drag::Creating => {
                self.doc.objs[i].b = p;
            },
            Drag::Moving { grab } => {
                let a: Point = self.doc.objs[i].a;
                let d: Point = self.doc.objs[i].b.minus(a);
                let moved: Point = p.minus(grab);
                self.doc.objs[i].a = moved;
                self.doc.objs[i].b = moved.plus(d);
            },
            Drag::Resizing { corner } => {
                if corner == 0 {
                    self.doc.objs[i].a = p;
                } else {
                    self.doc.objs[i].b = p;
                }
            },
            Drag::Idle => {},
        }
        proof {
            assert(self@.doc.objs =~= before.update(
                i as int,
                SketchView::dragged_obj(before[i as int], self.drag, p),
            ));
        }
    }

    /// One frame of the pointer.
    pub fn canvas(&mut self, canvas: Canvas)
        requires
            old(self)@.wf(),
        ensures
            final(self)@.wf(),
            final(self)@ == old(self)@.after_canvas(canvas),
    {
        if canvas.drag_started {
            if let Some(p) = canvas.pointer {
                self.start_drag(p);
            }
        }
        if canvas.dragged {
            if let Some(p) = canvas.pointer {
                self.drag_to(p);
            }
        }
        if canvas.drag_stopped && self.drag != Drag::Idle {
            self.drag = Drag::Idle;
            self.hist.push(&self.doc);
        }
        if canvas.clicked && self.tool == Tool::Text {
            if let Some(p) = canvas.pointer {
                let corner: Point = p.plus(Point { x: TEXT_WIDTH, y: TEXT_HEIGHT });
                let empty: String = String::new();
                proof {
                    assert(empty@ =~= Seq::empty());
                }
                let i: usize = self.add(Figure::Text(empty), p, corner);
                self.editing = Some(i);
                proof {
                    assert(self@.wf());
                }
                self.hist.push(&self.doc);
            }
        }
        if canvas.double_clicked && self.tool == Tool::Select {
            if let Some(p) = canvas.pointer {
                if let Some(i) = self.topmost(p) {
                    proof {
                        assert(self@.doc.objs[i as int] == self.doc.objs@[i as int]@);
                    }
                    if let Figure::Text(_) = self.doc.objs[i].figure {
                        self.doc.sel = Some(i);
                        self.editing = Some(i);
                    }
                }
            }
        }
    }

    /// One frame of typing.
    pub fn typing(&mut self, typed: Typed)
        requires
            old(self)@.wf(),
        ensures
            final(self)@.wf(),
            final(self)@ == old(self)@.after_typing(typed.text@, typed.lost_focus),
    {
        let i: usize = match self.editing {
            Some(i) => i,
            None => return,
        };
        let is_text: bool = if i < self.doc.objs.len() {
            proof {
                assert(self@.doc.objs[i as int] == self.doc.objs@[i as int]@);
            }
            match self.doc.objs[i].figure {
                Figure::Text(_) => true,
                _ => false,
            }
        } else {
            false
        };
        if !is_text {
            self.editing = None;
            return;
        }
        let blank: bool = is_blank(typed.text.as_str());
        let ghost start = self@;
        self.doc.objs[i].figure = Figure::Text(typed.text);
        proof {
            assert(self@.doc.objs =~= start.with_text(i as int, typed.text@).doc.objs);
        }
        if typed.lost_focus {
            if blank {
                self.remove(i);
                if self.doc.sel == Some(i) {
                    self.doc.sel = None;
                }
            }
            self.editing = None;
            self.hist.push(&self.doc);
        }
    }
}

/// One step of drawing.
#[derive(Debug, PartialEq)]
pub enum SketchOp {
    StrokeRect { rect: Rect, radius: i64, width: i64, ink: Ink },
    Line { from: Point, to: Point, width: i64, ink: Ink },
    Triangle { tip: Point, left: Point, right: Point, ink: Ink },
    Text { at: Point, text: String, ink: Ink },
    /// Says that there is a text without characters.
    Placeholder { at: Point },
    FillCircle { at: Point, radius: i64, ink: Ink },
    StrokeCircle { at: Point, radius: i64, width: i64, ink: Ink },
}

/// The contents of a [`SketchOp`].
pub enum OpView {
    StrokeRect { rect: Rect, radius: i64, width: i64, ink: Ink },
    Line { from: Point, to: Point, width: i64, ink: Ink },
    Triangle { tip: Point, left: Point, right: Point, ink: Ink },
    Text { at: Point, text: Seq<char>, ink: Ink },
    Placeholder { at: Point },
    FillCircle { at: Point, radius: i64, ink: Ink },
    StrokeCircle { at: Point, radius: i64, width: i64, ink: Ink },
}

impl View for SketchOp {
    type V = OpView;

    open spec fn view(&self) -> OpView {
        match *self {
            SketchOp::StrokeRect { rect, radius, width, ink } => OpView::StrokeRect {
                rect,
                radius,
                width,
                ink,
            },
            SketchOp::Line { from, to, width, ink } => OpView::Line { from, to, width, ink },
            SketchOp::Triangle { tip, left, right, ink } => OpView::Triangle {
                tip,
                left,
                right,
                ink,
            },
            SketchOp::Text { at, text, ink } => OpView::Text { at, text: text@, ink },
            SketchOp::Placeholder { at } => OpView::Placeholder { at },
            SketchOp::FillCircle { at, radius, ink } => OpView::FillCircle { at, radius, ink },
            SketchOp::StrokeCircle { at, radius, width, ink } => OpView::StrokeCircle {
                at,
                radius,
                width,
                ink,
            },
        }
    }
}

pub open spec fn op_views(ops: Seq<SketchOp>) -> Seq<OpView> {
    ops.map_values(|o: SketchOp| o@)
}

pub open spec fn spec_blue() -> Ink {
    Ink { r: 0, g: 122, b: 255, a: 255 }
}

/// The colour of the selection.
#[verifier::when_used_as_spec(spec_blue)]
pub fn blue() -> (r: Ink)
    ensures
        r == spec_blue(),
{
    Ink { r: 0, g: 122, b: 255, a: 255 }
}

pub open spec fn spec_white() -> Ink {
    Ink { r: 255, g: 255, b: 255, a: 255 }
}

#[verifier::when_used_as_spec(spec_white)]
pub fn white() -> (r: Ink)
    ensures
        r == spec_white(),
{
    Ink { r: 255, g: 255, b: 255, a: 255 }
}

/// How an object is drawn. A text that is being typed is not: its field shows it.
pub open spec fn drawn(o: ObjView, is_edited: bool) -> Seq<OpView> {
    match o.figure {
        FigureView::Rect => seq![
            OpView::StrokeRect {
                rect: o.bounds(),
                radius: CORNER_RADIUS,
                width: o.width,
                ink: o.ink,
            },
        ],
        FigureView::Arrow => {
            let line = OpView::Line { from: o.a, to: o.b, width: o.width, ink: o.ink };
            let d = o.b.minus(o.a);
            if d == (Point { x: 0, y: 0 }) {
                seq![line]
            } else {
                let back = draw::head_length(o.width);
                let half = draw::head_half_width(o.width);
                seq![
                    line,
                    OpView::Triangle {
                        tip: o.b,
                        left: draw::behind(o.b, d, back, half),
                        right: draw::behind(o.b, d, back, (-half) as i64),
                        ink: o.ink,
                    },
                ]
            }
        },
        FigureView::Text(s) => if is_edited {
            Seq::empty()
        } else if s.len() == 0 {
            seq![OpView::Placeholder { at: o.a }]
        } else {
            seq![OpView::Text { at: o.a, text: s, ink: o.ink }]
        },
    }
}

pub open spec fn all_drawn(objs: Seq<ObjView>, editing: Option<usize>) -> Seq<OpView>
    decreases objs.len(),
{
    if objs.len() == 0 {
        Seq::empty()
    } else {
        all_drawn(objs.drop_last(), editing) + drawn(
            objs.last(),
            editing == Some((objs.len() - 1) as usize),
        )
    }
}

/// A handle at a corner.
pub open spec fn handle_ops(at: Point) -> Seq<OpView> {
    seq![
        OpView::FillCircle { at, radius: HANDLE_RADIUS, ink: blue() },
        OpView::StrokeCircle { at, radius: HANDLE_RADIUS, width: fixed::UNIT, ink: white() },
    ]
}

/// The box around an object and the handles at its corners.
pub open spec fn selection_ops(o: ObjView) -> Seq<OpView> {
    seq![
        OpView::StrokeRect {
            rect: draw::insetted(o.bounds(), (-SELECTION_MARGIN) as i64),
            radius: 0,
            width: fixed::UNIT,
            ink: blue(),
        },
    ] + handle_ops(o.a) + handle_ops(o.b)
}

/// A text field to show.
#[derive(Debug, PartialEq)]
pub struct Field {
    pub at: Point,
    pub text: String,
    pub ink: Ink,
}

/// What a frame shows.
pub struct Shown {
    pub ops: Vec<SketchOp>,
    pub field: Option<Field>,
}

impl SketchView {
    pub open spec fn painting(self) -> Seq<OpView> {
        all_drawn(self.doc.objs, self.editing) + if self.has_selected() {
            selection_ops(self.selected())
        } else {
            Seq::empty()
        }
    }

    /// A frame up to typing.
    pub open spec fn after_input(self, row: ToolRow, keys: Keys, canvas: Canvas) -> SketchView {
        self.after_row(row).after_keys(keys).after_canvas(canvas)
    }

    /// A text that is gone is no longer being typed.
    pub open spec fn settled(self) -> SketchView {
        if self.is_typing() {
            self
        } else {
            SketchView { editing: None, ..self }
        }
    }
}

fn put(ops: &mut Vec<SketchOp>, op: SketchOp)
    ensures
        op_views(final(ops)@) == op_views(old(ops)@).push(op@),
{
    ops.push(op);
    proof {
        assert(op_views(ops@) =~= op_views(old(ops)@).push(op@));
    }
}

fn draw_obj(o: &Obj, is_edited: bool, ops: &mut Vec<SketchOp>)
    ensures
        op_views(final(ops)@) == op_views(old(ops)@) + drawn(o@, is_edited),
{
    match &o.figure {
        Figure::Rect => {
            put(
                ops,
                SketchOp::StrokeRect {
                    rect: o.bounds(),
                    radius: CORNER_RADIUS,
                    width: o.width,
                    ink: o.ink,
                },
            );
        },
        Figure::Arrow => {
            put(ops, SketchOp::Line { from: o.a, to: o.b, width: o.width, ink: o.ink });
            if let Some((left, right)) = draw::head_corners(o.a, o.b, o.width) {
                put(ops, SketchOp::Triangle { tip: o.b, left, right, ink: o.ink });
            }
        },
        Figure::Text(s) => {
            if !is_edited {
                if s.as_str().unicode_len() == 0 {
                    put(ops, SketchOp::Placeholder { at: o.a });
                } else {
                    put(ops, SketchOp::Text { at: o.a, text: s.clone(), ink: o.ink });
                }
            }
        },
    }
    proof {
        assert(op_views(ops@) =~= op_views(old(ops)@) + drawn(o@, is_edited));
    }
}

fn draw_handle(at: Point, ops: &mut Vec<SketchOp>)
    ensures
        op_views(final(ops)@) == op_views(old(ops)@) + handle_ops(at),
{
    put(ops, SketchOp::FillCircle { at, radius: HANDLE_RADIUS, ink: blue() });
    put(
        ops,
        SketchOp::StrokeCircle { at, radius: HANDLE_RADIUS, width: fixed::UNIT, ink: white() },
    );
    proof {
        assert(op_views(ops@) =~= op_views(old(ops)@) + handle_ops(at));
    }
}

impl Sketch {
    /// What is drawn.
    pub fn draw(&self) -> (r: Vec<SketchOp>)
        ensures
            op_views(r@) == self@.painting(),
    {
        let ghost objs = self@.doc.objs;
        let mut ops: Vec<SketchOp> = Vec::new();
        let mut i: usize = 0;
        proof {
            assert(op_views(ops@) =~= all_drawn(objs.take(0), self.editing));
        }
        while i < self.doc.objs.len()
            invariant
                i <= self.doc.objs@.len(),
                objs == self@.doc.objs,
                op_views(ops@) == all_drawn(objs.take(i as int), self.editing),
            decreases self.doc.objs@.len() - i,
        {
            let is_edited: bool = match self.editing {
                Some(k) => k == i,
                None => false,
            };
            draw_obj(&self.doc.objs[i], is_edited, &mut ops);
            proof {
                assert(objs.take(i + 1).drop_last() =~= objs.take(i as int));
                assert(objs.take(i + 1).last() == self.doc.objs@[i as int]@);
                assert(self.doc.objs.len() == self.doc.objs@.len());
            }
            i = i + 1;
        }
        proof {
            assert(objs.take(i as int) =~= objs);
        }
        let ghost before = op_views(ops@);
        if let Some(k) = self.doc.sel {
            if k < self.doc.objs.len() {
                let o: &Obj = &self.doc.objs[k];
                proof {
                    assert(self@.selected() == o@);
                }
                put(
                    &mut ops,
                    SketchOp::StrokeRect {
                        rect: draw::inset(o.bounds(), -SELECTION_MARGIN),
                        radius: 0,
                        width: fixed::UNIT,
                        ink: blue(),
                    },
                );
                draw_handle(o.a, &mut ops);
                draw_handle(o.b, &mut ops);
                proof {
                    assert(op_views(ops@) =~= before + selection_ops(o@));
                }
            }
        }
        proof {
            assert(op_views(ops@) =~= self@.painting());
        }
        ops
    }

    /// One frame: what the user does, answered with what to draw and the text
    /// field to show. Where there is a field, [`Sketch::typing`] takes what comes
    /// of it.
    pub fn ui(&mut self, row: ToolRow, keys: Keys, canvas: Canvas) -> (r: Shown)
        requires
            old(self)@.wf(),
        ensures
            final(self)@.wf(),
            final(self)@ == old(self)@.after_input(row, keys, canvas).settled(),
            op_views(r.ops@) == old(self)@.after_input(row, keys, canvas).painting(),
            r.field is Some <==> final(self)@.editing is Some,
            r.field matches Some(f) ==> ({
                let o = final(self)@.doc.objs[final(self)@.editing->0 as int];
                &&& final(self)@.is_typing()
                &&& f.at == o.a
                &&& f.ink == o.ink
                &&& FigureView::Text(f.text@) == o.figure
            }),
    {
        self.tool_row(row);
        self.keys(keys);
        self.canvas(canvas);
        let ops: Vec<SketchOp> = self.draw();
        let mut field: Option<Field> = None;
        if let Some(i) = self.editing {
            if i < self.doc.objs.len() {
                let o: &Obj = &self.doc.objs[i];
                proof {
                    assert(self@.doc.objs[i as int] == o@);
                }
                if let Figure::Text(s) = &o.figure {
                    field = Some(Field { at: o.a, text: s.clone(), ink: o.ink });
                }
            }
        }
        if field.is_none() {
            self.editing = None;
        }
        Shown { ops, field }
    }
}

/// Where fonts with Chinese characters may be found. The toolkit has none of its
/// own.
pub open spec fn font_paths() -> Seq<Seq<char>> {
    seq![
        "/System/Library/Fonts/PingFang.ttc"@,
        "/System/Library/Fonts/STHeiti Light.ttc"@,
        "/System/Library/Fonts/Hiragino Sans GB.ttc"@,
        "C:\\Windows\\Fonts\\msyh.ttc"@,
    ]
}

/// The `i`th place to look for a font.
pub fn font_path(i: usize) -> (r: Option<&'static str>)
    ensures
        r is Some <==> i < font_paths().len(),
        r matches Some(path) ==> path@ == font_paths()[i as int],
{
    match i {
        0 => Some("/System/Library/Fonts/PingFang.ttc"),
        1 => Some("/System/Library/Fonts/STHeiti Light.ttc"),
        2 => Some("/System/Library/Fonts/Hiragino Sans GB.ttc"),
        3 => Some("C:\\Windows\\Fonts\\msyh.ttc"),
        _ => None,
    }
}

/// Undoing a change that was just made gives back what was there before it, and
/// redoing it makes it again.
pub proof fn law_undo_and_redo(before: SketchView, after: SketchView)
    requires
        before.wf(),
        before.stack[before.idx] == before.doc,
        after.stack == before.stack,
        after.idx == before.idx,
    ensures
        after.pushed().undone().doc == before.doc,
        after.pushed().undone().redone().doc == after.doc,
{
}

/// Typing nothing visible leaves no object behind.
pub proof fn law_blank_texts_are_dropped(s: SketchView, text: Seq<char>)
    requires
        s.is_typing(),
        text::blank(text),
    ensures
        s.after_typing(text, true).doc.objs.len() == s.doc.objs.len() - 1,
        s.after_typing(text, true).editing is None,
{
}

/// While a text is typed, the delete key deletes no object.
pub proof fn law_delete_belongs_to_the_text(s: SketchView, keys: Keys)
    requires
        s.editing is Some,
        !keys.z,
    ensures
        s.after_keys(keys) == s,
{
}

/// A rectangle or a text is hit between its edges and up to four points beyond them.
pub proof fn law_a_box_is_hit_around_its_edges(o: ObjView, p: Point)
    requires
        !(o.figure is Arrow),
        o.a.moderate(),
        o.b.moderate(),
    ensures
        o.hit(p) <==> {
            &&& o.a.x - 4_000_000 <= p.x || o.b.x - 4_000_000 <= p.x
            &&& p.x <= o.a.x + 4_000_000 || p.x <= o.b.x + 4_000_000
            &&& o.a.y - 4_000_000 <= p.y || o.b.y - 4_000_000 <= p.y
            &&& p.y <= o.a.y + 4_000_000 || p.y <= o.b.y + 4_000_000
        },
{
}

/// An arrow is hit where some point of it is no farther away than its line width or six
/// points, whichever is more.
pub proof fn law_an_arrow_is_hit_near_its_points(o: ObjView, p: Point, radius: i64)
    requires
        o.figure is Arrow,
        o.a.moderate(),
        o.b.moderate(),
        p.moderate(),
        radius >= 6_000_000,
        radius >= o.width,
        radius == 6_000_000 || radius == o.width,
    ensures
        o.hit(p) <==> exists|part: int, whole: int|
            0 <= part <= whole && whole > 0 && #[trigger] geom::near_division(
                p,
                o.a,
                o.b,
                radius,
                part,
                whole,
            ),
{
    geom::law_near_segment_is_near_a_point(p, o.a, o.b, radius);
}

/// The object that a press finds is hit, and none above it is. Where it finds none, none
/// is hit.
pub proof fn law_the_topmost_object_is_found(objs: Seq<ObjView>, p: Point)
    requires
        objs.len() <= usize::MAX,
    ensures
        match topmost(objs, p) {
            Some(i) => i < objs.len() && objs[i as int].hit(p) && forall|k: int|
                i < k < objs.len() ==> !(#[trigger] objs[k]).hit(p),
            None => forall|k: int| 0 <= k < objs.len() ==> !(#[trigger] objs[k]).hit(p),
        },
    decreases objs.len(),
{
    if objs.len() > 0 && !objs.last().hit(p) {
        let init = objs.drop_last();
        law_the_topmost_object_is_found(init, p);
        assert forall|k: int| 0 <= k < init.len() implies init[k] == #[trigger] objs[k] by {}
        assert forall|k: int| 0 <= k < objs.len() && !objs[k].hit(p) implies k == objs.len() - 1
            || !(#[trigger] init[k]).hit(p) by {
            if k < init.len() {
                assert(init[k] == objs[k]);
            }
        }
    }
}

/// A drag with a drawing tool leaves one more object, of the figure of the tool, from
/// where it started to where it ended, in the ink and with the line width in use. It is
/// selected, and can be undone.
pub proof fn law_a_drag_draws_an_object(s: SketchView, p: Point, q: Point)
    requires
        s.wf(),
        s.tool is Rect || s.tool is Arrow,
        s.doc.objs.len() < usize::MAX,
    ensures
        ({
            let after = s.drag_started(p).dragged(q).drag_stopped();
            let n = s.doc.objs.len() as int;
            let o = after.doc.objs[n];
            &&& after.doc.objs.len() == n + 1
            &&& forall|k: int| 0 <= k < n ==> #[trigger] after.doc.objs[k] == s.doc.objs[k]
            &&& o.figure is Rect <==> s.tool is Rect
            &&& o.figure is Arrow <==> s.tool is Arrow
            &&& o.a == p
            &&& o.b == q
            &&& o.ink == s.ink
            &&& o.width == s.width
            &&& after.doc.sel == Some(n as usize)
            &&& after.drag is Idle
            &&& after.undone().doc == s.stack[s.idx]
        }),
{
}

/// A press at `p` is no farther than eleven points and a fifth from `corner`.
pub open spec fn grabs(p: Point, corner: Point) -> bool {
    (p.x - corner.x) * (p.x - corner.x) + (p.y - corner.y) * (p.y - corner.y) <= 11_200_000
        * 11_200_000
}

/// A drag from near a corner of the selected object moves that corner to where it ends,
/// and nothing else.
pub proof fn law_a_grabbed_corner_follows(s: SketchView, i: usize, p: Point, q: Point, k: int)
    requires
        s.wf(),
        s.tool is Select,
        s.doc.sel == Some(i),
        i < s.doc.objs.len(),
        0 <= k < s.doc.objs.len(),
        p.moderate(),
        s.doc.objs[i as int].a.moderate(),
        s.doc.objs[i as int].b.moderate(),
        grabs(p, s.doc.objs[i as int].a) || grabs(p, s.doc.objs[i as int].b),
    ensures
        ({
            let after = s.drag_started(p).dragged(q).drag_stopped();
            let o = s.doc.objs[i as int];
            &&& after.doc.objs.len() == s.doc.objs.len()
            &&& after.doc.objs[i as int] == if grabs(p, o.a) {
                ObjView { a: q, ..o }
            } else {
                ObjView { b: q, ..o }
            }
            &&& k != i ==> after.doc.objs[k] == s.doc.objs[k]
            &&& after.doc.sel == Some(i)
        }),
{
}

/// A drag from an object, away from the corners of the selected one, selects the topmost
/// object there and moves both of its ends as far as the pointer goes.
pub proof fn law_a_grabbed_object_follows(s: SketchView, i: usize, p: Point, q: Point, k: int)
    requires
        s.wf(),
        s.tool is Select,
        i < s.doc.objs.len() <= usize::MAX,
        0 <= k < s.doc.objs.len(),
        s.has_selected() ==> !grabs(p, s.selected().a) && !grabs(p, s.selected().b),
        s.has_selected() ==> s.selected().a.moderate() && s.selected().b.moderate(),
        s.doc.objs[i as int].hit(p),
        forall|m: int| i < m < s.doc.objs.len() ==> !(#[trigger] s.doc.objs[m]).hit(p),
        crate::editor::close_to_origin(p),
        crate::editor::close_to_origin(q),
        crate::editor::close_to_origin(s.doc.objs[i as int].a),
        crate::editor::close_to_origin(s.doc.objs[i as int].b),
    ensures
        ({
            let after = s.drag_started(p).dragged(q).drag_stopped();
            let o = s.doc.objs[i as int];
            let moved = after.doc.objs[i as int];
            &&& after.doc.objs.len() == s.doc.objs.len()
            &&& k != i ==> after.doc.objs[k] == s.doc.objs[k]
            &&& after.doc.sel == Some(i)
            &&& moved.a.x == o.a.x + q.x - p.x
            &&& moved.a.y == o.a.y + q.y - p.y
            &&& moved.b.x == o.b.x + q.x - p.x
            &&& moved.b.y == o.b.y + q.y - p.y
            &&& moved == (ObjView { a: moved.a, b: moved.b, ..o })
        }),
{
    law_the_topmost_object_is_found(s.doc.objs, p);
    match topmost(s.doc.objs, p) {
        Some(j) => {
            assert(s.doc.objs[j as int].hit(p));
            assert(i == j);
        },
        None => {},
    }
}

/// A click with the text tool makes an empty text at the pointer, which is then typed.
pub proof fn law_a_click_places_a_text(s: SketchView, canvas: Canvas, p: Point)
    requires
        s.wf(),
        s.tool is Text,
        canvas.pointer == Some(p),
        canvas.clicked,
        !canvas.drag_started,
        !canvas.dragged,
        !canvas.drag_stopped,
        p.moderate(),
    ensures
        ({
            let after = s.after_canvas(canvas);
            let n = s.doc.objs.len() as int;
            let o = after.doc.objs[n];
            &&& after.doc.objs.len() == n + 1
            &&& forall|k: int| 0 <= k < n ==> #[trigger] after.doc.objs[k] == s.doc.objs[k]
            &&& o.figure matches FigureView::Text(t) && t.len() == 0
            &&& o.a == p
            &&& o.b.x == p.x + 220_000_000
            &&& o.b.y == p.y + 34_000_000
            &&& o.ink == s.ink
            &&& after.editing == Some(n as usize)
            &&& after.doc.sel == Some(n as usize)
        }),
{
}

/// A text says what is typed. Once its field is left, it stays if it can be seen.
pub proof fn law_a_text_says_what_is_typed(s: SketchView, text: Seq<char>, lost_focus: bool, k: int)
    requires
        s.wf(),
        s.is_typing(),
        0 <= k < s.doc.objs.len(),
        !text::blank(text) || !lost_focus,
    ensures
        ({
            let i = s.editing->0 as int;
            let after = s.after_typing(text, lost_focus);
            &&& after.doc.objs.len() == s.doc.objs.len()
            &&& after.doc.objs[i].figure matches FigureView::Text(t) && t == text
            &&& after.doc.objs[i].a == s.doc.objs[i].a
            &&& after.doc.objs[i].ink == s.doc.objs[i].ink
            &&& k != i ==> after.doc.objs[k] == s.doc.objs[k]
            &&& after.editing is Some <==> !lost_focus
            &&& lost_focus ==> after.idx == s.idx + 1
            &&& !lost_focus ==> after.idx == s.idx
        }),
{
}

/// A double click with the selection tool takes up the topmost object there again, if it
/// is a text.
pub proof fn law_a_double_click_reopens_a_text(s: SketchView, i: usize, p: Point)
    requires
        i < s.doc.objs.len() <= usize::MAX,
        s.doc.objs[i as int].hit(p),
        forall|m: int| i < m < s.doc.objs.len() ==> !(#[trigger] s.doc.objs[m]).hit(p),
    ensures
        s.doc.objs[i as int].figure is Text ==> s.text_reopened(p).editing == Some(i)
            && s.text_reopened(p).doc.sel == Some(i),
        !(s.doc.objs[i as int].figure is Text) ==> s.text_reopened(p) == s,
        s.text_reopened(p).doc.objs == s.doc.objs,
{
    law_the_topmost_object_is_found(s.doc.objs, p);
    match topmost(s.doc.objs, p) {
        Some(j) => {
            assert(s.doc.objs[j as int].hit(p));
            assert(i == j);
        },
        None => {},
    }
}

/// The delete button and the delete key take away the selected object and no other, and
/// it can be undone.
pub proof fn law_deleting_takes_the_selected_object(
    s: SketchView,
    i: usize,
    keys: Keys,
    row: ToolRow,
)
    requires
        s.wf(),
        s.doc.sel == Some(i),
        i < s.doc.objs.len(),
        s.editing is None,
        keys.delete,
        !keys.z,
        row.delete,
        !row.undo,
        !row.redo,
    ensures
        s.after_keys(keys).doc.objs == s.doc.objs.remove(i as int),
        s.after_row(row).doc.objs == s.doc.objs.remove(i as int),
        s.after_keys(keys).doc.sel is None,
        s.after_row(row).doc.sel is None,
        s.after_keys(keys).undone().doc == s.stack[s.idx],
        s.after_row(row).undone().doc == s.stack[s.idx],
{
}

/// The tool row sets the tool, the ink and the line width. Its buttons, and the z key
/// with command, undo and redo; with shift the key redoes.
pub proof fn law_undo_and_redo_have_buttons_and_keys(s: SketchView, row: ToolRow, keys: Keys)
    requires
        !row.delete,
        !keys.delete,
        keys.command,
        keys.z,
    ensures
        s.after_row(row).tool == row.tool,
        s.after_row(row).ink == row.ink,
        s.after_row(row).width == row.width,
        row.undo && !row.redo ==> s.after_row(row).doc == s.undone().doc,
        row.redo && !row.undo ==> s.after_row(row).doc == s.redone().doc,
        !row.redo && !row.undo ==> s.after_row(row).doc == s.doc,
        keys.shift ==> s.after_keys(keys) == s.redone(),
        !keys.shift ==> s.after_keys(keys) == s.undone(),
{
}

/// Undo and redo step through the changes and end typing. At either end they do nothing
/// else.
pub proof fn law_undo_and_redo_step_through_the_changes(s: SketchView)
    requires
        s.wf(),
    ensures
        s.idx > 0 ==> s.undone().doc == s.stack[s.idx - 1] && s.undone().idx == s.idx - 1,
        s.idx == 0 ==> s.undone().doc == s.doc && s.undone().idx == 0,
        s.idx + 1 < s.stack.len() ==> s.redone().doc == s.stack[s.idx + 1] && s.redone().idx
            == s.idx + 1,
        s.idx + 1 == s.stack.len() ==> s.redone().doc == s.doc && s.redone().idx == s.idx,
        s.undone().editing is None,
        s.redone().editing is None,
        s.undone().stack == s.stack,
        s.redone().stack == s.stack,
{
}

/// Each object is drawn as it is: in its ink, between its ends, a text with its
/// characters. A text that is being typed is left to its field, and one without
/// characters is shown as such.
pub proof fn law_objects_are_drawn_as_they_are(o: ObjView, is_edited: bool)
    requires
        o.a.moderate(),
        o.b.moderate(),
    ensures
        o.figure is Rect ==> (drawn(o, is_edited).len() == 1 && (drawn(o, is_edited)[0] matches
            OpView::StrokeRect { rect, width, ink, .. } && crate::pin::has_corners(rect, o.a, o.b)
            && width == o.width && ink == o.ink)),
        o.figure is Arrow ==> ({
            let ops = drawn(o, is_edited);
            &&& ops[0] == (OpView::Line { from: o.a, to: o.b, width: o.width, ink: o.ink })
            &&& o.a == o.b ==> ops.len() == 1
            &&& o.a != o.b ==> ops.len() == 2 && (ops[1] matches OpView::Triangle {
                tip,
                left,
                right,
                ink,
            } && tip == o.b && ink == o.ink && (0 <= o.width <= 1_000_000_000_000_000_000 ==> left
                == draw::behind(
                o.b,
                o.b.minus(o.a),
                (8_000_000 + 2 * o.width) as i64,
                (4_000_000 + o.width) as i64,
            ) && right == draw::behind(
                o.b,
                o.b.minus(o.a),
                (8_000_000 + 2 * o.width) as i64,
                (-4_000_000 - o.width) as i64,
            )))
        }),
        o.figure matches FigureView::Text(t) ==> ({
            let ops = drawn(o, is_edited);
            &&& is_edited ==> ops.len() == 0
            &&& !is_edited && t.len() == 0 ==> ops == seq![OpView::Placeholder { at: o.a }]
            &&& !is_edited && t.len() > 0 ==> ops.len() == 1 && (ops[0] matches OpView::Text {
                at,
                text,
                ink,
            } && at == o.a && text == t && ink == o.ink)
        }),
{
}

/// The objects are drawn one above the other, in order, and after them a box and two
/// handles for the selected one.
pub proof fn law_objects_are_drawn_in_order(s: SketchView, objs: Seq<ObjView>, o: ObjView)
    ensures
        all_drawn(Seq::empty(), s.editing).len() == 0,
        all_drawn(objs.push(o), s.editing) == all_drawn(objs, s.editing) + drawn(
            o,
            s.editing == Some(objs.len() as usize),
        ),
        !s.has_selected() ==> s.painting() == all_drawn(s.doc.objs, s.editing),
        s.has_selected() ==> s.painting() == all_drawn(s.doc.objs, s.editing) + selection_ops(
            s.selected(),
        ),
{
    assert(objs.push(o).drop_last() =~= objs);
}

/// The box lies three points outside of the object, and the handles at its two ends.
pub proof fn law_the_selection_has_two_handles(o: ObjView)
    requires
        o.a.moderate(),
        o.b.moderate(),
        o.bounds().size.width <= geom::COORDINATE_LIMIT,
        o.bounds().size.height <= geom::COORDINATE_LIMIT,
    ensures
        ({
            let ops = selection_ops(o);
            &&& ops.len() == 5
            &&& (ops[0] matches OpView::StrokeRect { rect, .. } && rect.origin.x + 3_000_000
                == o.bounds().origin.x && rect.origin.y + 3_000_000 == o.bounds().origin.y
                && rect.size.width == o.bounds().size.width + 6_000_000 && rect.size.height
                == o.bounds().size.height + 6_000_000)
            &&& (ops[1] matches OpView::FillCircle { at, radius, .. } && at == o.a && radius
                == 3_500_000)
            &&& (ops[2] matches OpView::StrokeCircle { at, radius, .. } && at == o.a && radius
                == 3_500_000)
            &&& (ops[3] matches OpView::FillCircle { at, radius, .. } && at == o.b && radius
                == 3_500_000)
            &&& (ops[4] matches OpView::StrokeCircle { at, radius, .. } && at == o.b && radius
                == 3_500_000)
        }),
{
}

/// A frame does what the pointer does in it: it starts, continues and ends a drag where
/// the pointer is, and takes a text up again on a double click, with the selection tool
/// only.
pub proof fn law_a_frame_follows_the_pointer(s: SketchView, canvas: Canvas, p: Point)
    requires
        canvas.pointer == Some(p),
        !(canvas.clicked && s.tool is Text),
    ensures
        !canvas.double_clicked && canvas.drag_started && !canvas.dragged && !canvas.drag_stopped
            ==> s.after_canvas(canvas) == s.drag_started(p),
        !canvas.double_clicked && !canvas.drag_started && canvas.dragged && !canvas.drag_stopped
            ==> s.after_canvas(canvas) == s.dragged(p),
        !canvas.double_clicked && !canvas.drag_started && canvas.dragged && canvas.drag_stopped
            ==> s.after_canvas(canvas) == s.dragged(p).drag_stopped(),
        canvas.double_clicked && !canvas.drag_started && !canvas.dragged && !canvas.drag_stopped
            ==> s.after_canvas(canvas) == if s.tool is Select {
            s.text_reopened(p)
        } else {
            s
        },
        !canvas.double_clicked && !canvas.drag_started && !canvas.dragged && !canvas.drag_stopped
            ==> s.after_canvas(canvas) == s,
{
}

/// Without a pointer on the canvas a frame can only end a drag.
pub proof fn law_a_frame_without_a_pointer(s: SketchView, canvas: Canvas)
    requires
        canvas.pointer is None,
    ensures
        s.after_canvas(canvas) == if canvas.drag_stopped {
            s.drag_stopped()
        } else {
            s
        },
        s.drag_stopped().doc == s.doc,
        s.drag is Idle ==> s.drag_stopped() == s,
        !(s.drag is Idle) ==> s.drag_stopped().idx == s.idx + 1 && s.drag_stopped().drag is Idle,
{
}

/// A frame takes in the tool row first, the keys after it and the canvas last.
pub proof fn law_a_frame_without_input_changes_nothing(
    s: SketchView,
    row: ToolRow,
    keys: Keys,
    canvas: Canvas,
)
    requires
        row.tool == s.tool,
        row.ink == s.ink,
        row.width == s.width,
        !row.undo,
        !row.redo,
        !row.delete,
        !keys.z,
        !keys.delete,
        canvas.pointer is None,
        !canvas.drag_stopped,
    ensures
        s.after_input(row, keys, canvas) == s,
        s.is_typing() ==> s.settled() == s,
        !s.is_typing() ==> s.settled() == (SketchView { editing: None, ..s }),
{
}

/// A new drawing pad is empty, draws opaque lines of three points, and has nothing to undo
/// or redo.
pub proof fn law_a_new_pad_is_empty()
    ensures
        SketchView::fresh().wf(),
        SketchView::fresh().doc.objs.len() == 0,
        SketchView::fresh().doc.sel is None,
        SketchView::fresh().undone() == SketchView::fresh(),
        SketchView::fresh().redone() == SketchView::fresh(),
        SketchView::fresh().tool is Select,
        SketchView::fresh().width == 3_000_000,
        SketchView::fresh().ink.a == 255,
{
}

} // verus!
