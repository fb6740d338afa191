//! A pinned image: its window, its pixels and its annotations.
//!
//! The windowing code queues pointer events and key presses here. The pin
//! works through the queues and asks for effects.

use vstd::prelude::*;

use crate::annotation;
use crate::annotation::{Annotation, AnnotationView, Color, Drag, Shape, ShapeView, Tool};
use crate::bitmap::{flatten_annotations, Flattening};
use crate::bitmap;
use crate::draw;
use crate::draw::{CommandView, DrawCommand, Rgba};
use crate::editor::{AnnotationEditor, EditEvent, EditOutcome, EditorView};
use crate::effect;
use crate::effect::{ask_overlays, Effect, EffectView};
use crate::encode;
use crate::fixed::UNIT;
use crate::geom::{Point, Rect};
use crate::image;
use crate::image::{CapturedImage, ImageView, PinImage};
use crate::input::{HandlerId, KeyPress, PointerEvent, TextInput, TextInputView};
use crate::overlay;
use crate::overlay::{OverlayAction, OverlaySet, OverlayWindow};
use crate::pin_view::{FieldFacts, PinViewState};
use crate::pin_window::{PinWindow, WindowState};
use crate::platform::{Error, Os};
use crate::screen::ScreenId;
use crate::toolbar;
use crate::toolbar::{ToolbarItem, ToolbarState};
use crate::tools;
use crate::tools::{items_for, tool_from_id, tool_from_key};

verus! {

/// The font size of texts, without zoom. The text field uses it too, so that a
/// text does not jump when typing ends.
pub const TEXT_FONT_SIZE: i64 = 18_000_000;

/// What a pin leaves to its owner: it concerns the list of pins or files.
#[derive(Debug, Clone, Copy, PartialEq, Eq, Structural)]
pub enum PinAction {
    /// The image stays on the screen.
    Keep,
    /// Asks for a place to save it.
    SaveAs,
    /// Saves it without asking.
    QuickSave,
    Copy,
    Close,
}

/// A pinned image.
pub struct Pin {
    pub window: PinWindow,
    pub image: CapturedImage,
    pub editor: AnnotationEditor,
    /// A button of the toolbar that was clicked.
    pub pending_tool: Option<u32>,
    /// The text that is being typed.
    pub editing_text: Option<usize>,
    /// What it said when it was last looked at.
    pub editing_last: String,
    /// The image has just been captured, and the user has not decided yet what
    /// becomes of it.
    pub staging: bool,
    /// The overlays that still darken the displays while staging.
    pub overlays: Option<OverlaySet>,
    /// The user has cancelled on an overlay.
    pub staging_cancel: bool,
    /// The user has touched an overlay, which then lies above the image.
    pub staging_touch: bool,
    pub keys: Vec<KeyPress>,
    pub events: Vec<PointerEvent>,
}

/// The contents of a [`Pin`].
pub struct PinState {
    pub window: WindowState,
    pub image: ImageView,
    pub editor: EditorView,
    pub pending_tool: Option<u32>,
    pub editing_text: Option<usize>,
    pub editing_last: Seq<char>,
    pub staging: bool,
    pub overlays: Option<Seq<OverlayWindow>>,
    pub staging_cancel: bool,
    pub staging_touch: bool,
    pub keys: Seq<KeyPress>,
    pub events: Seq<PointerEvent>,
}

impl View for Pin {
    type V = PinState;

    open spec fn view(&self) -> PinState {
        PinState {
            window: self.window@,
            image: self.image@,
            editor: self.editor@,
            pending_tool: self.pending_tool,
            editing_text: self.editing_text,
            editing_last: self.editing_last@,
            staging: self.staging,
            overlays: match self.overlays {
                Some(o) => Some(o@),
                None => None,
            },
            staging_cancel: self.staging_cancel,
            staging_touch: self.staging_touch,
            keys: self.keys@,
            events: self.events@,
        }
    }
}

pub open spec fn rgba(c: Color) -> Rgba {
    Rgba { r: c.r, g: c.g, b: c.b, a: c.a }
}

/// How an annotation is drawn.
pub open spec fn command_of(o: AnnotationView) -> CommandView {
    let color = rgba(o.color);
    match o.shape {
        ShapeView::Rect => CommandView::Rect { rect: o.bounds(), color, width: o.width },
        ShapeView::Ellipse => CommandView::Ellipse { rect: o.bounds(), color, width: o.width },
        ShapeView::Line => CommandView::Line { from: o.a, to: o.b, color, width: o.width },
        ShapeView::Arrow => CommandView::Arrow { from: o.a, to: o.b, color, width: o.width },
        ShapeView::Highlight => CommandView::Highlight { rect: o.bounds() },
        ShapeView::Redact => CommandView::Redact { rect: o.bounds() },
        ShapeView::Number(n) => CommandView::Number { rect: o.bounds(), value: n, color },
        ShapeView::Text(t) => CommandView::Text {
            origin: o.a,
            text: t,
            color,
            size: TEXT_FONT_SIZE,
        },
    }
}

/// How annotations are drawn, one of them possibly left out.
pub open spec fn listed(objects: Seq<AnnotationView>, skipped: Option<usize>) -> Seq<CommandView>
    decreases objects.len(),
{
    if objects.len() == 0 {
        Seq::empty()
    } else {
        let rest = listed(objects.drop_last(), skipped);
        if skipped == Some((objects.len() - 1) as usize) {
            rest
        } else {
            rest.push(command_of(objects.last()))
        }
    }
}

impl PinState {
    pub open spec fn wf(self) -> bool {
        &&& self.window.wf()
        &&& self.editor.wf()
        &&& self.image.wf()
        &&& self.image.scale != 0
    }

    /// The annotation that is left out of the drawing.
    pub open spec fn skipped(self, skip_editing: bool) -> Option<usize> {
        if skip_editing {
            self.editing_text
        } else {
            None
        }
    }

    /// The box around the selected annotation, unless that is left out.
    pub open spec fn selection_commands(self, skip_editing: bool) -> Seq<CommandView> {
        if self.editor.has_selection() && self.editor.doc.selected != self.skipped(skip_editing) {
            seq![
                CommandView::SelectionBox {
                    rect: self.editor.doc.objects[self.editor.doc.selected->0 as int].bounds(),
                },
            ]
        } else {
            Seq::empty()
        }
    }

    /// How the annotations are drawn.
    pub open spec fn commands(self, include_selection: bool, skip_editing: bool) -> Seq<
        CommandView,
    > {
        listed(self.editor.doc.objects, self.skipped(skip_editing)) + if include_selection {
            self.selection_commands(skip_editing)
        } else {
            Seq::empty()
        }
    }

    pub open spec fn draw_commands(self) -> Seq<CommandView> {
        self.commands(true, true)
    }

    pub open spec fn export_commands(self) -> Seq<CommandView> {
        self.commands(false, false)
    }
}

/// A pin and the effects asked for so far.
pub struct Run {
    pub pin: PinState,
    pub fx: Seq<EffectView>,
}

pub open spec fn run(pin: PinState, fx: Seq<Effect>) -> Run {
    Run { pin, fx: effect::log(fx) }
}

impl Run {
    /// What is drawn is up to date, and so is the toolbar, if there is one.
    pub open spec fn refreshed(self) -> Run {
        let window = self.pin.window.with_commands(self.pin.draw_commands());
        if window.annotating() {
            let items = tools::buttons(self.pin.editor.tool);
            Run {
                pin: PinState { window: window.with_toolbar(items), ..self.pin },
                fx: self.fx + window.toolbar_effects(items),
            }
        } else {
            Run { pin: PinState { window, ..self.pin }, ..self }
        }
    }

    /// Annotation `i` is being typed, if it is a text.
    pub open spec fn begin_text(self, i: usize) -> Run {
        if self.pin.editor.is_text(i as int) {
            let o = self.pin.editor.doc.objects[i as int];
            let text = o.shape->Text_0;
            Run {
                pin: PinState {
                    window: self.pin.window.with_text_input(o.bounds(), TEXT_FONT_SIZE),
                    editing_text: Some(i),
                    editing_last: text,
                    ..self.pin
                },
                fx: self.fx + self.pin.window.text_input_effects(
                    o.bounds(),
                    text,
                    TEXT_FONT_SIZE,
                    rgba(o.color),
                ),
            }
        } else {
            self
        }
    }

    /// A look at the text field.
    pub open spec fn polled(self, facts: Option<&FieldFacts>) -> Run {
        Run {
            pin: PinState { window: self.pin.window.after_poll(facts), ..self.pin },
            fx: self.fx + self.pin.window.poll_effects(facts),
        }
    }

    /// Annotation `i` says what was typed and takes the room that it needs.
    pub open spec fn with_input(self, i: usize, input: TextInputView) -> Run {
        Run {
            pin: PinState {
                editor: self.pin.editor.with_text(i as int, input.text).with_extent(
                    i as int,
                    input.extent,
                ),
                ..self.pin
            },
            ..self
        }
    }

    /// The text field is gone.
    pub open spec fn field_closed(self) -> Run {
        Run {
            pin: PinState { window: self.pin.window.after_end_text(), ..self.pin },
            fx: self.fx + self.pin.window.end_text_effects(),
        }
    }

    /// Text `i` is no longer being typed.
    pub open spec fn text_finished(self, i: usize) -> Run {
        Run {
            pin: PinState {
                editor: self.pin.editor.after_finish_text(i),
                editing_text: None,
                editing_last: Seq::empty(),
                ..self.pin
            },
            ..self
        }
    }

    /// Typing ends at once, and what was typed is kept.
    pub open spec fn end_text(self, facts: Option<&FieldFacts>) -> Run {
        match self.pin.editing_text {
            None => self,
            Some(i) => {
                let looked = self.polled(facts);
                let taken = match self.pin.window.polled(facts) {
                    Some(input) => looked.with_input(i, input),
                    None => looked,
                };
                taken.field_closed().text_finished(i)
            },
        }
    }

    /// Annotation mode is on or off, and the toolbar with it.
    pub open spec fn set_annotation_mode(self, on: bool, facts: Option<&FieldFacts>) -> Run {
        let start = if on {
            self
        } else {
            self.end_text(facts)
        };
        let window = start.pin.window.with_annotation_mode(on);
        let items = if on {
            tools::buttons(start.pin.editor.tool)
        } else {
            Seq::empty()
        };
        Run {
            pin: PinState { window: window.with_toolbar(items), ..start.pin },
            fx: start.fx + start.pin.window.annotation_mode_effects(on) + window.toolbar_effects(
                items,
            ),
        }
    }

    /// The overlays are gone.
    pub open spec fn overlays_closed(self) -> Run {
        match self.pin.overlays {
            None => self,
            Some(o) => Run {
                pin: PinState { overlays: None, ..self.pin },
                fx: self.fx + effect::overlay_effects(
                    overlay::to_all(o, OverlayAction::Close),
                ),
            },
        }
    }

    /// The image stays on the screen.
    pub open spec fn kept(self, facts: Option<&FieldFacts>) -> Run {
        let closed = self.overlays_closed();
        Run { pin: PinState { staging: false, ..closed.pin }, ..closed }.set_annotation_mode(
            false,
            facts,
        )
    }

    pub open spec fn with_editor(self, editor: EditorView) -> Run {
        Run { pin: PinState { editor, ..self.pin }, ..self }
    }

    /// A pointer event reaches the editor, and whether anything has to be drawn
    /// again. The right button deletes.
    pub open spec fn pointer(self, event: PointerEvent) -> (Run, bool) {
        match event {
            PointerEvent::Down(p) => {
                let (editor, outcome) = self.pin.editor.after(EditEvent::Down(p));
                let next = self.with_editor(editor);
                // Where the selection tool grabs nothing, the drag is meant for
                // the window.
                let drag = editor.tool == Tool::Select && editor.drag == Drag::Idle;
                Run {
                    pin: PinState {
                        window: next.pin.window.with_window_drag(drag),
                        ..next.pin
                    },
                    ..next
                }.outcome(outcome)
            },
            PointerEvent::Moved(p) => {
                let (editor, outcome) = self.pin.editor.after(EditEvent::Move(p));
                self.with_editor(editor).outcome(outcome)
            },
            PointerEvent::Up(p) => {
                let (editor, outcome) = self.pin.editor.after(EditEvent::Up(p));
                self.with_editor(editor).outcome(outcome)
            },
            PointerEvent::Cancel => (
                self.with_editor(self.pin.editor.after_delete()),
                self.pin.editor.has_selection(),
            ),
        }
    }

    /// What the editor's answer leads to.
    pub open spec fn outcome(self, outcome: EditOutcome) -> (Run, bool) {
        match outcome {
            EditOutcome::Idle => (self, false),
            EditOutcome::Redraw => (self, true),
            EditOutcome::BeginTextInput(i) => (self.begin_text(i), true),
        }
    }

    /// Pointer events, one after the other.
    pub open spec fn pointers(self, events: Seq<PointerEvent>) -> (Run, bool)
        decreases events.len(),
    {
        if events.len() == 0 {
            (self, false)
        } else {
            let (before, dirty) = self.pointers(events.drop_last());
            let (after, more) = before.pointer(events.last());
            (after, dirty || more)
        }
    }

    /// What has been typed is taken over, and whether anything has to be drawn
    /// again.
    pub open spec fn pump_text(self, facts: Option<&FieldFacts>) -> (Run, bool) {
        match self.pin.editing_text {
            None => (self, false),
            Some(i) => {
                let looked = self.polled(facts);
                match self.pin.window.polled(facts) {
                    // The field has been closed by the window, so the text is
                    // finished.
                    None => (looked.text_finished(i), true),
                    Some(input) => if !input.finished && input.text == self.pin.editing_last {
                        (looked, false)
                    } else {
                        let noted = Run {
                            pin: PinState { editing_last: input.text, ..looked.pin },
                            ..looked
                        }.with_input(i, input);
                        if input.finished {
                            (noted.field_closed().text_finished(i), true)
                        } else {
                            (noted, true)
                        }
                    },
                }
            },
        }
    }
}

/// What working through the keys has come to.
pub struct KeyRun {
    pub run: Run,
    /// Something has to be drawn again.
    pub dirty: bool,
    pub actions: Seq<PinAction>,
}

impl KeyRun {
    pub open spec fn with_actions(self, actions: Seq<PinAction>) -> KeyRun {
        KeyRun { actions: self.actions + actions, ..self }
    }

    pub open spec fn redrawn(self, run: Run) -> KeyRun {
        KeyRun { run, dirty: true, ..self }
    }

    /// A key is pressed.
    pub open spec fn press(self, key: KeyPress, facts: Option<&FieldFacts>) -> KeyRun {
        let annotating = self.run.pin.window.annotating();
        let staging = self.run.pin.staging;
        match key {
            KeyPress::Plain(c) => if c == ' ' {
                // Space shows and closes the toolbar.
                self.redrawn(self.run.set_annotation_mode(!annotating, facts))
            } else {
                match tools::with_key(c) {
                    None => self,
                    Some(tool) => {
                        let on = if annotating {
                            self.run
                        } else {
                            self.run.set_annotation_mode(true, facts)
                        };
                        self.redrawn(on.with_editor(on.pin.editor.with_tool(tool)))
                    },
                }
            },
            KeyPress::Command(c) => if c == 'z' {
                // Undoing replaces the annotations, so typing ends first.
                let ended = self.run.end_text(facts);
                KeyRun {
                    run: ended.with_editor(ended.pin.editor.after_undo()),
                    dirty: self.dirty || ended.pin.editor.index > 0,
                    ..self
                }
            } else if c == 'c' {
                // First the copy. While staging, copying is the end of it.
                if staging {
                    self.with_actions(seq![PinAction::Copy, PinAction::Close])
                } else {
                    self.with_actions(seq![PinAction::Copy])
                }
            } else if c == 's' {
                self.with_actions(seq![PinAction::SaveAs])
            } else {
                self
            },
            KeyPress::CommandShift(c) => if c == 's' {
                self.with_actions(seq![PinAction::QuickSave])
            } else {
                self
            },
            KeyPress::Enter { shift } => if !staging {
                self
            } else if shift {
                self.with_actions(seq![PinAction::Keep])
            } else {
                self.with_actions(seq![PinAction::Copy, PinAction::Close])
            },
            KeyPress::Escape => if staging || !annotating {
                self.with_actions(seq![PinAction::Close])
            } else {
                self.redrawn(self.run.set_annotation_mode(false, facts))
            },
        }
    }

    /// Keys are pressed, one after the other.
    pub open spec fn presses(self, keys: Seq<KeyPress>, facts: Option<&FieldFacts>) -> KeyRun
        decreases keys.len(),
    {
        if keys.len() == 0 {
            self
        } else {
            self.presses(keys.drop_last(), facts).press(keys.last(), facts)
        }
    }
}

fn to_rgba(c: Color) -> (r: Rgba)
    ensures
        r == rgba(c),
{
    Rgba::new(c.r, c.g, c.b, c.a)
}

/// How an annotation is drawn.
fn command_for(o: &Annotation) -> (r: DrawCommand)
    ensures
        r@ == command_of(o@),
{
    let color: Rgba = to_rgba(o.color);
    match &o.shape {
        Shape::Rect => DrawCommand::Rect { rect: o.bounds(), color, width: o.width },
        Shape::Ellipse => DrawCommand::Ellipse { rect: o.bounds(), color, width: o.width },
        Shape::Line => DrawCommand::Line { from: o.a, to: o.b, color, width: o.width },
        Shape::Arrow => DrawCommand::Arrow { from: o.a, to: o.b, color, width: o.width },
        Shape::Highlight => DrawCommand::Highlight { rect: o.bounds() },
        Shape::Redact => DrawCommand::Redact { rect: o.bounds() },
        Shape::Number(n) => DrawCommand::Number { rect: o.bounds(), value: *n, color },
        Shape::Text(t) => DrawCommand::Text {
            origin: o.a,
            text: t.clone(),
            color,
            size: TEXT_FONT_SIZE,
        },
    }
}

impl Pin {
    /// The pixels without annotations.
    pub fn as_pin_image(&self) -> (r: PinImage<'_>)
        ensures
            r@ == self@.image,
    {
        PinImage {
            width: self.image.width,
            height: self.image.height,
            scale: self.image.scale,
            bgra: self.image.bgra.as_slice(),
        }
    }

    /// What is drawn on the screen.
    pub fn draw_commands(&self) -> (r: Vec<DrawCommand>)
        ensures
            draw::commands(r@) == self@.draw_commands(),
    {
        self.commands(true, true)
    }

    /// What is drawn into an exported image. The box around the selected
    /// annotation is for editing and no part of the picture. A text that is
    /// being typed is part of it: the user sees it.
    pub fn export_commands(&self) -> (r: Vec<DrawCommand>)
        ensures
            draw::commands(r@) == self@.export_commands(),
    {
        self.commands(false, false)
    }

    /// How the annotations are drawn. `skip_editing` leaves out the text that is
    /// being typed, which on the screen the text field shows.
    pub fn commands(&self, include_selection: bool, skip_editing: bool) -> (r: Vec<DrawCommand>)
        ensures
            draw::commands(r@) == self@.commands(include_selection, skip_editing),
    {
        let objects: &[Annotation] = self.editor.objects();
        let ghost views = annotation::contents(objects@);
        let skipped: Option<usize> = if skip_editing {
            self.editing_text
        } else {
            None
        };
        let mut out: Vec<DrawCommand> = Vec::new();
        let mut i: usize = 0;
        proof {
            assert(draw::commands(out@) =~= listed(views.take(0), skipped));
        }
        while i < objects.len()
            invariant
                i <= objects@.len(),
                views == annotation::contents(objects@),
                draw::commands(out@) == listed(views.take(i as int), skipped),
            decreases objects@.len() - i,
        {
            let ghost before = draw::commands(out@);
            let left_out: bool = match skipped {
                Some(k) => k == i,
                None => false,
            };
            if !left_out {
                out.push(command_for(&objects[i]));
                proof {
                    assert(draw::commands(out@) =~= before.push(command_of(views[i as int])));
                }
            }
            proof {
                let next = views.take(i + 1);
                assert(next.drop_last() =~= views.take(i as int));
                assert(next.last() == views[i as int]);
                assert(objects.len() == objects@.len());
            }
            i = i + 1;
        }
        proof {
            assert(views.take(i as int) =~= views);
            assert(listed(views, skipped) + Seq::<CommandView>::empty() =~= listed(
                views,
                skipped,
            ));
        }
        if include_selection {
            if let Some(k) = self.editor.selected() {
                let left_out: bool = match skipped {
                    Some(j) => j == k,
                    None => false,
                };
                if k < objects.len() && !left_out {
                    let ghost before = draw::commands(out@);
                    out.push(DrawCommand::SelectionBox { rect: objects[k].bounds() });
                    proof {
                        assert(draw::commands(out@) =~= before + self@.selection_commands(
                            skip_editing,
                        ));
                    }
                }
            }
        }
        out
    }

    /// Starts an export: the pixels with the annotations drawn into them, or
    /// what has to be painted to get them.
    pub fn export_image(&self, os: Os) -> (r: Result<Flattening, Error>)
        requires
            self@.wf(),
        ensures
            self@.image.width > 0 && self@.image.height > 0 ==> r is Ok,
            os == Os::Other || self@.export_commands().len() == 0 ==> (r matches Ok(
                Flattening::Ready(bytes),
            ) && bytes@ == self@.image.bgra),
            os == Os::Mac && self@.export_commands().len() > 0 ==> (r is Ok
                <==> self@.image.width > 0 && self@.image.height > 0),
            os == Os::Mac && self@.export_commands().len() > 0 && r is Ok ==> (r matches Ok(
                Flattening::Paint { bitmap, drawing },
            ) && bitmap.width == self@.image.width && bitmap.height == self@.image.height
                && bitmap.logical == bitmap::logical(
                self@.image.width,
                self@.image.height,
                self@.image.scale,
            ) && bitmap.rgba@ == encode::swapped(self@.image.bgra) && drawing.scale == UNIT
                && draw::steps(drawing.ops@) == draw::painting(
                self@.export_commands(),
                bitmap::logical(
                    self@.image.width,
                    self@.image.height,
                    self@.image.scale,
                ).height,
            )),
            r matches Err(e) ==> e.says("图像尺寸为零"@),
    {
        let commands: Vec<DrawCommand> = self.export_commands();
        proof {
            assert(draw::commands(commands@).len() == commands@.len());
            assert(self.image.bgra.len() == self.image.bgra@.len());
            assert(self@.image.bgra.take(
                image::byte_count(self@.image.width, self@.image.height),
            ) =~= self@.image.bgra);
        }
        flatten_annotations(os, &self.as_pin_image(), commands.as_slice())
    }

    /// Ends an export, with the pixels that came of it.
    pub fn exported(&self, bgra: Vec<u8>) -> (r: CapturedImage)
        ensures
            r@ == (ImageView { bgra: bgra@, ..self@.image }),
    {
        CapturedImage {
            width: self.image.width,
            height: self.image.height,
            scale: self.image.scale,
            bgra,
        }
    }

    /// The buttons of the toolbar.
    pub fn toolbar_items(&self) -> (r: Vec<ToolbarItem>)
        ensures
            toolbar::item_views(r@) == tools::buttons(self@.editor.tool),
    {
        items_for(self.editor.tool())
    }

    /// Brings what is drawn, and the toolbar, up to date.
    pub fn refresh(&mut self, fx: &mut Vec<Effect>)
        requires
            old(self)@.wf(),
        ensures
            final(self)@.wf(),
            run(final(self)@, final(fx)@) == run(old(self)@, old(fx)@).refreshed(),
    {
        let commands: Vec<DrawCommand> = self.draw_commands();
        self.window.set_draw_commands(commands.as_slice());
        if self.window.is_annotation_mode() {
            let items: Vec<ToolbarItem> = self.toolbar_items();
            self.window.set_toolbar(items.as_slice(), fx);
        }
    }

    /// Works through the pointer events and reports whether anything has to be
    /// drawn again.
    pub fn pump_annotation(&mut self, fx: &mut Vec<Effect>) -> (r: bool)
        requires
            old(self)@.wf(),
        ensures
            final(self)@.wf(),
            r == run(old(self)@, old(fx)@).pointers(old(self)@.events).1,
            run(final(self)@, final(fx)@) == ({
                let end = run(old(self)@, old(fx)@).pointers(old(self)@.events).0;
                Run { pin: PinState { events: Seq::empty(), ..end.pin }, ..end }
            }),
    {
        let ghost start = run(self@, fx@);
        let ghost all = self@.events;
        let mut dirty: bool = false;
        let mut i: usize = 0;
        proof {
            assert(all.take(0).len() == 0);
        }
        while i < self.events.len()
            invariant
                self@.wf(),
                self@.events == all,
                i <= all.len(),
                (run(self@, fx@), dirty) == start.pointers(all.take(i as int)),
            decreases all.len() - i,
        {
            let event: PointerEvent = self.events[i];
            let more: bool = self.take_pointer(event, fx);
            dirty = dirty || more;
            proof {
                assert(all.take(i + 1).drop_last() =~= all.take(i as int));
                assert(all.take(i + 1).last() == event);
            }
            i = i + 1;
        }
        proof {
            assert(all.take(i as int) =~= all);
        }
        self.events = Vec::new();
        proof {
            assert(self.events@ =~= Seq::empty());
        }
        dirty
    }

    /// Hands one pointer event to the editor.
    fn take_pointer(&mut self, event: PointerEvent, fx: &mut Vec<Effect>) -> (r: bool)
        requires
            old(self)@.wf(),
        ensures
            final(self)@.wf(),
            final(self)@.events == old(self)@.events,
            (run(final(self)@, final(fx)@), r) == run(old(self)@, old(fx)@).pointer(event),
    {
        let outcome: EditOutcome = match event {
            PointerEvent::Down(p) => {
                let outcome: EditOutcome = self.editor.handle(EditEvent::Down(p));
                let drag: bool = self.editor.tool() == Tool::Select
                    && !self.editor.has_active_drag();
                self.window.set_window_drag(drag);
                outcome
            },
            PointerEvent::Moved(p) => self.editor.handle(EditEvent::Move(p)),
            PointerEvent::Up(p) => self.editor.handle(EditEvent::Up(p)),
            PointerEvent::Cancel => if self.editor.delete_selected() {
                EditOutcome::Redraw
            } else {
                EditOutcome::Idle
            },
        };
        match outcome {
            EditOutcome::Redraw => true,
            EditOutcome::BeginTextInput(i) => {
                self.begin_text(i, fx);
                true
            },
            EditOutcome::Idle => false,
        }
    }

    /// Opens a text field for annotation `i`, if it is a text. Typing is left to
    /// the field, and with it input methods and the like.
    pub fn begin_text(&mut self, i: usize, fx: &mut Vec<Effect>)
        requires
            old(self)@.wf(),
        ensures
            final(self)@.wf(),
            run(final(self)@, final(fx)@) == run(old(self)@, old(fx)@).begin_text(i),
    {
        let objects: &[Annotation] = self.editor.objects();
        if i >= objects.len() {
            return;
        }
        let o: Annotation = objects[i].clone();
        proof {
            assert(self@.editor.doc.objects[i as int] == o@);
        }
        let rect: Rect = o.bounds();
        let color: Rgba = to_rgba(o.color);
        if let Shape::Text(text) = o.shape {
            self.window.begin_text_input(rect, text.as_str(), TEXT_FONT_SIZE, color, fx);
            self.editing_text = Some(i);
            self.editing_last = text;
        }
    }

    /// Ends staging: the image stays on the screen and can be moved.
    pub fn keep(&mut self, facts: Option<&FieldFacts>, fx: &mut Vec<Effect>)
        requires
            old(self)@.wf(),
        ensures
            final(self)@.wf(),
            run(final(self)@, final(fx)@) == run(old(self)@, old(fx)@).kept(facts),
    {
        self.close_overlays(fx);
        self.staging = false;
        self.set_annotation_mode(false, facts, fx);
    }

    /// Whether the user has given the capture up on an overlay.
    pub fn staging_cancelled(&self) -> (r: bool)
        ensures
            r == (self@.staging && self@.staging_cancel),
    {
        self.staging && self.staging_cancel
    }

    /// Closes the overlays, if there are any.
    pub fn close_overlays(&mut self, fx: &mut Vec<Effect>)
        requires
            old(self)@.wf(),
        ensures
            final(self)@.wf(),
            run(final(self)@, final(fx)@) == run(old(self)@, old(fx)@).overlays_closed(),
    {
        match self.overlays.take() {
            Some(o) => {
                let actions: Vec<(ScreenId, OverlayAction)> = o.close();
                ask_overlays(fx, &actions);
            },
            None => {},
        }
    }

    /// Closes everything: first the overlays, which would be left over otherwise.
    pub fn dispose(self, fx: &mut Vec<Effect>)
        requires
            self@.wf(),
        ensures
            effect::log(final(fx)@) == run(self@, old(fx)@).overlays_closed().fx.push(
                EffectView::CloseWindow,
            ),
    {
        let mut pin: Pin = self;
        pin.close_overlays(fx);
        pin.window.close(fx);
    }

    /// Turns annotation mode on or off, and the toolbar with it.
    pub fn set_annotation_mode(
        &mut self,
        on: bool,
        facts: Option<&FieldFacts>,
        fx: &mut Vec<Effect>,
    )
        requires
            old(self)@.wf(),
        ensures
            final(self)@.wf(),
            run(final(self)@, final(fx)@) == run(old(self)@, old(fx)@).set_annotation_mode(
                on,
                facts,
            ),
    {
        if !on {
            self.end_text(facts, fx);
        }
        self.window.set_annotation_mode(on, fx);
        let items: Vec<ToolbarItem> = if on {
            self.toolbar_items()
        } else {
            Vec::new()
        };
        proof {
            if !on {
                assert(toolbar::item_views(items@) =~= Seq::empty());
            }
        }
        self.window.set_toolbar(items.as_slice(), fx);
    }

    /// Works through the keys. Returns whether anything has to be drawn again,
    /// and what is left to the owner.
    pub fn pump_keys(&mut self, facts: Option<&FieldFacts>, fx: &mut Vec<Effect>) -> (r: (
        bool,
        Vec<PinAction>,
    ))
        requires
            old(self)@.wf(),
        ensures
            final(self)@.wf(),
            ({
                let start = KeyRun {
                    run: run(old(self)@, old(fx)@),
                    dirty: false,
                    actions: Seq::empty(),
                };
                let end = start.presses(old(self)@.keys, facts);
                &&& r.0 == end.dirty
                &&& r.1@ == end.actions
                &&& run(final(self)@, final(fx)@) == (Run {
                    pin: PinState { keys: Seq::empty(), ..end.run.pin },
                    ..end.run
                })
            }),
    {
        let ghost start = KeyRun { run: run(self@, fx@), dirty: false, actions: Seq::empty() };
        let ghost all = self@.keys;
        let mut dirty: bool = false;
        let mut actions: Vec<PinAction> = Vec::new();
        let mut i: usize = 0;
        proof {
            assert(all.take(0).len() == 0);
            assert(actions@ =~= Seq::empty());
        }
        while i < self.keys.len()
            invariant
                self@.wf(),
                self@.keys == all,
                i <= all.len(),
                (KeyRun { run: run(self@, fx@), dirty, actions: actions@ }) == start.presses(
                    all.take(i as int),
                    facts,
                ),
            decreases all.len() - i,
        {
            let key: KeyPress = self.keys[i];
            let more: bool = self.take_key(key, facts, &mut actions, fx);
            dirty = dirty || more;
            proof {
                assert(all.take(i + 1).drop_last() =~= all.take(i as int));
                assert(all.take(i + 1).last() == key);
            }
            i = i + 1;
        }
        proof {
            assert(all.take(i as int) =~= all);
        }
        self.keys = Vec::new();
        proof {
            assert(self.keys@ =~= Seq::empty());
        }
        (dirty, actions)
    }

    /// Acts on one key and reports whether anything has to be drawn again.
    fn take_key(
        &mut self,
        key: KeyPress,
        facts: Option<&FieldFacts>,
        actions: &mut Vec<PinAction>,
        fx: &mut Vec<Effect>,
    ) -> (r: bool)
        requires
            old(self)@.wf(),
        ensures
            final(self)@.wf(),
            final(self)@.keys == old(self)@.keys,
            forall|dirty: bool|
                (KeyRun {
                    run: run(final(self)@, final(fx)@),
                    dirty: dirty || r,
                    actions: final(actions)@,
                }) == #[trigger] (KeyRun {
                    run: run(old(self)@, old(fx)@),
                    dirty,
                    actions: old(actions)@,
                }).press(key, facts),
    {
        match key {
            KeyPress::Plain(c) => {
                if c == ' ' {
                    let on: bool = !self.window.is_annotation_mode();
                    self.set_annotation_mode(on, facts, fx);
                    return true;
                }
                let tool: Tool = match tool_from_key(c) {
                    Some(tool) => tool,
                    None => return false,
                };
                // A tool key turns annotation mode on by itself.
                if !self.window.is_annotation_mode() {
                    self.set_annotation_mode(true, facts, fx);
                }
                self.editor.set_tool(tool);
                true
            },
            KeyPress::Command(c) => {
                if c == 'z' {
                    self.end_text(facts, fx);
                    return self.editor.undo();
                }
                if c == 'c' {
                    actions.push(PinAction::Copy);
                    if self.staging {
                        actions.push(PinAction::Close);
                        proof {
                            assert(actions@ =~= old(actions)@ + seq![
                                PinAction::Copy,
                                PinAction::Close,
                            ]);
                        }
                    } else {
                        proof {
                            assert(actions@ =~= old(actions)@ + seq![PinAction::Copy]);
                        }
                    }
                } else if c == 's' {
                    actions.push(PinAction::SaveAs);
                    proof {
                        assert(actions@ =~= old(actions)@ + seq![PinAction::SaveAs]);
                    }
                }
                false
            },
            KeyPress::CommandShift(c) => {
                if c == 's' {
                    actions.push(PinAction::QuickSave);
                    proof {
                        assert(actions@ =~= old(actions)@ + seq![PinAction::QuickSave]);
                    }
                }
                false
            },
            KeyPress::Enter { shift } => {
                if self.staging {
                    if shift {
                        actions.push(PinAction::Keep);
                        proof {
                            assert(actions@ =~= old(actions)@ + seq![PinAction::Keep]);
                        }
                    } else {
                        actions.push(PinAction::Copy);
                        actions.push(PinAction::Close);
                        proof {
                            assert(actions@ =~= old(actions)@ + seq![
                                PinAction::Copy,
                                PinAction::Close,
                            ]);
                        }
                    }
                }
                false
            },
            KeyPress::Escape => {
                if self.staging || !self.window.is_annotation_mode() {
                    actions.push(PinAction::Close);
                    proof {
                        assert(actions@ =~= old(actions)@ + seq![PinAction::Close]);
                    }
                    return false;
                }
                self.set_annotation_mode(false, facts, fx);
                true
            },
        }
    }

    /// Ends typing at once and keeps what was typed. Without typing, nothing
    /// happens.
    pub fn end_text(&mut self, facts: Option<&FieldFacts>, fx: &mut Vec<Effect>)
        requires
            old(self)@.wf(),
        ensures
            final(self)@.wf(),
            run(final(self)@, final(fx)@) == run(old(self)@, old(fx)@).end_text(facts),
    {
        let i: usize = match self.editing_text {
            Some(i) => i,
            None => return,
        };
        if let Some(input) = self.window.poll_text_input(facts, fx) {
            self.editor.set_text(i, input.text);
            self.editor.set_text_extent(i, input.extent);
        }
        self.window.end_text_input(fx);
        self.finish_editing(i);
    }

    /// Text `i` is no longer being typed.
    fn finish_editing(&mut self, i: usize)
        requires
            old(self)@.wf(),
        ensures
            final(self)@.wf(),
            forall|fx: Seq<EffectView>|
                (Run { pin: final(self)@, fx }) == #[trigger] (Run {
                    pin: old(self)@,
                    fx,
                }).text_finished(i),
    {
        self.editor.finish_text(i);
        self.editing_text = None;
        self.editing_last = String::new();
        proof {
            assert(self.editing_last@ =~= Seq::empty());
        }
    }

    /// Takes over what has been typed, and its size, and reports whether anything
    /// has to be drawn again.
    pub fn pump_text(&mut self, facts: Option<&FieldFacts>, fx: &mut Vec<Effect>) -> (r: bool)
        requires
            old(self)@.wf(),
        ensures
            final(self)@.wf(),
            (run(final(self)@, final(fx)@), r) == run(old(self)@, old(fx)@).pump_text(facts),
    {
        let i: usize = match self.editing_text {
            Some(i) => i,
            None => return false,
        };
        let input: TextInput = match self.window.poll_text_input(facts, fx) {
            Some(input) => input,
            None => {
                self.finish_editing(i);
                return true;
            },
        };
        if !input.finished && same_text(&input.text, &self.editing_last) {
            return false;
        }
        self.editing_last = input.text.clone();
        let finished: bool = input.finished;
        self.editor.set_text(i, input.text);
        self.editor.set_text_extent(i, input.extent);
        if finished {
            self.window.end_text_input(fx);
            self.finish_editing(i);
        }
        true
    }
}

fn same_text(a: &String, b: &String) -> (r: bool)
    ensures
        r == (a@ == b@),
{
    *a == *b
}

/// A new pin around a window and the pixels that it shows.
pub open spec fn made(
    window: WindowState,
    image: ImageView,
    key_handler: HandlerId,
    toolbar_handler: HandlerId,
) -> PinState {
    PinState {
        window: WindowState {
            view: match window.view {
                Some(v) => Some(PinViewState { key_handler: Some(key_handler), ..v }),
                None => None,
            },
            toolbar: match window.toolbar {
                Some((size, state)) => Some(
                    (size, ToolbarState { handler: Some(toolbar_handler), ..state }),
                ),
                None => None,
            },
            toolbar_handler: Some(toolbar_handler),
            ..window
        },
        image,
        editor: EditorView::fresh(),
        pending_tool: None,
        editing_text: None,
        editing_last: Seq::empty(),
        staging: false,
        overlays: None,
        staging_cancel: false,
        staging_touch: false,
        keys: Seq::empty(),
        events: Seq::empty(),
    }
}

/// Makes a pin of a window and the pixels that it shows. The pointer handler is
/// not set here: it has to be there when the window is made.
pub fn make_pin(
    window: PinWindow,
    image: CapturedImage,
    key_handler: HandlerId,
    toolbar_handler: HandlerId,
) -> (r: Pin)
    requires
        window@.wf(),
        image@.wf(),
        image.scale != 0,
    ensures
        r@ == made(window@, image@, key_handler, toolbar_handler),
        r@.wf(),
{
    let mut window: PinWindow = window;
    window.set_key_handler(key_handler);
    window.set_toolbar_handler(toolbar_handler);
    let r: Pin = Pin {
        window,
        image,
        editor: AnnotationEditor::new(),
        pending_tool: None,
        editing_text: None,
        editing_last: String::new(),
        staging: false,
        overlays: None,
        staging_cancel: false,
        staging_touch: false,
        keys: Vec::new(),
        events: Vec::new(),
    };
    proof {
        assert(r@.editing_last =~= Seq::empty());
        assert(r@.keys =~= Seq::empty());
        assert(r@.events =~= Seq::empty());
    }
    r
}

impl Run {
    /// A click on the toolbar takes up a tool.
    pub open spec fn tool_taken_up(self) -> Run {
        let rest = Run { pin: PinState { pending_tool: None, ..self.pin }, ..self };
        match self.pin.pending_tool {
            None => rest,
            Some(id) => match tools::with_id(id) {
                None => rest,
                Some(tool) => rest.with_editor(rest.pin.editor.with_tool(tool)).refreshed(),
            },
        }
    }

    /// The first half of a turn: a click on the toolbar, the keys and the
    /// pointer.
    pub open spec fn input_driven(self, facts: Option<&FieldFacts>) -> KeyRun {
        let start = self.tool_taken_up();
        let keyed = KeyRun { run: start, dirty: false, actions: Seq::empty() }.presses(
            start.pin.keys,
            facts,
        );
        let unkeyed = Run { pin: PinState { keys: Seq::empty(), ..keyed.run.pin }, ..keyed.run };
        let (pointed, dirty) = unkeyed.pointers(unkeyed.pin.events);
        KeyRun {
            run: Run { pin: PinState { events: Seq::empty(), ..pointed.pin }, ..pointed },
            dirty: keyed.dirty || dirty,
            actions: keyed.actions,
        }
    }

    /// While staging, an image whose overlay was touched comes to the front
    /// again.
    pub open spec fn raised(self, is_key: Option<bool>) -> Run {
        if self.pin.staging && self.pin.staging_touch {
            Run {
                pin: PinState { staging_touch: false, ..self.pin },
                fx: self.fx.push(EffectView::OrderFront) + match self.pin.window.view {
                    Some(v) => v.focusing(is_key),
                    None => Seq::empty(),
                },
            }
        } else {
            self
        }
    }

    /// The user has double clicked for a copy.
    pub open spec fn copy_requested(self) -> bool {
        self.pin.window.view matches Some(v) && v.copy_requested
    }

    pub open spec fn copy_request_taken(self) -> Run {
        Run {
            pin: PinState {
                window: WindowState {
                    view: match self.pin.window.view {
                        Some(v) => Some(PinViewState { copy_requested: false, ..v }),
                        None => None,
                    },
                    ..self.pin.window
                },
                ..self.pin
            },
            ..self
        }
    }
}

impl KeyRun {
    /// The second half of a turn: the text field, the drawing, and what the
    /// window and the overlays have been through.
    pub open spec fn text_driven(self, facts: Option<&FieldFacts>, is_key: Option<bool>) -> KeyRun {
        let (typed, more) = self.run.pump_text(facts);
        let drawn = if self.dirty || more {
            typed.refreshed()
        } else {
            typed
        };
        // First the copy.
        let copied = if drawn.copy_requested() {
            self.actions + seq![PinAction::Copy, PinAction::Close]
        } else {
            self.actions
        };
        let end = drawn.copy_request_taken().raised(is_key);
        KeyRun {
            run: end,
            dirty: self.dirty || more,
            actions: if end.pin.staging && end.pin.staging_cancel {
                copied.push(PinAction::Close)
            } else {
                copied
            },
        }
    }
}

impl Pin {
    /// The first half of a turn: takes up a tool that was clicked, and works
    /// through the keys and the pointer events. A text field may have been
    /// opened after that. Returns whether anything has to be drawn again, and
    /// what is left to the owner.
    pub fn drive_input(&mut self, facts: Option<&FieldFacts>, fx: &mut Vec<Effect>) -> (r: (
        bool,
        Vec<PinAction>,
    ))
        requires
            old(self)@.wf(),
        ensures
            final(self)@.wf(),
            (KeyRun { run: run(final(self)@, final(fx)@), dirty: r.0, actions: r.1@ }) == run(
                old(self)@,
                old(fx)@,
            ).input_driven(facts),
    {
        if let Some(id) = self.pending_tool {
            self.pending_tool = None;
            if let Some(tool) = tool_from_id(id) {
                self.editor.set_tool(tool);
                self.refresh(fx);
            }
        }
        let (keyed, actions): (bool, Vec<PinAction>) = self.pump_keys(facts, fx);
        let pointed: bool = self.pump_annotation(fx);
        (keyed || pointed, actions)
    }

    /// The second half of a turn: takes over what was typed and draws. `dirty`
    /// and `actions` are what the first half came to, `is_key` says whether the
    /// window has the keyboard. Returns what is left to the owner.
    pub fn drive_text(
        &mut self,
        dirty: bool,
        actions: Vec<PinAction>,
        facts: Option<&FieldFacts>,
        is_key: Option<bool>,
        fx: &mut Vec<Effect>,
    ) -> (r: Vec<PinAction>)
        requires
            old(self)@.wf(),
        ensures
            final(self)@.wf(),
            ({
                let end = KeyRun {
                    run: run(old(self)@, old(fx)@),
                    dirty,
                    actions: actions@,
                }.text_driven(facts, is_key);
                &&& run(final(self)@, final(fx)@) == end.run
                &&& r@ == end.actions
            }),
    {
        let mut actions: Vec<PinAction> = actions;
        let ghost before = actions@;
        let typed: bool = self.pump_text(facts, fx);
        if dirty || typed {
            self.refresh(fx);
        }
        if self.window.take_copy_request() {
            actions.push(PinAction::Copy);
            actions.push(PinAction::Close);
            proof {
                assert(actions@ =~= before + seq![PinAction::Copy, PinAction::Close]);
            }
        }
        if self.staging && self.staging_touch {
            self.staging_touch = false;
            self.window.show(fx);
            self.window.focus(is_key, fx);
        }
        if self.staging_cancelled() {
            actions.push(PinAction::Close);
        }
        actions
    }
}

proof fn lemma_all_listed(objects: Seq<AnnotationView>)
    ensures
        listed(objects, None).len() == objects.len(),
        forall|i: int|
            0 <= i < objects.len() ==> #[trigger] listed(objects, None)[i] == command_of(
                objects[i],
            ),
    decreases objects.len(),
{
    if objects.len() > 0 {
        lemma_all_listed(objects.drop_last());
    }
}

/// What is exported shows every annotation, in order, the one that is being typed
/// too, and nothing else: no box around the selected one.
pub proof fn law_export_shows_the_annotations(pin: PinState, i: int)
    requires
        0 <= i < pin.editor.doc.objects.len(),
    ensures
        pin.export_commands().len() == pin.editor.doc.objects.len(),
        pin.export_commands()[i] == command_of(pin.editor.doc.objects[i]),
        !(pin.export_commands()[i] is SelectionBox),
{
    lemma_all_listed(pin.editor.doc.objects);
}

/// Without annotations nothing is drawn into an exported image.
pub proof fn law_no_annotations_no_drawing(pin: PinState)
    requires
        pin.editor.doc.objects.len() == 0,
    ensures
        pin.export_commands().len() == 0,
{
}

/// While nothing is selected or typed, the screen shows what is exported.
pub proof fn law_what_is_seen_is_exported(pin: PinState)
    requires
        pin.editing_text is None,
        !pin.editor.has_selection(),
    ensures
        pin.draw_commands() == pin.export_commands(),
{
}

/// A tool key turns annotation mode on and takes up its tool.
pub proof fn law_a_tool_key_starts_annotating(k: KeyRun, tool: Tool, facts: Option<&FieldFacts>)
    requires
        k.run.pin.window.view is Some,
    ensures
        k.press(KeyPress::Plain(tools::key_of(tool)), facts).run.pin.window.annotating(),
        k.press(KeyPress::Plain(tools::key_of(tool)), facts).run.pin.editor.tool == tool,
        k.press(KeyPress::Plain(tools::key_of(tool)), facts).dirty,
{
    tools::law_every_tool_can_be_reached(tool);
}

/// Space turns annotation mode on and off.
pub proof fn law_space_toggles_annotation_mode(k: KeyRun, facts: Option<&FieldFacts>)
    requires
        k.run.pin.window.view is Some,
    ensures
        k.press(KeyPress::Plain(' '), facts).run.pin.window.annotating()
            == !k.run.pin.window.annotating(),
{
}

/// Leaving annotation mode leaves no toolbar, no text field and no text that is
/// being typed.
pub proof fn law_leaving_annotation_mode(r: Run, facts: Option<&FieldFacts>)
    ensures
        ({
            let end = r.set_annotation_mode(false, facts).pin;
            &&& !end.window.annotating()
            &&& end.window.toolbar is None
            &&& end.editing_text is None
            &&& end.window.view matches Some(v) ==> v.text_field is None
        }),
{
}

/// Once the image is kept, escape leaves annotation mode first and closes the
/// image after that.
pub proof fn law_escape_takes_two_steps(k: KeyRun, facts: Option<&FieldFacts>)
    requires
        !k.run.pin.staging,
        k.run.pin.window.annotating(),
    ensures
        k.press(KeyPress::Escape, facts).actions == k.actions,
        k.press(KeyPress::Escape, facts).press(KeyPress::Escape, facts).actions
            == k.actions.push(PinAction::Close),
{
    assert(k.press(KeyPress::Escape, facts).press(KeyPress::Escape, facts).actions
        =~= k.actions.push(PinAction::Close));
}

/// While staging, enter and the copy key copy before they close, shift and enter
/// keep the image, and escape gives it up without copying.
pub proof fn law_staging_ends(k: KeyRun, facts: Option<&FieldFacts>)
    requires
        k.run.pin.staging,
    ensures
        k.press(KeyPress::Enter { shift: false }, facts).actions == k.actions + seq![
            PinAction::Copy,
            PinAction::Close,
        ],
        k.press(KeyPress::Command('c'), facts).actions == k.press(
            KeyPress::Enter { shift: false },
            facts,
        ).actions,
        k.press(KeyPress::Enter { shift: true }, facts).actions == k.actions.push(
            PinAction::Keep,
        ),
        k.press(KeyPress::Escape, facts).actions == k.actions.push(PinAction::Close),
{
    assert(k.press(KeyPress::Enter { shift: true }, facts).actions =~= k.actions.push(
        PinAction::Keep,
    ));
    assert(k.press(KeyPress::Escape, facts).actions =~= k.actions.push(PinAction::Close));
}

/// Once the image is kept, enter does nothing and copying leaves it open.
pub proof fn law_a_kept_image_stays(k: KeyRun, shift: bool, facts: Option<&FieldFacts>)
    requires
        !k.run.pin.staging,
    ensures
        k.press(KeyPress::Enter { shift }, facts) == k,
        k.press(KeyPress::Command('c'), facts).actions == k.actions.push(PinAction::Copy),
{
    assert(k.press(KeyPress::Command('c'), facts).actions =~= k.actions.push(PinAction::Copy));
}

/// Keeping an image ends staging and closes every overlay.
pub proof fn law_keeping_closes_the_overlays(r: Run, facts: Option<&FieldFacts>)
    ensures
        !r.kept(facts).pin.staging,
        r.kept(facts).pin.overlays is None,
        r.pin.overlays matches Some(o) ==> r.fx + effect::overlay_effects(
            overlay::to_all(o, OverlayAction::Close),
        ) == r.overlays_closed().fx,
{
}

/// Keys and pointer events are worked through one after the other: two batches
/// are as good as one.
pub proof fn law_keys_come_in_order(
    k: KeyRun,
    first: Seq<KeyPress>,
    second: Seq<KeyPress>,
    facts: Option<&FieldFacts>,
)
    ensures
        k.presses(first + second, facts) == k.presses(first, facts).presses(second, facts),
    decreases second.len(),
{
    if second.len() == 0 {
        assert(first + second =~= first);
    } else {
        law_keys_come_in_order(k, first, second.drop_last(), facts);
        assert((first + second).drop_last() =~= first + second.drop_last());
    }
}

/// A rectangle has `a` and `b` as opposite corners.
pub open spec fn has_corners(r: Rect, a: Point, b: Point) -> bool {
    &&& r.origin.x == a.x || r.origin.x == b.x
    &&& r.origin.y == a.y || r.origin.y == b.y
    &&& r.origin.x <= a.x && r.origin.x <= b.x
    &&& r.origin.y <= a.y && r.origin.y <= b.y
    &&& r.size.width == a.x - b.x || r.size.width == b.x - a.x
    &&& r.size.height == a.y - b.y || r.size.height == b.y - a.y
    &&& r.size.width >= 0
    &&& r.size.height >= 0
}

/// Two colours have the same components.
pub open spec fn same_color(c: Rgba, d: Color) -> bool {
    c.r == d.r && c.g == d.g && c.b == d.b && c.a == d.a
}

/// A command shows an annotation: it draws the same figure between the same points,
/// in the same colour and with the same stroke width, and a text with the same
/// characters, at a font size of eighteen logical points.
pub open spec fn shows(c: CommandView, o: AnnotationView) -> bool {
    match c {
        CommandView::Rect { rect, color, width } => {
            &&& o.shape is Rect
            &&& has_corners(rect, o.a, o.b)
            &&& same_color(color, o.color)
            &&& width == o.width
        },
        CommandView::Ellipse { rect, color, width } => {
            &&& o.shape is Ellipse
            &&& has_corners(rect, o.a, o.b)
            &&& same_color(color, o.color)
            &&& width == o.width
        },
        CommandView::Line { from, to, color, width } => {
            &&& o.shape is Line
            &&& from == o.a
            &&& to == o.b
            &&& same_color(color, o.color)
            &&& width == o.width
        },
        CommandView::Arrow { from, to, color, width } => {
            &&& o.shape is Arrow
            &&& from == o.a
            &&& to == o.b
            &&& same_color(color, o.color)
            &&& width == o.width
        },
        CommandView::Highlight { rect } => o.shape is Highlight && has_corners(rect, o.a, o.b),
        CommandView::Redact { rect } => o.shape is Redact && has_corners(rect, o.a, o.b),
        CommandView::Number { rect, value, color } => {
            &&& o.shape == ShapeView::Number(value)
            &&& has_corners(rect, o.a, o.b)
            &&& same_color(color, o.color)
        },
        CommandView::Text { origin, text, color, size } => {
            &&& o.shape matches ShapeView::Text(t)
            &&& text == t
            &&& origin == o.a
            &&& same_color(color, o.color)
            &&& size == 18_000_000
        },
        CommandView::SelectionBox { .. } => false,
    }
}

/// What is exported shows each annotation as it is, in order: the same figure at the
/// same place, and a text letter by letter.
pub proof fn law_every_annotation_is_exported_as_it_is(pin: PinState, i: int)
    requires
        0 <= i < pin.editor.doc.objects.len(),
        pin.editor.doc.objects[i].a.moderate(),
        pin.editor.doc.objects[i].b.moderate(),
    ensures
        pin.export_commands().len() == pin.editor.doc.objects.len(),
        shows(pin.export_commands()[i], pin.editor.doc.objects[i]),
        pin.editor.doc.objects[i].shape matches ShapeView::Text(t) ==> (
        pin.export_commands()[i] matches CommandView::Text { origin, text, .. } && text == t
            && origin == pin.editor.doc.objects[i].a),
{
    lemma_all_listed(pin.editor.doc.objects);
}

proof fn lemma_listed_without_one(objects: Seq<AnnotationView>, j: usize)
    requires
        j < objects.len() <= usize::MAX,
    ensures
        listed(objects, Some(j)).len() == objects.len() - 1,
        forall|i: int|
            0 <= i < j ==> #[trigger] listed(objects, Some(j))[i] == command_of(objects[i]),
        forall|i: int|
            j <= i < objects.len() - 1 ==> #[trigger] listed(objects, Some(j))[i] == command_of(
                objects[i + 1],
            ),
    decreases objects.len(),
{
    let init = objects.drop_last();
    if j < objects.len() - 1 {
        lemma_listed_without_one(init, j);
    } else {
        lemma_listed_beyond(init, j);
    }
}

proof fn lemma_listed_beyond(objects: Seq<AnnotationView>, j: usize)
    requires
        objects.len() <= j,
    ensures
        listed(objects, Some(j)).len() == objects.len(),
        forall|i: int|
            0 <= i < objects.len() ==> #[trigger] listed(objects, Some(j))[i] == command_of(
                objects[i],
            ),
    decreases objects.len(),
{
    if objects.len() > 0 {
        lemma_listed_beyond(objects.drop_last(), j);
    }
}

/// The screen shows every annotation but the text that is being typed, which the
/// text field shows, in order, and after them a box around the selected annotation,
/// unless that is being typed.
pub proof fn law_the_screen_shows_all_but_the_typed_text(pin: PinState, j: usize, i: int)
    requires
        pin.editing_text == Some(j),
        j < pin.editor.doc.objects.len() <= usize::MAX,
        0 <= i < pin.editor.doc.objects.len(),
        i != j,
        pin.editor.doc.objects[i].a.moderate(),
        pin.editor.doc.objects[i].b.moderate(),
    ensures
        ({
            let objects = pin.editor.doc.objects;
            let seen = pin.draw_commands();
            let k = if i < j {
                i
            } else {
                i - 1
            };
            &&& shows(seen[k], objects[i])
            &&& pin.editor.doc.selected == Some(i as usize) ==> {
                &&& seen.len() == objects.len()
                &&& seen[objects.len() - 1] matches CommandView::SelectionBox { rect }
                &&& has_corners(rect, objects[i].a, objects[i].b)
            }
            &&& pin.editor.doc.selected == Some(j) || pin.editor.doc.selected is None
                ==> seen.len() == objects.len() - 1
        }),
{
    lemma_listed_without_one(pin.editor.doc.objects, j);
}

/// While no text is being typed, the screen shows every annotation, in order, and
/// after them a box around the selected one.
pub proof fn law_the_screen_shows_all_annotations(pin: PinState, i: int)
    requires
        pin.editing_text is None,
        0 <= i < pin.editor.doc.objects.len() <= usize::MAX,
        pin.editor.doc.objects[i].a.moderate(),
        pin.editor.doc.objects[i].b.moderate(),
    ensures
        ({
            let objects = pin.editor.doc.objects;
            let seen = pin.draw_commands();
            &&& shows(seen[i], objects[i])
            &&& pin.editor.doc.selected == Some(i as usize) ==> {
                &&& seen.len() == objects.len() + 1
                &&& seen[objects.len() as int] matches CommandView::SelectionBox { rect }
                &&& has_corners(rect, objects[i].a, objects[i].b)
            }
            &&& pin.editor.doc.selected is None ==> seen.len() == objects.len()
        }),
{
    lemma_all_listed(pin.editor.doc.objects);
}

/// After a refresh the window draws what the annotations are then, and the toolbar,
/// if there is one, marks the tool in use. The annotations stay as they are.
pub proof fn law_a_refresh_shows_the_annotations(r: Run)
    requires
        r.pin.window.view is Some,
    ensures
        ({
            let end = r.refreshed().pin;
            &&& end.window.view matches Some(v)
            &&& v.commands == r.pin.draw_commands()
            &&& v.needs_display
            &&& v.annotating == r.pin.window.annotating()
            &&& end.editor == r.pin.editor
            &&& end.image == r.pin.image
            &&& v.annotating ==> (end.window.toolbar matches Some((_, bar)) && bar.items.len() == 9
                && forall|k: int|
                0 <= k < 9 ==> ((#[trigger] bar.items[k]).selected <==> tools::all_tools()[k]
                    == r.pin.editor.tool))
            &&& !v.annotating ==> end.window.toolbar == r.pin.window.toolbar && r.refreshed().fx
                == r.fx
        }),
{
}

/// Pointer events reach the editor as they are, and the right button deletes the
/// selected annotation.
pub proof fn law_pointer_events_reach_the_editor(r: Run, p: Point)
    ensures
        r.pointer(PointerEvent::Down(p)).0.pin.editor == r.pin.editor.after(EditEvent::Down(p)).0,
        r.pointer(PointerEvent::Moved(p)).0.pin.editor == r.pin.editor.after(
            EditEvent::Move(p),
        ).0,
        r.pointer(PointerEvent::Up(p)).0.pin.editor == r.pin.editor.after(EditEvent::Up(p)).0,
        r.pointer(PointerEvent::Cancel).0.pin.editor == r.pin.editor.after_delete(),
        r.pin.editor.has_selection() ==> r.pointer(PointerEvent::Cancel).1,
        r.pin.editor.after(EditEvent::Move(p)).1 is Redraw <==> r.pointer(PointerEvent::Moved(p)).1,
        r.pin.editor.after(EditEvent::Up(p)).1 is Redraw <==> r.pointer(PointerEvent::Up(p)).1,
        r.pointer(PointerEvent::Down(p)).1,
{
}

/// A press of the selection tool where it grabs nothing is meant for the window. Any
/// other press is not.
pub proof fn law_a_press_on_nothing_drags_the_window(r: Run, p: Point)
    requires
        r.pin.window.view is Some,
    ensures
        ({
            let after = r.pin.editor.after(EditEvent::Down(p)).0;
            let end = r.pointer(PointerEvent::Down(p)).0.pin;
            &&& r.pin.editor.tool is Select ==> (end.window.view matches Some(v) && (v.window_drag
                <==> after.drag is Idle))
            &&& r.pin.editor.tool !is Select && r.pin.editor.tool !is Text ==> (
            end.window.view matches Some(v) && !v.window_drag)
        }),
{
}

/// A press with the text tool opens a text field for the new text, which then is the
/// one that is typed.
pub proof fn law_the_text_tool_opens_a_field(r: Run, p: Point)
    requires
        r.pin.window.view is Some,
        r.pin.editor.tool is Text,
        r.pin.editor.doc.objects.len() < usize::MAX,
    ensures
        ({
            let end = r.pointer(PointerEvent::Down(p)).0;
            let n = r.pin.editor.doc.objects.len();
            &&& end.pin.editing_text == Some(n as usize)
            &&& end.pin.editing_last.len() == 0
            &&& end.pin.window.view matches Some(v)
            &&& v.text_field is Some
            &&& v.text_anchor == Some((p, 18_000_000i64))
            &&& !v.text_done
            &&& end.fx.len() >= r.fx.len() + 4
            &&& end.fx.last() is FocusField
            &&& end.fx[end.fx.len() - 4] matches EffectView::AddField { text, color, .. }
            &&& text.len() == 0
            &&& same_color(color, r.pin.editor.color)
        }),
{
    let n = r.pin.editor.doc.objects.len() as int;
    let o = r.pin.editor.after(EditEvent::Down(p)).0.doc.objects[n];
    assert(o.bounds().origin == p);
}

/// A text that is taken up again is shown in its field with what it says.
pub proof fn law_a_field_shows_its_text(r: Run, i: usize)
    requires
        r.pin.window.view is Some,
        i < r.pin.editor.doc.objects.len(),
        r.pin.editor.doc.objects[i as int].shape is Text,
    ensures
        ({
            let end = r.begin_text(i);
            let o = r.pin.editor.doc.objects[i as int];
            &&& end.pin.editing_text == Some(i)
            &&& end.pin.editing_last == o.shape->Text_0
            &&& end.pin.editor == r.pin.editor
            &&& end.fx[end.fx.len() - 4] matches EffectView::AddField { text, color, .. }
            &&& text == o.shape->Text_0
            &&& same_color(color, o.color)
        }),
{
}

/// While a text is typed, the annotation says what the field says, and no other
/// annotation changes. When typing ends, the field closes and no text is typed any
/// more.
pub proof fn law_an_annotation_says_what_is_typed(r: Run, i: usize, facts: &FieldFacts, k: int)
    requires
        r.pin.editing_text == Some(i),
        i < r.pin.editor.doc.objects.len(),
        r.pin.editor.doc.objects[i as int].shape is Text,
        r.pin.window.view matches Some(v) && v.text_field is Some,
        0 <= k < r.pin.editor.doc.objects.len(),
    ensures
        ({
            let v = r.pin.window.view->0;
            let (end, changed) = r.pump_text(Some(facts));
            let done = v.text_done || (v.text_focused && !facts.editing);
            &&& !done ==> {
                &&& end.pin.editing_text == Some(i)
                &&& end.pin.editing_last == facts.text@
                &&& k != i ==> end.pin.editor.doc.objects[k] == r.pin.editor.doc.objects[k]
                &&& facts.text@ != r.pin.editing_last ==> changed
                    && end.pin.editor.doc.objects[i as int].shape == ShapeView::Text(facts.text@)
                &&& facts.text@ == r.pin.editing_last ==> !changed && end.pin.editor == r.pin.editor
            }
            &&& done ==> {
                &&& changed
                &&& end.pin.editing_text is None
                &&& end.pin.window.view matches Some(w)
                &&& w.text_field is None
                &&& end.fx.last() is RemoveField
                &&& end.pin.editor.index == r.pin.editor.index + 1
                &&& !crate::text::blank(facts.text@) ==> {
                    &&& end.pin.editor.doc.objects.len() == r.pin.editor.doc.objects.len()
                    &&& end.pin.editor.doc.objects[i as int].shape == ShapeView::Text(facts.text@)
                    &&& k != i ==> end.pin.editor.doc.objects[k] == r.pin.editor.doc.objects[k]
                }
                &&& crate::text::blank(facts.text@) ==> end.pin.editor.doc.objects
                    == r.pin.editor.doc.objects.remove(i as int)
            }
        }),
{
    let v = r.pin.window.view->0;
    let input = v.polled(facts.text@, facts.measured, facts.editing)->0;
    let typed = r.pin.editor.with_text(i as int, input.text).with_extent(i as int, input.extent);
    assert(typed.doc.objects[i as int].shape == ShapeView::Text(facts.text@));
    if crate::text::blank(facts.text@) {
        assert(typed.doc.objects.remove(i as int) =~= r.pin.editor.doc.objects.remove(i as int));
    }
}

/// Ending a text keeps what the field says then.
pub proof fn law_ending_a_text_keeps_it(r: Run, i: usize, facts: &FieldFacts)
    requires
        r.pin.editing_text == Some(i),
        i < r.pin.editor.doc.objects.len(),
        r.pin.editor.doc.objects[i as int].shape is Text,
        r.pin.window.view matches Some(v) && v.text_field is Some,
        !crate::text::blank(facts.text@),
    ensures
        ({
            let end = r.end_text(Some(facts));
            &&& end.pin.editing_text is None
            &&& end.pin.editor.doc.objects.len() == r.pin.editor.doc.objects.len()
            &&& end.pin.editor.doc.objects[i as int].shape == ShapeView::Text(facts.text@)
            &&& end.pin.window.view matches Some(w)
            &&& w.text_field is None
            &&& end.fx.last() is RemoveField
        }),
{
    let v = r.pin.window.view->0;
    let input = v.polled(facts.text@, facts.measured, facts.editing)->0;
    let typed = r.pin.editor.with_text(i as int, input.text).with_extent(i as int, input.extent);
    assert(typed.doc.objects[i as int].shape == ShapeView::Text(facts.text@));
}

/// The undo key takes the last change back, and has nothing to draw where there was
/// none.
pub proof fn law_the_undo_key_takes_the_last_change_back(k: KeyRun, facts: Option<&FieldFacts>)
    requires
        k.run.pin.editing_text is None,
        k.run.pin.editor.wf(),
    ensures
        ({
            let end = k.press(KeyPress::Command('z'), facts);
            let e = k.run.pin.editor;
            &&& end.actions == k.actions
            &&& e.index > 0 ==> end.dirty && end.run.pin.editor.index == e.index - 1
                && end.run.pin.editor.doc == e.snapshots[e.index - 1]
            &&& e.index == 0 ==> end.dirty == k.dirty && end.run.pin.editor == e
            &&& end.run.fx == k.run.fx
        }),
{
}

/// The save keys ask for a place or save without asking, and leave the image as it
/// is.
pub proof fn law_save_keys_leave_the_image(k: KeyRun, facts: Option<&FieldFacts>)
    ensures
        k.press(KeyPress::Command('s'), facts) == (KeyRun {
            actions: k.actions.push(PinAction::SaveAs),
            ..k
        }),
        k.press(KeyPress::CommandShift('s'), facts) == (KeyRun {
            actions: k.actions.push(PinAction::QuickSave),
            ..k
        }),
{
    assert(k.press(KeyPress::Command('s'), facts).actions =~= k.actions.push(PinAction::SaveAs));
    assert(k.press(KeyPress::CommandShift('s'), facts).actions =~= k.actions.push(
        PinAction::QuickSave,
    ));
}

/// A key that has no meaning does nothing.
pub proof fn law_other_keys_do_nothing(k: KeyRun, c: char, facts: Option<&FieldFacts>)
    ensures
        c != 'z' && c != 'c' && c != 's' ==> k.press(KeyPress::Command(c), facts) == k,
        c != 's' ==> k.press(KeyPress::CommandShift(c), facts) == k,
        c != ' ' && (forall|tool: Tool| tools::key_of(tool) != c) ==> k.press(
            KeyPress::Plain(c),
            facts,
        ) == k,
{
}

/// No key changes the pixels.
pub proof fn law_keys_keep_the_pixels(k: KeyRun, key: KeyPress, facts: Option<&FieldFacts>)
    ensures
        k.press(key, facts).run.pin.image == k.run.pin.image,
        k.press(key, facts).actions.len() >= k.actions.len(),
        k.press(key, facts).actions.take(k.actions.len() as int) == k.actions,
{
    assert(k.press(key, facts).actions.take(k.actions.len() as int) =~= k.actions);
}

/// A click on a button of the toolbar takes up its tool, once.
pub proof fn law_a_button_takes_up_its_tool(r: Run, id: u32)
    requires
        r.pin.pending_tool == Some(id),
    ensures
        r.tool_taken_up().pin.pending_tool is None,
        id < 9 ==> r.tool_taken_up().pin.editor.tool == tools::all_tools()[id as int],
        id >= 9 ==> r.tool_taken_up().pin.editor == r.pin.editor,
{
}

proof fn lemma_pointers_keep_the_keys(r: Run, events: Seq<PointerEvent>)
    ensures
        r.pointers(events).0.pin.keys == r.pin.keys,
    decreases events.len(),
{
    if events.len() > 0 {
        lemma_pointers_keep_the_keys(r, events.drop_last());
    }
}

/// A turn works through all keys and pointer events that are waiting, once.
pub proof fn law_a_turn_empties_the_queues(r: Run, facts: Option<&FieldFacts>)
    ensures
        r.input_driven(facts).run.pin.keys.len() == 0,
        r.input_driven(facts).run.pin.events.len() == 0,
        r.pin.keys.len() == 0 && r.pin.events.len() == 0 && r.pin.pending_tool is None
            ==> r.input_driven(facts).actions.len() == 0 && !r.input_driven(facts).dirty
            && r.input_driven(facts).run.pin.editor == r.pin.editor,
{
    let start = r.tool_taken_up();
    let keyed = KeyRun { run: start, dirty: false, actions: Seq::empty() }.presses(
        start.pin.keys,
        facts,
    );
    let unkeyed = Run { pin: PinState { keys: Seq::empty(), ..keyed.run.pin }, ..keyed.run };
    lemma_pointers_keep_the_keys(unkeyed, unkeyed.pin.events);
}

/// A double click copies and then closes, once, whatever else came before.
pub proof fn law_a_double_click_copies_and_closes(
    k: KeyRun,
    facts: Option<&FieldFacts>,
    is_key: Option<bool>,
)
    requires
        k.run.pin.window.view matches Some(v) && v.copy_requested,
        k.run.pin.editing_text is None,
        !k.run.pin.staging,
    ensures
        k.text_driven(facts, is_key).actions == k.actions.push(PinAction::Copy).push(
            PinAction::Close,
        ),
        k.text_driven(facts, is_key).run.pin.window.view matches Some(v) && !v.copy_requested,
{
    assert(k.text_driven(facts, is_key).actions =~= k.actions.push(PinAction::Copy).push(
        PinAction::Close,
    ));
}

/// While staging, a touch of an overlay brings the image to the front, once, and a
/// cancellation closes it.
pub proof fn law_overlays_are_answered_while_staging(
    k: KeyRun,
    facts: Option<&FieldFacts>,
    is_key: Option<bool>,
)
    requires
        k.run.pin.staging,
        k.run.pin.editing_text is None,
        !k.dirty,
        k.run.pin.window.view matches Some(v) && !v.copy_requested,
    ensures
        ({
            let end = k.text_driven(facts, is_key);
            &&& !end.run.pin.staging_touch
            &&& k.run.pin.staging_touch ==> end.run.fx.len() > k.run.fx.len()
                && end.run.fx[k.run.fx.len() as int] is OrderFront
            &&& !k.run.pin.staging_touch ==> end.run.fx == k.run.fx
            &&& k.run.pin.staging_cancel ==> end.actions == k.actions.push(PinAction::Close)
            &&& !k.run.pin.staging_cancel ==> end.actions == k.actions
        }),
{
}

/// Closing the overlays asks each of them to close, in order.
pub proof fn law_every_overlay_is_closed(r: Run, i: int)
    requires
        r.pin.overlays matches Some(o) && 0 <= i < o.len(),
    ensures
        r.overlays_closed().pin.overlays is None,
        r.overlays_closed().fx.len() == r.fx.len() + r.pin.overlays->0.len(),
        r.overlays_closed().fx[r.fx.len() + i] == EffectView::Overlay(
            r.pin.overlays->0[i].screen_id,
            OverlayAction::Close,
        ),
{
}

/// Entering annotation mode shows the toolbar with all of its buttons and changes neither
/// the annotations nor the pixels.
pub proof fn law_entering_annotation_mode(r: Run, facts: Option<&FieldFacts>)
    requires
        r.pin.window.view is Some,
    ensures
        ({
            let end = r.set_annotation_mode(true, facts).pin;
            &&& end.window.annotating()
            &&& end.editor == r.pin.editor
            &&& end.image == r.pin.image
            &&& end.editing_text == r.pin.editing_text
            &&& end.window.toolbar matches Some((_, bar))
            &&& bar.items.len() == 9
            &&& forall|k: int|
                0 <= k < 9 ==> ((#[trigger] bar.items[k]).id == k && (bar.items[k].selected
                    <==> tools::all_tools()[k] == r.pin.editor.tool))
            &&& r.set_annotation_mode(true, facts).fx.last() is PlaceToolbar
        }),
{
}

/// A new pin has its image, no annotations and nothing waiting, and is known to its
/// callbacks.
pub proof fn law_a_new_pin_is_made_of_its_image(
    window: WindowState,
    image: ImageView,
    key_handler: HandlerId,
    toolbar_handler: HandlerId,
)
    requires
        window.view is Some,
    ensures
        ({
            let p = made(window, image, key_handler, toolbar_handler);
            &&& p.image == image
            &&& p.editor.doc.objects.len() == 0
            &&& p.keys.len() == 0
            &&& p.events.len() == 0
            &&& p.pending_tool is None
            &&& p.editing_text is None
            &&& !p.staging
            &&& !p.staging_cancel
            &&& !p.staging_touch
            &&& p.overlays is None
            &&& p.window.toolbar_handler == Some(toolbar_handler)
            &&& p.window.view == Some(
                (PinViewState { key_handler: Some(key_handler), ..window.view->0 }),
            )
        }),
{
}

/// Keeping an image leaves annotation mode and keeps the annotations, the pixels and the
/// zoom factor.
pub proof fn law_a_kept_image_keeps_its_annotations(r: Run, facts: Option<&FieldFacts>)
    requires
        r.pin.window.view is Some,
        r.pin.editing_text is None,
    ensures
        ({
            let end = r.kept(facts).pin;
            &&& end.editor == r.pin.editor
            &&& end.image == r.pin.image
            &&& !end.window.annotating()
            &&& end.window.toolbar is None
            &&& end.window.view matches Some(v)
            &&& v.zoom == r.pin.window.view->0.zoom
            &&& v.opacity == r.pin.window.view->0.opacity
        }),
{
}

/// Once something has changed, a turn ends with the window drawing the annotations as they
/// are then. Without a change it keeps what it draws.
pub proof fn law_a_turn_draws_what_has_changed(
    k: KeyRun,
    facts: Option<&FieldFacts>,
    is_key: Option<bool>,
)
    requires
        k.run.pin.window.view is Some,
        k.run.pin.editing_text is None,
    ensures
        ({
            let end = k.text_driven(facts, is_key).run.pin;
            &&& end.window.view matches Some(v)
            &&& k.dirty ==> v.commands == k.run.pin.draw_commands() && v.needs_display
            &&& !k.dirty ==> v.commands == k.run.pin.window.view->0.commands
            &&& end.editor == k.run.pin.editor
        }),
{
}

} // verus!
