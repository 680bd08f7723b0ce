//! Pointer and tool handling of the drawing surfaces, as state machines: the
//! caller hands in each event and performs the drawing that comes back.
use vstd::prelude::*;

use crate::text::{is_blank, is_blank_str, split_once, split_once_at};

verus! {

/// The tool of the shared canvas.
#[derive(PartialEq, Eq, Structural, Debug, Clone, Copy)]
pub enum Tool {
    /// Freehand lines follow the pointer.
    Pen,
    /// A press marks where a typed text goes.
    Text,
}

/// A pen on a plain drawing surface: whether a stroke is in progress.
pub struct PenStroke {
    pub drawing: bool,
}

impl PenStroke {
    pub fn new() -> (p: PenStroke)
        ensures
            !p.drawing,
    {
        PenStroke { drawing: false }
    }

    /// The pointer goes down: a stroke starts where it is.
    pub fn press(&mut self)
        ensures
            final(self).drawing,
    {
        self.drawing = true;
    }

    /// The pointer moves: whether a line is drawn to where it is.
    pub fn drags(&self) -> (r: bool)
        ensures
            r == self.drawing,
    {
        self.drawing
    }

    /// The pointer goes up or leaves the surface: the stroke ends.
    pub fn release(&mut self)
        ensures
            !final(self).drawing,
    {
        self.drawing = false;
    }
}

/// What a press on the shared canvas starts.
#[derive(PartialEq, Eq, Structural, Debug, Clone, Copy)]
pub enum Press {
    /// A text will be placed at this point once typed.
    MarkText { x: i32, y: i32 },
    /// A stroke starts at this point.
    BeginStroke { x: i32, y: i32 },
}

/// What placing the typed text does.
#[derive(PartialEq, Eq, Structural, Debug, Clone, Copy)]
pub enum TextCommit {
    /// No point was marked: nothing happens, the draft stays.
    NothingPending,
    /// The draft was blank: nothing is drawn, the mark and the draft are dropped.
    Skip,
    /// The draft is drawn at the marked point; the mark and the draft are dropped.
    Draw { x: i32, y: i32 },
}

/// The editing state of the shared canvas.
pub struct CanvasEditor {
    pub tool: Tool,
    /// A pen stroke is in progress.
    pub drawing: bool,
    /// The point marked for a text, while its text is being typed.
    pub pending_text: Option<(i32, i32)>,
    /// Something was drawn since the canvas was last loaded or saved.
    pub unsaved: bool,
}

/// What happens to the shared canvas's editing state.
#[derive(PartialEq, Eq, Structural, Debug, Clone, Copy)]
pub enum EditorEvent {
    SelectTool(Tool),
    /// The pointer goes down at a point.
    Press(i32, i32),
    /// The pointer goes up or leaves the canvas.
    Release,
    /// The typed text is placed; whether it is blank.
    CommitText(bool),
    /// Placing the text is abandoned.
    CancelText,
    /// The canvas now shows a stored state (loaded or saved).
    Saved,
    /// What was drawn since the last load or save is undone.
    DiscardUnsaved,
}

/// The editing state after `event`.
pub open spec fn editor_after(e: CanvasEditor, event: EditorEvent) -> CanvasEditor {
    match event {
        EditorEvent::SelectTool(tool) => CanvasEditor { tool, ..e },
        EditorEvent::Press(x, y) => match e.tool {
            Tool::Text => CanvasEditor { pending_text: Some((x, y)), ..e },
            Tool::Pen => CanvasEditor { drawing: true, unsaved: true, ..e },
        },
        EditorEvent::Release => CanvasEditor { drawing: false, ..e },
        EditorEvent::CommitText(blank) => match e.pending_text {
            None => e,
            Some(_) => CanvasEditor { pending_text: None, unsaved: e.unsaved || !blank, ..e },
        },
        EditorEvent::CancelText => CanvasEditor { pending_text: None, ..e },
        EditorEvent::Saved => CanvasEditor { unsaved: false, ..e },
        EditorEvent::DiscardUnsaved => CanvasEditor {
            unsaved: false,
            drawing: false,
            pending_text: None,
            ..e
        },
    }
}

/// The editing state after a sequence of events.
pub open spec fn editor_run(e: CanvasEditor, events: Seq<EditorEvent>) -> CanvasEditor
    decreases events.len(),
{
    if events.len() == 0 {
        e
    } else {
        editor_after(editor_run(e, events.drop_last()), events.last())
    }
}

/// Whether `event` puts something on the canvas: a pen press, or placing a
/// non-blank text at a marked point.
pub open spec fn draws(e: CanvasEditor, event: EditorEvent) -> bool {
    match event {
        EditorEvent::Press(_, _) => e.tool == Tool::Pen,
        EditorEvent::CommitText(blank) => e.pending_text is Some && !blank,
        _ => false,
    }
}

/// Whether something was put on the canvas after the last load, save or undo
/// in `events` (or before them all, when the starting state already had unsaved work).
pub open spec fn drew_since_stored(e: CanvasEditor, events: Seq<EditorEvent>) -> bool
    decreases events.len(),
{
    if events.len() == 0 {
        e.unsaved
    } else {
        match events.last() {
            EditorEvent::Saved | EditorEvent::DiscardUnsaved => false,
            ev => drew_since_stored(e, events.drop_last()) || draws(
                editor_run(e, events.drop_last()),
                ev,
            ),
        }
    }
}

/// Over any editing session, the canvas holds unsaved work exactly when
/// something was drawn after the last load, save or undo. So the undo control
/// asks for the stored canvas back exactly then, and takes back only what was
/// drawn since: saved work is never undone.
pub proof fn lemma_undo_takes_back_only_unsaved_work(e: CanvasEditor, events: Seq<EditorEvent>)
    ensures
        editor_run(e, events).unsaved == drew_since_stored(e, events),
        editor_after(editor_run(e, events), EditorEvent::DiscardUnsaved).unsaved == false,
    decreases events.len(),
{
    if events.len() > 0 {
        lemma_undo_takes_back_only_unsaved_work(e, events.drop_last());
    }
}

/// What each kind of editing does, and leaves alone: choosing a tool changes
/// only the tool; a pen press starts a stroke as unsaved work; a text-tool press
/// marks its point and draws nothing; placing text drops the mark and counts as
/// unsaved work only when the text is not blank; cancelling drops only the mark.
pub proof fn lemma_editor_events(e: CanvasEditor, tool: Tool, x: i32, y: i32, blank: bool)
    ensures
        ({
            let t = editor_after(e, EditorEvent::SelectTool(tool));
            t.tool == tool && t.drawing == e.drawing && t.pending_text == e.pending_text && t.unsaved
                == e.unsaved
        }),
        e.tool == Tool::Pen ==> ({
            let p = editor_after(e, EditorEvent::Press(x, y));
            p.drawing && p.unsaved && p.tool == e.tool && p.pending_text == e.pending_text
        }),
        e.tool == Tool::Text ==> ({
            let p = editor_after(e, EditorEvent::Press(x, y));
            p.pending_text == Some((x, y)) && p.drawing == e.drawing && p.unsaved == e.unsaved
                && p.tool == e.tool
        }),
        ({
            let c = editor_after(e, EditorEvent::CommitText(blank));
            c.pending_text is None && c.tool == e.tool && c.drawing == e.drawing && c.unsaved == (
            e.unsaved || (e.pending_text is Some && !blank))
        }),
        ({
            let c = editor_after(e, EditorEvent::CancelText);
            c.pending_text is None && c.tool == e.tool && c.drawing == e.drawing && c.unsaved
                == e.unsaved
        }),
{
}

/// Lifting the pointer only ends a stroke: the tool, the point marked for a
/// text and the unsaved work all stay as they were.
pub proof fn lemma_release_only_ends_a_stroke(e: CanvasEditor)
    ensures
        !editor_after(e, EditorEvent::Release).drawing,
        editor_after(e, EditorEvent::Release).tool == e.tool,
        editor_after(e, EditorEvent::Release).pending_text == e.pending_text,
        editor_after(e, EditorEvent::Release).unsaved == e.unsaved,
{
}

/// With the text tool, a click (press, then pointer-up) marks its point, and
/// typing a non-blank text places that text exactly there, as unsaved work.
pub proof fn lemma_clicked_text_is_placed_at_the_click(e: CanvasEditor, x: i32, y: i32)
    requires
        e.tool == Tool::Text,
    ensures
        ({
            let clicked = editor_after(editor_after(e, EditorEvent::Press(x, y)), EditorEvent::Release);
            &&& clicked.pending_text == Some((x, y))
            &&& draws(clicked, EditorEvent::CommitText(false))
            &&& editor_after(clicked, EditorEvent::CommitText(false)).unsaved
            &&& editor_after(clicked, EditorEvent::CommitText(false)).pending_text is None
        }),
{
}

/// A session that starts from a stored canvas and draws nothing never asks
/// for the stored canvas back.
pub proof fn lemma_no_drawing_no_undo(e: CanvasEditor, events: Seq<EditorEvent>)
    requires
        !e.unsaved,
        forall|i: int| 0 <= i < events.len() ==> !draws(editor_run(e, events.take(i)), #[trigger] events[i]),
    ensures
        !editor_run(e, events).unsaved,
    decreases events.len(),
{
    if events.len() > 0 {
        let rest = events.drop_last();
        assert forall|i: int| 0 <= i < rest.len() implies !draws(editor_run(e, rest.take(i)), #[trigger] rest[i]) by {
            assert(rest.take(i) =~= events.take(i));
            assert(rest[i] == events[i]);
        }
        lemma_no_drawing_no_undo(e, rest);
        assert(events.take(events.len() - 1) =~= rest);
        assert(!draws(editor_run(e, events.take(events.len() - 1)), events[events.len() - 1]));
    }
}

impl CanvasEditor {
    /// The pen is selected and nothing is in progress.
    pub fn new() -> (e: CanvasEditor)
        ensures
            e.tool == Tool::Pen,
            !e.drawing,
            e.pending_text is None,
            !e.unsaved,
    {
        CanvasEditor { tool: Tool::Pen, drawing: false, pending_text: None, unsaved: false }
    }

    pub fn select_tool(&mut self, tool: Tool)
        ensures
            *final(self) == editor_after(*old(self), EditorEvent::SelectTool(tool)),
    {
        self.tool = tool;
    }

    /// The pointer goes down at `(x, y)`: with the text tool it marks where a
    /// text goes, with the pen it starts a stroke.
    pub fn press(&mut self, x: i32, y: i32) -> (p: Press)
        ensures
            *final(self) == editor_after(*old(self), EditorEvent::Press(x, y)),
            old(self).tool == Tool::Text ==> p == (Press::MarkText { x, y }),
            old(self).tool == Tool::Pen ==> p == (Press::BeginStroke { x, y }),
    {
        match self.tool {
            Tool::Text => {
                self.pending_text = Some((x, y));
                Press::MarkText { x, y }
            },
            Tool::Pen => {
                self.drawing = true;
                self.unsaved = true;
                Press::BeginStroke { x, y }
            },
        }
    }

    /// The pointer moves: whether a line is drawn to where it is.
    pub fn drags(&self) -> (r: bool)
        ensures
            r == (self.tool == Tool::Pen && self.drawing),
    {
        self.tool == Tool::Pen && self.drawing
    }

    /// The pointer goes up or leaves the canvas.
    pub fn release(&mut self)
        ensures
            *final(self) == editor_after(*old(self), EditorEvent::Release),
    {
        self.drawing = false;
    }

    /// The typed text `draft` is to be placed: it is drawn at the marked point
    /// unless it is blank; with no marked point nothing happens.
    pub fn commit_text(&mut self, draft: &str) -> (c: TextCommit)
        ensures
            *final(self) == editor_after(*old(self), EditorEvent::CommitText(is_blank(draft@))),
            match old(self).pending_text {
                None => c == TextCommit::NothingPending,
                Some((x, y)) => if is_blank(draft@) {
                    c == TextCommit::Skip
                } else {
                    c == (TextCommit::Draw { x, y })
                },
            },
    {
        match self.pending_text {
            None => TextCommit::NothingPending,
            Some((x, y)) => {
                self.pending_text = None;
                if is_blank_str(draft) {
                    TextCommit::Skip
                } else {
                    self.unsaved = true;
                    TextCommit::Draw { x, y }
                }
            },
        }
    }

    /// Placing the text is abandoned: the mark is dropped.
    pub fn cancel_text(&mut self)
        ensures
            *final(self) == editor_after(*old(self), EditorEvent::CancelText),
    {
        self.pending_text = None;
    }

    /// The canvas now shows a stored state (it was just loaded or saved).
    pub fn mark_saved(&mut self)
        ensures
            *final(self) == editor_after(*old(self), EditorEvent::Saved),
    {
        self.unsaved = false;
    }

    /// Undoes what was drawn since the last load or save: whether the canvas
    /// must be restored to its stored state. Saved work is never undone, and
    /// a stroke or text in progress is dropped.
    pub fn discard_unsaved(&mut self) -> (restore: bool)
        ensures
            restore == old(self).unsaved,
            *final(self) == editor_after(*old(self), EditorEvent::DiscardUnsaved),
    {
        let restore = self.unsaved;
        self.unsaved = false;
        self.drawing = false;
        self.pending_text = None;
        restore
    }
}

/// The Base64 payload of a `data:` URL: what follows its first comma, or
/// nothing when it has no comma.
pub fn data_url_payload(data_url: &str) -> (payload: String)
    ensures
        match split_once_at(data_url@, ',') {
            Some((_, rest)) => payload@ == rest,
            None => payload@ == Seq::<char>::empty(),
        },
{
    match split_once(data_url, ',') {
        Some((_, rest)) => rest,
        None => String::new(),
    }
}

} // verus!
