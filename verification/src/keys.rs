//! Key and mouse input, and the actions the event handlers hand back.
use vstd::prelude::*;
use crate::app::{AddedRequest, CreatePlan, CreatePlanView, DeletedRequest, Rect};
use crate::path::{PathModel, PathView};

verus! {

/// A key of the keyboard.
#[derive(PartialEq, Eq, Structural, Clone, Copy, Debug)]
pub enum KeyCode {
    Backspace,
    Enter,
    Left,
    Right,
    Up,
    Down,
    Home,
    End,
    PageUp,
    PageDown,
    Tab,
    BackTab,
    Delete,
    Esc,
    F(u8),
    Char(char),
    Other,
}

/// No modifier key held.
pub const NO_MODIFIERS: u8 = 0;

/// The Shift bit of the modifier set.
pub const SHIFT: u8 = 1;

/// The Control bit of the modifier set.
pub const CONTROL: u8 = 2;

/// A key press: the key and the set of modifier keys held (as bits:
/// Shift 1, Control 2, Alt 4, Super 8, Hyper 16, Meta 32).
#[derive(PartialEq, Eq, Structural, Clone, Copy, Debug)]
pub struct KeyInput {
    pub code: KeyCode,
    pub modifiers: u8,
}

/// The character a key press types: a character key with no modifier or
/// with Shift alone.
pub open spec fn typed(k: KeyInput) -> Option<char> {
    match k.code {
        KeyCode::Char(c) => if k.modifiers == NO_MODIFIERS || k.modifiers == SHIFT {
            Some(c)
        } else {
            None
        },
        _ => None,
    }
}

/// Whether the key press is the character `c` with exactly the modifiers `m`.
pub open spec fn is_char_with(k: KeyInput, c: char, m: u8) -> bool {
    k.code == KeyCode::Char(c) && k.modifiers == m
}

/// The character a key press types, if any.
pub fn typed_char(k: KeyInput) -> (r: Option<char>)
    ensures
        r == typed(k),
{
    match k.code {
        KeyCode::Char(c) => if k.modifiers == NO_MODIFIERS || k.modifiers == SHIFT {
            Some(c)
        } else {
            None
        },
        _ => None,
    }
}

/// Whether the key press is the character `c` with exactly the modifiers `m`.
pub fn char_with(k: KeyInput, c: char, m: u8) -> (r: bool)
    ensures
        r == is_char_with(k, c, m),
{
    match k.code {
        KeyCode::Char(d) => d == c && k.modifiers == m,
        _ => false,
    }
}

/// What the mouse did.
#[derive(PartialEq, Eq, Structural, Clone, Copy, Debug)]
pub enum MouseKind {
    ScrollDown,
    ScrollUp,
    LeftDown,
    Other,
}

/// A mouse event at a screen cell.
#[derive(PartialEq, Eq, Structural, Clone, Copy, Debug)]
pub struct MouseInput {
    pub kind: MouseKind,
    pub column: u16,
    pub row: u16,
}

/// Whether the cell (`x`, `y`) lies in the rectangle.
pub open spec fn in_rect(r: Rect, x: u16, y: u16) -> bool {
    x >= r.x && x < r.x + r.width && y >= r.y && y < r.y + r.height
}

/// Whether the cell (`x`, `y`) lies in the rectangle.
pub fn rect_contains(rect: Rect, x: u16, y: u16) -> (r: bool)
    ensures
        r == in_rect(rect, x, y),
{
    let right: u32 = rect.x as u32 + rect.width as u32;
    let bottom: u32 = rect.y as u32 + rect.height as u32;
    x >= rect.x && (x as u32) < right && y >= rect.y && (y as u32) < bottom
}

/// What the event loop is to do after an event.  Besides sending the
/// request and quitting, the variants name the disk work that an event
/// leads to; the state has been updated as far as it can be without it.
#[derive(Debug)]
pub enum AppAction {
    SendRequest,
    Quit,
    Continue,
    /// Write collection file `i` (the edited request was stored in it).
    WriteCollection(usize),
    /// Write the environment file.
    WriteEnv,
    /// Reload the collections from disk.
    Reload,
    /// Create what the plan names.
    Create(CreatePlan),
    /// Write the collection file of the added request, then reload.
    AddRequest(AddedRequest),
    /// Write the collection file the request was removed from.
    DeleteRequest(DeletedRequest),
    /// Remove this file or directory.
    DeletePath(PathModel),
    /// Switch to the typed root, when it is a directory.
    ChangeRoot(Vec<char>),
    /// Complete the typed root from the directories on disk.
    CompleteDir,
}

pub enum ActionView {
    SendRequest,
    Quit,
    Continue,
    WriteCollection(usize),
    WriteEnv,
    Reload,
    Create(CreatePlanView),
    AddRequest(usize, usize, PathView),
    DeleteRequest(usize, usize, Seq<char>),
    DeletePath(PathView),
    ChangeRoot(Seq<char>),
    CompleteDir,
}

impl View for AppAction {
    type V = ActionView;

    open spec fn view(&self) -> ActionView {
        match self {
            AppAction::SendRequest => ActionView::SendRequest,
            AppAction::Quit => ActionView::Quit,
            AppAction::Continue => ActionView::Continue,
            AppAction::WriteCollection(i) => ActionView::WriteCollection(*i),
            AppAction::WriteEnv => ActionView::WriteEnv,
            AppAction::Reload => ActionView::Reload,
            AppAction::Create(p) => ActionView::Create(p@),
            AppAction::AddRequest(a) => ActionView::AddRequest(
                a.collection_index,
                a.request_index,
                a.path@,
            ),
            AppAction::DeleteRequest(d) => ActionView::DeleteRequest(
                d.collection_index,
                d.request_index,
                d.name@,
            ),
            AppAction::DeletePath(p) => ActionView::DeletePath(p@),
            AppAction::ChangeRoot(t) => ActionView::ChangeRoot(t@),
            AppAction::CompleteDir => ActionView::CompleteDir,
        }
    }
}

impl AppAction {
    /// Whether the event loop is to stop.
    pub fn is_quit(&self) -> (r: bool)
        ensures
            r == (self@ is Quit),
    {
        match self {
            AppAction::Quit => true,
            _ => false,
        }
    }
}

} // verus!
