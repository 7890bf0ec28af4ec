//! The results that the terminal front end hands back for each page.

use vstd::prelude::*;

verus! {

/// What the user chose on a journal page.
#[derive(Debug, Clone, Copy, PartialEq, Eq, Structural)]
pub enum JournalMessage {
    EditDescription,
    EditLinks,
    Menu,
    SelectLinks,
    Exit,
}

/// What the user chose in a list of links.
#[derive(Debug, PartialEq, Eq)]
pub enum LinkMessage {
    Exit,
    Back,
    /// The entry typed in, as the user typed it: an index into the list.
    GotoLink(String),
}

/// What the user chose on a note.
#[derive(Debug, Clone, Copy, PartialEq, Eq, Structural)]
pub enum NoteMessage {
    Edit,
    SelectLinks,
    Menu,
    Exit,
    Back,
}

/// What the user chose on a trail.
#[derive(Debug, Clone, Copy, PartialEq, Eq, Structural)]
pub enum TrailMessage {
    SelectLink,
    MainMenu,
    Quit,
    EditDescription,
    AddLink,
    RemoveLink,
}

/// What the user chose when no trail is loaded.
#[derive(Debug, Clone, Copy, PartialEq, Eq, Structural)]
pub enum CreateTrailMessage {
    CreateTrail,
    LoadTrail,
    ReturnToJournal,
}

/// What the user chose in the main menu.
#[derive(Debug, Clone, Copy, PartialEq, Eq, Structural)]
pub enum MenuOption {
    Journal,
    LoadJournal,
    Notes,
    LoadCreateNote,
    Trails,
    LoadCreateTrail,
    Quit,
}

/// What the user chose on an error message.
#[derive(Debug, Clone, Copy, PartialEq, Eq, Structural)]
pub enum DisplayErrorMessage {
    Menu,
    Exit,
}

} // verus!
