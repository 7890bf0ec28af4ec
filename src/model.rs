//! The working set that the front end has open: one journal page, one note
//! and one trail.

use vstd::prelude::*;
use crate::error::FileError;
use crate::journal::{parse_journal, Journal};
use crate::note::Note;
use crate::storage::load_journal_page;
use crate::text::strs;
use crate::trail::Trail;

verus! {

/// The entities currently open, and today's date.
pub struct Model {
    pub current_date: String,
    pub note: Note,
    pub journal_page: Journal,
    pub trail: Trail,
}

impl Model {
    /// The working set at start-up on `current_date`, from what reading that
    /// date's journal file gave: the page stored there, or an empty journal
    /// (no date) when it could not be loaded.
    pub fn new(current_date: String, read: Result<String, FileError>) -> (r: Model)
        ensures
            r.current_date@ == current_date@,
            r.note.title@.len() == 0,
            r.note.text@.len() == 0,
            r.note.wf(),
            r.trail.name@.len() == 0,
            r.trail.hops@.len() == 0,
            match read {
                Ok(t) => match parse_journal(t@) {
                    Some((d, ps)) => r.journal_page.date@ == current_date@
                        && r.journal_page.description@ == d && strs(r.journal_page.pages@) == ps,
                    None => r.journal_page.date@.len() == 0 && r.journal_page.pages@.len() == 0,
                },
                Err(_) => r.journal_page.date@.len() == 0 && r.journal_page.pages@.len() == 0,
            },
    {
        let journal_page = match load_journal_page(current_date.as_str(), read) {
            Ok(j) => j,
            Err(_) => Journal::new(),
        };
        Model { current_date, note: Note::new(), journal_page, trail: Trail::new() }
    }
}

} // verus!
