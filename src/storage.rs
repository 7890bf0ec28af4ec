//! Where each entity is stored, and how the outcome of reading its file
//! becomes the entity or a failure.

use vstd::prelude::*;
use vstd::string::*;
use crate::error::{FileError, TrailError};
use crate::journal::{parse_journal, Journal};
use crate::note::{links_of, Note};
use crate::text::strs;
use crate::trail::{pairs, parse_trail, Trail};

verus! {

/// The directory that holds the journal pages.
pub open spec fn journal_dir() -> Seq<char> {
    seq!['j', 'o', 'u', 'r', 'n', 'a', 'l']
}

/// The directory that holds the trails.
pub open spec fn trail_dir() -> Seq<char> {
    seq!['t', 'r', 'a', 'i', 'l', 's']
}

/// The directory that holds the journal pages.
pub fn journal_dir_name() -> (r: String)
    ensures
        r@ == journal_dir(),
{
    proof {
        reveal_strlit("journal");
    }
    String::from_str("journal")
}

/// The directory that holds the trails.
pub fn trail_dir_name() -> (r: String)
    ensures
        r@ == trail_dir(),
{
    proof {
        reveal_strlit("trails");
    }
    String::from_str("trails")
}

/// The file of the journal page of `date`.
pub fn journal_path(date: &str) -> (r: String)
    ensures
        r@ == journal_dir() + seq!['/'] + date@,
{
    proof {
        reveal_strlit("journal/");
    }
    let mut p = String::from_str("journal/");
    p.append(date);
    assert(p@ =~= journal_dir() + seq!['/'] + date@);
    p
}

/// The file of the trail called `name`.
pub fn trail_path(name: &str) -> (r: String)
    ensures
        r@ == trail_dir() + seq!['/'] + name@,
{
    proof {
        reveal_strlit("trails/");
    }
    let mut p = String::from_str("trails/");
    p.append(name);
    assert(p@ =~= trail_dir() + seq!['/'] + name@);
    p
}

/// The note stored at `path`, from what reading that file gave.
pub fn load_note(path: &str, read: Result<String, FileError>) -> (r: Result<Note, FileError>)
    ensures
        match read {
            Err(e) => r == Err::<Note, FileError>(e),
            Ok(t) => r matches Ok(n) && n.title@ == path@ && n.text@ == t@ && strs(n.links@)
                == links_of(t@),
        },
{
    match read {
        Err(e) => Err(e),
        Ok(t) => Ok(Note::from_str(path, t)),
    }
}

/// The journal page called `name`, from what reading its file gave.
pub fn load_journal_page(name: &str, read: Result<String, FileError>) -> (r: Result<
    Journal,
    FileError,
>)
    ensures
        match read {
            Err(e) => r == Err::<Journal, FileError>(e),
            Ok(t) => match parse_journal(t@) {
                None => r == Err::<Journal, FileError>(FileError::FormatError),
                Some((d, ps)) => r matches Ok(j) && j.date@ == name@ && j.description@ == d
                    && strs(j.pages@) == ps,
            },
        },
{
    match read {
        Err(e) => Err(e),
        Ok(t) => Journal::from_str(name, t.as_str()),
    }
}

/// The trail called `name`, from what reading its file gave.
pub fn load_trail(name: &str, read: Result<String, FileError>) -> (r: Result<Trail, TrailError>)
    ensures
        match read {
            Err(e) => r == Err::<Trail, TrailError>(TrailError::FileError(e)),
            Ok(t) => match parse_trail(t@) {
                Err(e) => r == Err::<Trail, TrailError>(e),
                Ok((d, hs)) => r matches Ok(tr) && tr.name@ == name@ && tr.description@ == d
                    && pairs(tr.hops@) == hs,
            },
        },
{
    match read {
        Err(e) => Err(TrailError::FileError(e)),
        Ok(t) => Trail::from_str(name, t.as_str()),
    }
}

} // verus!
