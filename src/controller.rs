//! The navigation state machine. Each page of the front end is a state; the
//! controller asks the front end for one interaction at a time (a `Request`),
//! and turns its outcome (an `Event`) into the next state.

use vstd::prelude::*;
use vstd::string::*;
use crate::error::{FileError, TrailError};
use crate::journal::{journal_text, page_added, parse_journal, Journal};
use crate::messages::{
    CreateTrailMessage, DisplayErrorMessage, JournalMessage, LinkMessage, MenuOption, NoteMessage,
    TrailMessage,
};
use crate::model::Model;
use crate::note::{links_of, Note};
use crate::storage::{
    journal_dir, journal_dir_name, journal_path, load_journal_page, load_note, load_trail,
    trail_dir, trail_dir_name, trail_path,
};
use crate::text::{char_vec, index_of, lemma_strs_push, strs};
use crate::trail::{hop_added, pairs, parse_trail, trail_text, Trail};

verus! {

/// The pages of the front end: the states of the machine.
pub enum CurrentPage {
    StartPage,
    MainMenu,
    CreateNewJournal,
    JournalView,
    JournalViewReadOnly,
    JournalEditDescription,
    JournalAddLink,
    /// A menu of these links.
    SelectLink(Vec<String>),
    NoteView,
    NoteEdit,
    SelectCreateTrail,
    CreateNewTrail,
    LoadTrail,
    TrailView,
    TrailEditDescription,
    TrailAddHop,
    /// Saving failed; acknowledging returns to this page.
    SaveError(Box<CurrentPage>),
    /// Something went wrong, as this message says.
    UnexpectedError(String),
}

/// How far the current page has got with its work.
pub enum Phase {
    /// The page's own interaction is awaited.
    View,
    /// A listing of the journal directory is awaited.
    Listing,
    /// The user picks an entry of this listing.
    Choosing(Vec<String>),
    /// The file of the entity named here is being read.
    Loading(String),
    /// Today's journal page is being read again; `true` when its links are
    /// to be offered next, `false` for the main menu.
    Reloading(bool),
    /// Asking whether to create the missing note at this path.
    Confirming(String),
    /// The page's entity is being written; on success the machine goes to this page.
    Saving(CurrentPage),
    /// The user has quit.
    Done,
}

/// What the controller needs from the front end next.
pub enum Request {
    /// Show the start page.
    Start,
    /// Show the main menu.
    Menu,
    /// Ask whether to create today's journal page.
    ConfirmJournal,
    /// Show the open journal page.
    ShowJournal,
    /// Let the user edit this text, and hand back the result.
    EditText(String),
    /// Ask for the title of a note to add to the journal page.
    AskPageTitle,
    /// Offer these links to choose from.
    PickLink(Vec<String>),
    /// Ask whether to create the note at this path.
    ConfirmNote(String),
    /// Show the open note.
    ShowNote,
    /// Ask whether to create or load a trail.
    TrailChoice,
    /// Ask for the name of a new trail.
    AskTrailName,
    /// Show the open trail.
    ShowTrail,
    /// Ask for a hop: a link and its annotation.
    AskHop,
    /// Tell the user that saving this kind of entity failed.
    SaveFailed(String),
    /// Show this error message.
    ShowError(String),
    /// Read the file at this path as text.
    Read(String),
    /// List the files of this directory.
    List(String),
    /// Write this text to the file at this path.
    Write(String, String),
    /// Stop.
    Quit,
}

/// The outcome of a request.
pub enum Event {
    /// The page was shown and acknowledged.
    Done,
    Menu(MenuOption),
    Confirmed(bool),
    Journal(JournalMessage),
    /// The text that the user entered or edited.
    Text(String),
    Link(LinkMessage),
    Note(NoteMessage),
    TrailChoice(CreateTrailMessage),
    Trail(TrailMessage),
    /// A link and its annotation.
    Hop(String, String),
    /// What reading a file gave.
    Read(Result<String, FileError>),
    /// What listing a directory gave.
    Listed(Result<Vec<String>, FileError>),
    /// Whether writing a file succeeded.
    Written(bool),
    ErrorChoice(DisplayErrorMessage),
}

/// The value of a decimal digit.
pub open spec fn digit_value(c: char) -> int {
    (c as u32) - ('0' as u32)
}

pub open spec fn is_digit(c: char) -> bool {
    '0' <= c <= '9'
}

/// The number that a string of decimal digits writes.
pub open spec fn digits_value(s: Seq<char>) -> nat
    decreases s.len(),
{
    if s.len() == 0 {
        0
    } else {
        (digits_value(s.drop_last()) * 10 + digit_value(s.last())) as nat
    }
}

/// The number that `s` writes as an unsigned decimal (one or more digits,
/// after an optional `+`), or `None`.
pub open spec fn index_text(s: Seq<char>) -> Option<nat> {
    let t = unsigned_part(s);
    if t.len() > 0 && all_digits(t) {
        Some(digits_value(t))
    } else {
        None
    }
}

/// `s` without a leading `+`.
pub open spec fn unsigned_part(s: Seq<char>) -> Seq<char> {
    if s.len() > 0 && s[0] == '+' {
        s.drop_first()
    } else {
        s
    }
}

pub open spec fn all_digits(t: Seq<char>) -> bool {
    forall|i: int| 0 <= i < t.len() ==> is_digit(#[trigger] t[i])
}

proof fn lemma_digits_grow(t: Seq<char>, i: int, j: int)
    requires
        0 <= i <= j <= t.len(),
        forall|k: int| 0 <= k < t.len() ==> is_digit(#[trigger] t[k]),
    ensures
        digits_value(t.take(i)) <= digits_value(t.take(j)),
    decreases j - i,
{
    if i < j {
        lemma_digits_grow(t, i, j - 1);
        assert(t.take(j).drop_last() =~= t.take(j - 1));
        assert(is_digit(t[j - 1]));
    }
}

/// The index that the user typed: `s` read as an unsigned decimal that fits
/// in `usize`, or `None`.
pub fn parse_index(s: &str) -> (r: Option<usize>)
    ensures
        match index_text(s@) {
            Some(v) => if v <= usize::MAX {
                r == Some(v as usize)
            } else {
                r is None
            },
            None => r is None,
        },
{
    let v = char_vec(s);
    let n = v.len();
    let start: usize = if n > 0 && v[0] == '+' {
        1
    } else {
        0
    };
    let ghost t = v@.skip(start as int);
    proof {
        if start == 1 {
            assert(t =~= s@.drop_first());
        } else {
            assert(t =~= s@);
        }
    }
    if start == n {
        return None;
    }
    let mut acc: usize = 0;
    let mut i = start;
    proof {
        assert(t.take(0) =~= Seq::<char>::empty());
    }
    while i < n
        invariant
            start <= i <= n,
            n == v@.len(),
            t == v@.skip(start as int),
            v@ == s@,
            t == unsigned_part(s@),
            acc == digits_value(t.take(i - start)),
            forall|k: int| 0 <= k < i - start ==> is_digit(#[trigger] t[k]),
        decreases n - i,
    {
        let c = v[i];
        if !('0' <= c && c <= '9') {
            proof {
                assert(!is_digit(t[i - start]));
                assert(!all_digits(t));
                assert(index_text(s@) is None);
            }
            return None;
        }
        let d = (c as u32 - '0' as u32) as usize;
        proof {
            assert(t[i - start] == c);
            assert(t.take(i - start + 1).drop_last() =~= t.take(i - start));
            assert(digit_value(c) == d);
            assert(digits_value(t.take(i - start + 1)) == acc * 10 + d);
        }
        let next = match acc.checked_mul(10) {
            Some(m) => m.checked_add(d),
            None => None,
        };
        match next {
            Some(x) => {
                acc = x;
            },
            None => {
                proof {
                    assert(acc * 10 + d > usize::MAX);
                    if all_digits(t) {
                        lemma_digits_grow(t, i - start + 1, t.len() as int);
                        assert(t.take(t.len() as int) =~= t);
                        assert(digits_value(t) > usize::MAX);
                    }
                }
                return None;
            },
        }
        i = i + 1;
    }
    proof {
        assert(t.take(t.len() as int) =~= t);
    }
    Some(acc)
}

/// A copy of a list of strings.
fn copy_strings(v: &Vec<String>) -> (r: Vec<String>)
    ensures
        strs(r@) == strs(v@),
{
    let mut out: Vec<String> = Vec::new();
    let mut i: usize = 0;
    while i < v.len()
        invariant
            i <= v@.len(),
            strs(out@) == strs(v@).take(i as int),
        decreases v@.len() - i,
    {
        let c = v[i].clone();
        proof {
            lemma_strs_push(out@, c);
            assert(strs(v@).take(i + 1) =~= strs(v@).take(i as int).push(v@[i as int]@));
        }
        out.push(c);
        i = i + 1;
    }
    assert(strs(v@).take(i as int) =~= strs(v@));
    out
}

/// The links of a trail's hops, in order.
fn hop_links(hops: &Vec<(String, String)>) -> (r: Vec<String>)
    ensures
        strs(r@) == pairs(hops@).map_values(|h: (Seq<char>, Seq<char>)| h.0),
{
    let mut out: Vec<String> = Vec::new();
    let mut i: usize = 0;
    while i < hops.len()
        invariant
            i <= hops@.len(),
            strs(out@) == pairs(hops@).map_values(|h: (Seq<char>, Seq<char>)| h.0).take(i as int),
        decreases hops@.len() - i,
    {
        let c = hops[i].0.clone();
        proof {
            let ls = pairs(hops@).map_values(|h: (Seq<char>, Seq<char>)| h.0);
            lemma_strs_push(out@, c);
            assert(ls[i as int] == hops@[i as int].0@);
            assert(ls.take(i + 1) =~= ls.take(i as int).push(c@));
        }
        out.push(c);
        i = i + 1;
    }
    assert(pairs(hops@).map_values(|h: (Seq<char>, Seq<char>)| h.0).take(i as int) =~= pairs(
        hops@,
    ).map_values(|h: (Seq<char>, Seq<char>)| h.0));
    out
}

/// The kind of entity whose page failed to save, as the error page names it.
pub open spec fn save_label(p: CurrentPage) -> Seq<char> {
    match p {
        CurrentPage::NoteView => seq!['n', 'o', 't', 'e'],
        CurrentPage::JournalView => seq!['j', 'o', 'u', 'r', 'n', 'a', 'l', ' ', 'p', 'a', 'g', 'e'],
        CurrentPage::TrailView => seq!['t', 'r', 'a', 'i', 'l'],
        _ => seq![' '],
    }
}

fn label_of(p: &CurrentPage) -> (r: String)
    ensures
        r@ == save_label(*p),
{
    proof {
        reveal_strlit("note");
        reveal_strlit("journal page");
        reveal_strlit("trail");
        reveal_strlit(" ");
    }
    match p {
        CurrentPage::NoteView => String::from_str("note"),
        CurrentPage::JournalView => String::from_str("journal page"),
        CurrentPage::TrailView => String::from_str("trail"),
        _ => String::from_str(" "),
    }
}

/// The state machine: the open entities, the current page and how far that
/// page has got.
pub struct Controller {
    pub model: Model,
    pub current_page: CurrentPage,
    pub phase: Phase,
}

/// `c` has just moved to `page` with the model `m`: the trail page stands
/// only for a loaded trail and gives way to the trail menu otherwise.
pub open spec fn entered(m: Model, page: CurrentPage, c: Controller) -> bool {
    &&& c.phase is View
    &&& if page is TrailView && m.trail.name@.len() == 0 {
        c.current_page is SelectCreateTrail
    } else {
        c.current_page == page
    }
}

/// `c` kept the model `m` and moved to `page`, whose interaction comes next.
pub open spec fn moved(m: Model, page: CurrentPage, c: Controller) -> bool {
    c.model == m && entered(m, page, c)
}

/// `c` kept the model `m` and shows the error `message`.
pub open spec fn failed(m: Model, message: Seq<char>, c: Controller) -> bool {
    &&& c.model == m
    &&& c.current_page matches CurrentPage::UnexpectedError(s) && s@ == message
    &&& c.phase is View
}

/// `c` kept the model `m`, stays on `page`, and goes on to `phase`.
pub open spec fn stays(m: Model, page: CurrentPage, phase: Phase, c: Controller) -> bool {
    c.model == m && c.current_page == page && c.phase == phase
}

/// Only the journal page may differ from that of `m`.
pub open spec fn with_journal(m: Model, c: Controller) -> bool {
    c.model.current_date == m.current_date && c.model.note == m.note && c.model.trail == m.trail
}

/// Only the note may differ from that of `m`.
pub open spec fn with_note(m: Model, c: Controller) -> bool {
    c.model.current_date == m.current_date && c.model.journal_page == m.journal_page
        && c.model.trail == m.trail
}

/// Only the trail may differ from that of `m`.
pub open spec fn with_trail(m: Model, c: Controller) -> bool {
    c.model.current_date == m.current_date && c.model.journal_page == m.journal_page
        && c.model.note == m.note
}

/// Today's journal page if one is open, else the offer to create it.
pub open spec fn opened_journal(m: Model, c: Controller) -> bool {
    if m.journal_page.date@.len() == 0 {
        moved(m, CurrentPage::CreateNewJournal, c)
    } else {
        moved(m, CurrentPage::JournalView, c)
    }
}

/// The entry `e` typed into a menu of `n` entries picks entry `i`.
pub open spec fn picks(e: Seq<char>, n: int, i: int) -> bool {
    index_text(e) == Some(i as nat) && 0 <= i < n
}

/// What `parse_index` returned decides which entry, if any, was picked.
proof fn lemma_picks(e: Seq<char>, n: int, parsed: Option<usize>)
    requires
        0 <= n <= usize::MAX,
        match index_text(e) {
            Some(v) => if v <= usize::MAX {
                parsed == Some(v as usize)
            } else {
                parsed is None
            },
            None => parsed is None,
        },
    ensures
        parsed is Some && parsed->0 < n ==> picks(e, n, parsed->0 as int) && (choose|j: int|
            picks(e, n, j)) == parsed->0 as int,
        !(parsed is Some && parsed->0 < n) ==> !exists|j: int| picks(e, n, j),
{
    if let Some(i) = parsed {
        if i < n {
            assert(picks(e, n, i as int));
        }
    }
    if exists|j: int| picks(e, n, j) {
        let j = choose|j: int| picks(e, n, j);
        assert(index_text(e) == Some(j as nat));
    }
}

/// The outcome of the interaction of `page` itself, from the model `m`.
pub open spec fn view_step(m: Model, page: CurrentPage, event: Event, c: Controller) -> bool {
    match (page, event) {
        (CurrentPage::StartPage, Event::Done) => opened_journal(m, c),
        (CurrentPage::MainMenu, Event::Menu(o)) => match o {
            MenuOption::Journal => opened_journal(m, c),
            MenuOption::LoadJournal => stays(m, CurrentPage::MainMenu, Phase::Listing, c),
            MenuOption::Trails => moved(m, CurrentPage::TrailView, c),
            MenuOption::Quit => stays(m, CurrentPage::MainMenu, Phase::Done, c),
            _ => moved(m, CurrentPage::MainMenu, c),
        },
        (CurrentPage::CreateNewJournal, Event::Confirmed(b)) => if b {
            &&& with_journal(m, c)
            &&& c.model.journal_page.date@ == m.current_date@
            &&& c.model.journal_page.description@.len() == 0
            &&& c.model.journal_page.pages@.len() == 0
            &&& entered(c.model, CurrentPage::JournalView, c)
        } else {
            moved(m, CurrentPage::MainMenu, c)
        },
        (CurrentPage::JournalView, Event::Journal(msg)) => match msg {
            JournalMessage::EditDescription => stays(
                m,
                CurrentPage::JournalView,
                Phase::Saving(CurrentPage::JournalEditDescription),
                c,
            ),
            JournalMessage::EditLinks => stays(
                m,
                CurrentPage::JournalView,
                Phase::Saving(CurrentPage::JournalAddLink),
                c,
            ),
            JournalMessage::Menu => stays(
                m,
                CurrentPage::JournalView,
                Phase::Saving(CurrentPage::MainMenu),
                c,
            ),
            JournalMessage::SelectLinks => {
                &&& c.model == m
                &&& c.current_page is JournalView
                &&& c.phase matches Phase::Saving(CurrentPage::SelectLink(v)) && strs(v@) == strs(
                    m.journal_page.pages@,
                )
            },
            JournalMessage::Exit => stays(m, CurrentPage::JournalView, Phase::Done, c),
        },
        (CurrentPage::JournalViewReadOnly, Event::Journal(msg)) => match msg {
            JournalMessage::Menu => stays(
                m,
                CurrentPage::JournalViewReadOnly,
                Phase::Reloading(false),
                c,
            ),
            JournalMessage::SelectLinks => stays(
                m,
                CurrentPage::JournalViewReadOnly,
                Phase::Reloading(true),
                c,
            ),
            JournalMessage::Exit => stays(m, CurrentPage::JournalViewReadOnly, Phase::Done, c),
            _ => stays(
                m,
                CurrentPage::JournalViewReadOnly,
                Phase::Saving(CurrentPage::JournalViewReadOnly),
                c,
            ),
        },
        (CurrentPage::JournalEditDescription, Event::Text(t)) => {
            &&& with_journal(m, c)
            &&& c.model.journal_page.date == m.journal_page.date
            &&& c.model.journal_page.pages == m.journal_page.pages
            &&& c.model.journal_page.description == t
            &&& entered(c.model, CurrentPage::JournalView, c)
        },
        (CurrentPage::JournalAddLink, Event::Text(t)) => {
            &&& with_journal(m, c)
            &&& c.model.journal_page.date@ == m.journal_page.date@
            &&& c.model.journal_page.description@ == m.journal_page.description@
            &&& if t@.len() == 0 {
                c.model.journal_page.pages == m.journal_page.pages
            } else {
                page_added(strs(m.journal_page.pages@), t@, strs(c.model.journal_page.pages@))
            }
            &&& entered(c.model, CurrentPage::JournalView, c)
        },
        (CurrentPage::SelectLink(list), Event::Link(msg)) => match msg {
            LinkMessage::Exit => stays(m, CurrentPage::SelectLink(list), Phase::Done, c),
            LinkMessage::Back => moved(m, CurrentPage::JournalView, c),
            LinkMessage::GotoLink(e) => if exists|i: int| picks(e@, list@.len() as int, i) {
                let i = choose|i: int| picks(e@, list@.len() as int, i);
                stays(m, CurrentPage::SelectLink(list), Phase::Loading(list@[i]), c)
            } else {
                moved(m, CurrentPage::SelectLink(list), c)
            },
        },
        (CurrentPage::NoteView, Event::Note(msg)) => match msg {
            NoteMessage::Edit => stays(
                m,
                CurrentPage::NoteView,
                Phase::Saving(CurrentPage::NoteEdit),
                c,
            ),
            NoteMessage::SelectLinks => {
                &&& c.model == m
                &&& c.current_page is NoteView
                &&& c.phase matches Phase::Saving(CurrentPage::SelectLink(v)) && strs(v@) == strs(
                    m.note.links@,
                )
            },
            NoteMessage::Menu => stays(
                m,
                CurrentPage::NoteView,
                Phase::Saving(CurrentPage::MainMenu),
                c,
            ),
            NoteMessage::Back => stays(
                m,
                CurrentPage::NoteView,
                Phase::Saving(CurrentPage::JournalView),
                c,
            ),
            NoteMessage::Exit => stays(m, CurrentPage::MainMenu, Phase::Done, c),
        },
        (CurrentPage::NoteEdit, Event::Text(t)) => {
            &&& with_note(m, c)
            &&& c.model.note.title@ == m.note.title@
            &&& c.model.note.text@ == t@
            &&& strs(c.model.note.links@) == links_of(t@)
            &&& entered(c.model, CurrentPage::NoteView, c)
        },
        (CurrentPage::SelectCreateTrail, Event::TrailChoice(msg)) => match msg {
            CreateTrailMessage::CreateTrail => moved(m, CurrentPage::CreateNewTrail, c),
            CreateTrailMessage::LoadTrail => moved(m, CurrentPage::LoadTrail, c),
            CreateTrailMessage::ReturnToJournal => moved(m, CurrentPage::JournalView, c),
        },
        (CurrentPage::CreateNewTrail, Event::Text(t)) => if t@.len() > 0 {
            &&& with_trail(m, c)
            &&& c.model.trail.name@ == t@
            &&& c.model.trail.description@.len() == 0
            &&& c.model.trail.hops@.len() == 0
            &&& entered(c.model, CurrentPage::TrailView, c)
        } else {
            moved(m, CurrentPage::CreateNewTrail, c)
        },
        (CurrentPage::LoadTrail, Event::Listed(r)) => match r {
            Ok(list) => stays(m, CurrentPage::LoadTrail, Phase::Choosing(list), c),
            Err(_) => failed(m, "Trail loading error."@, c),
        },
        (CurrentPage::TrailView, Event::Trail(msg)) => match msg {
            TrailMessage::AddLink => stays(
                m,
                CurrentPage::TrailView,
                Phase::Saving(CurrentPage::TrailAddHop),
                c,
            ),
            TrailMessage::SelectLink => {
                &&& c.model == m
                &&& c.current_page is TrailView
                &&& c.phase matches Phase::Saving(CurrentPage::SelectLink(v)) && strs(v@) == pairs(
                    m.trail.hops@,
                ).map_values(|h: (Seq<char>, Seq<char>)| h.0)
            },
            TrailMessage::Quit => stays(m, CurrentPage::TrailView, Phase::Done, c),
            TrailMessage::MainMenu => stays(
                m,
                CurrentPage::TrailView,
                Phase::Saving(CurrentPage::MainMenu),
                c,
            ),
            TrailMessage::RemoveLink => stays(
                m,
                CurrentPage::TrailView,
                Phase::Saving(CurrentPage::TrailView),
                c,
            ),
            TrailMessage::EditDescription => stays(
                m,
                CurrentPage::TrailView,
                Phase::Saving(CurrentPage::TrailEditDescription),
                c,
            ),
        },
        (CurrentPage::TrailEditDescription, Event::Text(t)) => {
            &&& with_trail(m, c)
            &&& c.model.trail.name == m.trail.name
            &&& c.model.trail.hops == m.trail.hops
            &&& c.model.trail.description == t
            &&& entered(c.model, CurrentPage::TrailView, c)
        },
        (CurrentPage::TrailAddHop, Event::Hop(l, d)) => {
            &&& with_trail(m, c)
            &&& c.model.trail.name@ == m.trail.name@
            &&& c.model.trail.description@ == m.trail.description@
            &&& if l@.len() == 0 {
                c.model.trail.hops == m.trail.hops
            } else {
                hop_added(pairs(m.trail.hops@), (l@, d@), pairs(c.model.trail.hops@))
            }
            &&& entered(c.model, CurrentPage::TrailView, c)
        },
        (CurrentPage::SaveError(back), _) => moved(m, *back, c),
        (CurrentPage::UnexpectedError(message), Event::ErrorChoice(x)) => match x {
            DisplayErrorMessage::Menu => moved(m, CurrentPage::MainMenu, c),
            DisplayErrorMessage::Exit => stays(
                m,
                CurrentPage::UnexpectedError(message),
                Phase::Done,
                c,
            ),
        },
        (page, _) => stays(m, page, Phase::View, c),
    }
}

/// The outcome of listing the journal directory on `page`.
pub open spec fn listing_step(m: Model, page: CurrentPage, event: Event, c: Controller) -> bool {
    match event {
        Event::Listed(Ok(list)) => stays(m, page, Phase::Choosing(list), c),
        Event::Listed(Err(_)) => failed(m, "Could not find any journal pages."@, c),
        _ => stays(m, page, Phase::Listing, c),
    }
}

/// The outcome of picking from `list` on `page`: a journal page from the
/// main menu, or a trail.
pub open spec fn choice_step(
    m: Model,
    page: CurrentPage,
    list: Vec<String>,
    event: Event,
    c: Controller,
) -> bool {
    match event {
        Event::Link(msg) => {
            let trails = page is LoadTrail;
            match msg {
                LinkMessage::Exit => if trails {
                    moved(m, CurrentPage::LoadTrail, c)
                } else {
                    stays(m, page, Phase::Done, c)
                },
                LinkMessage::Back => if trails {
                    moved(m, CurrentPage::LoadTrail, c)
                } else {
                    moved(m, CurrentPage::JournalView, c)
                },
                LinkMessage::GotoLink(e) => if exists|i: int| picks(e@, list@.len() as int, i) {
                    let i = choose|i: int| picks(e@, list@.len() as int, i);
                    stays(m, page, Phase::Loading(list@[i]), c)
                } else if !trails {
                    moved(m, page, c)
                } else if index_text(e@) matches Some(v) && v <= usize::MAX {
                    failed(
                        m,
                        "The number you entered does not correspond to any valid option."@,
                        c,
                    )
                } else {
                    failed(m, "The input you entered is not valid."@, c)
                },
            }
        },
        _ => stays(m, page, Phase::Choosing(list), c),
    }
}

/// What a trail file that was read as `r` leads to.
pub open spec fn trail_loaded(
    m: Model,
    name: String,
    r: Result<(Seq<char>, Seq<(Seq<char>, Seq<char>)>), TrailError>,
    c: Controller,
) -> bool {
    match r {
        Ok((d, hs)) => {
            &&& with_trail(m, c)
            &&& c.model.trail.name@ == name@
            &&& c.model.trail.description@ == d
            &&& pairs(c.model.trail.hops@) == hs
            &&& entered(c.model, CurrentPage::TrailView, c)
        },
        Err(TrailError::FileError(FileError::EmptyFileError)) => {
            &&& with_trail(m, c)
            &&& c.model.trail.name@ == name@
            &&& c.model.trail.description@.len() == 0
            &&& c.model.trail.hops@.len() == 0
            &&& entered(c.model, CurrentPage::TrailView, c)
        },
        Err(TrailError::BodyFormatError) => failed(
            m,
            "The body of the selected trail is formatted incorrectly."@,
            c,
        ),
        Err(TrailError::DescriptionError) => failed(
            m,
            "The description of the selected trail is formatted incorrectly."@,
            c,
        ),
        Err(TrailError::FileError(FileError::ReadError)) => failed(
            m,
            "Could not load trail from memory."@,
            c,
        ),
        Err(TrailError::FileError(FileError::FormatError)) => failed(
            m,
            "The trail file is corrupted."@,
            c,
        ),
    }
}

/// The outcome of reading the file of the entity `name` on `page`: an old
/// journal page from the main menu, a trail, or else a note.
pub open spec fn loaded_step(
    m: Model,
    page: CurrentPage,
    name: String,
    event: Event,
    c: Controller,
) -> bool {
    match event {
        Event::Read(r) => match page {
            CurrentPage::MainMenu => match r {
                Ok(t) => match parse_journal(t@) {
                    Some((d, ps)) => {
                        &&& with_journal(m, c)
                        &&& c.model.journal_page.date@ == name@
                        &&& c.model.journal_page.description@ == d
                        &&& strs(c.model.journal_page.pages@) == ps
                        &&& entered(c.model, CurrentPage::JournalViewReadOnly, c)
                    },
                    None => moved(m, CurrentPage::MainMenu, c),
                },
                Err(FileError::ReadError) => failed(
                    m,
                    "The selected journal page does not exist."@,
                    c,
                ),
                Err(_) => moved(m, CurrentPage::MainMenu, c),
            },
            CurrentPage::LoadTrail => trail_loaded(
                m,
                name,
                match r {
                    Ok(t) => parse_trail(t@),
                    Err(e) => Err(TrailError::FileError(e)),
                },
                c,
            ),
            _ => match r {
                Ok(t) => {
                    &&& with_note(m, c)
                    &&& c.model.note.title@ == name@
                    &&& c.model.note.text@ == t@
                    &&& strs(c.model.note.links@) == links_of(t@)
                    &&& entered(c.model, CurrentPage::NoteView, c)
                },
                Err(FileError::ReadError) => stays(m, page, Phase::Confirming(name), c),
                Err(_) => moved(m, page, c),
            },
        },
        _ => stays(m, page, Phase::Loading(name), c),
    }
}

/// The outcome of reading today's journal page again on `page`.
pub open spec fn reload_step(
    m: Model,
    page: CurrentPage,
    to_links: bool,
    event: Event,
    c: Controller,
) -> bool {
    match event {
        Event::Read(r) => match (match r {
            Ok(t) => parse_journal(t@),
            Err(_) => None,
        }) {
            Some((d, ps)) => {
                &&& with_journal(m, c)
                &&& c.model.journal_page.date@ == m.current_date@
                &&& c.model.journal_page.description@ == d
                &&& strs(c.model.journal_page.pages@) == ps
                &&& c.current_page == page
                &&& if to_links {
                    c.phase matches Phase::Saving(CurrentPage::SelectLink(v)) && strs(v@) == ps
                } else {
                    c.phase == Phase::Saving(CurrentPage::MainMenu)
                }
            },
            None => stays(m, page, Phase::Saving(CurrentPage::CreateNewJournal), c),
        },
        _ => stays(m, page, Phase::Reloading(to_links), c),
    }
}

/// The outcome of asking whether to create the missing note at `path`.
pub open spec fn confirm_step(
    m: Model,
    page: CurrentPage,
    path: String,
    event: Event,
    c: Controller,
) -> bool {
    match event {
        Event::Confirmed(true) => {
            &&& with_note(m, c)
            &&& c.model.note.title@ == path@
            &&& c.model.note.text@.len() == 0
            &&& c.model.note.links@.len() == 0
            &&& entered(c.model, CurrentPage::NoteView, c)
        },
        Event::Confirmed(false) => moved(m, CurrentPage::JournalView, c),
        _ => stays(m, page, Phase::Confirming(path), c),
    }
}

/// The outcome of writing the entity of `page`, which goes on to `next` when
/// that succeeds. A saved note joins the journal page's titles and has its
/// links read again.
pub open spec fn saving_step(
    m: Model,
    page: CurrentPage,
    next: CurrentPage,
    event: Event,
    c: Controller,
) -> bool {
    match event {
        Event::Written(true) => {
            &&& if page is NoteView {
                &&& c.model.current_date == m.current_date
                &&& c.model.trail == m.trail
                &&& c.model.journal_page.date@ == m.journal_page.date@
                &&& c.model.journal_page.description@ == m.journal_page.description@
                &&& page_added(
                    strs(m.journal_page.pages@),
                    m.note.title@,
                    strs(c.model.journal_page.pages@),
                )
                &&& c.model.note.title@ == m.note.title@
                &&& c.model.note.text@ == m.note.text@
                &&& strs(c.model.note.links@) == links_of(m.note.text@)
            } else {
                c.model == m
            }
            &&& entered(c.model, next, c)
        },
        Event::Written(false) => moved(m, CurrentPage::SaveError(Box::new(page)), c),
        _ => stays(m, page, Phase::Saving(next), c),
    }
}

/// One step of the machine from `old` on `event`, to `c`.
pub open spec fn next_state(old: Controller, event: Event, c: Controller) -> bool {
    let m = old.model;
    let page = old.current_page;
    match old.phase {
        Phase::Done => stays(m, page, Phase::Done, c),
        Phase::View => view_step(m, page, event, c),
        Phase::Listing => listing_step(m, page, event, c),
        Phase::Choosing(list) => choice_step(m, page, list, event, c),
        Phase::Loading(name) => loaded_step(m, page, name, event, c),
        Phase::Reloading(to_links) => reload_step(m, page, to_links, event, c),
        Phase::Confirming(path) => confirm_step(m, page, path, event, c),
        Phase::Saving(next) => saving_step(m, page, next, event, c),
    }
}

/// The request that the state `c` makes of the front end.
pub open spec fn requested(c: Controller, r: Request) -> bool {
    match c.phase {
        Phase::Done => r is Quit,
        Phase::Listing => r matches Request::List(d) && d@ == journal_dir(),
        Phase::Choosing(list) => r matches Request::PickLink(v) && strs(v@) == strs(list@),
        Phase::Loading(name) => r matches Request::Read(p) && p@ == match c.current_page {
            CurrentPage::MainMenu => journal_dir() + seq!['/'] + name@,
            CurrentPage::LoadTrail => trail_dir() + seq!['/'] + name@,
            _ => name@,
        },
        Phase::Reloading(_) => r matches Request::Read(p) && p@ == journal_dir() + seq!['/']
            + c.model.current_date@,
        Phase::Confirming(path) => r matches Request::ConfirmNote(p) && p@ == path@,
        Phase::Saving(_) => r matches Request::Write(p, t) && match c.current_page {
            CurrentPage::NoteView => p@ == c.model.note.title@ && t@ == c.model.note.text@,
            CurrentPage::TrailView => p@ == trail_dir() + seq!['/'] + c.model.trail.name@ && t@
                == trail_text(c.model.trail.description@, pairs(c.model.trail.hops@)),
            _ => p@ == journal_dir() + seq!['/'] + c.model.journal_page.date@ && t@
                == journal_text(
                c.model.journal_page.description@,
                strs(c.model.journal_page.pages@),
            ),
        },
        Phase::View => match c.current_page {
            CurrentPage::StartPage => r is Start,
            CurrentPage::MainMenu => r is Menu,
            CurrentPage::CreateNewJournal => r is ConfirmJournal,
            CurrentPage::JournalView => r is ShowJournal,
            CurrentPage::JournalViewReadOnly => r is ShowJournal,
            CurrentPage::JournalEditDescription => r matches Request::EditText(t) && t@
                == c.model.journal_page.description@,
            CurrentPage::JournalAddLink => r is AskPageTitle,
            CurrentPage::SelectLink(v) => r matches Request::PickLink(w) && strs(w@) == strs(v@),
            CurrentPage::NoteView => r is ShowNote,
            CurrentPage::NoteEdit => r matches Request::EditText(t) && t@ == c.model.note.text@,
            CurrentPage::SelectCreateTrail => r is TrailChoice,
            CurrentPage::CreateNewTrail => r is AskTrailName,
            CurrentPage::LoadTrail => r matches Request::List(d) && d@ == trail_dir(),
            CurrentPage::TrailView => r is ShowTrail,
            CurrentPage::TrailEditDescription => r matches Request::EditText(t) && t@
                == c.model.trail.description@,
            CurrentPage::TrailAddHop => r is AskHop,
            CurrentPage::SaveError(p) => r matches Request::SaveFailed(l) && l@ == save_label(*p),
            CurrentPage::UnexpectedError(m) => r matches Request::ShowError(x) && x@ == m@,
        },
    }
}

impl Controller {
    /// The machine at start-up, on the start page.
    pub fn new(model: Model) -> (r: Controller)
        ensures
            r.model == model,
            r.current_page is StartPage,
            r.phase is View,
    {
        Controller { model, current_page: CurrentPage::StartPage, phase: Phase::View }
    }

    /// What the front end is asked for in the current state.
    pub fn request(&self) -> (r: Request)
        ensures
            requested(*self, r),
    {
        match &self.phase {
            Phase::Done => Request::Quit,
            Phase::Listing => Request::List(journal_dir_name()),
            Phase::Choosing(list) => Request::PickLink(copy_strings(list)),
            Phase::Loading(name) => match &self.current_page {
                CurrentPage::MainMenu => Request::Read(journal_path(name.as_str())),
                CurrentPage::LoadTrail => Request::Read(trail_path(name.as_str())),
                _ => Request::Read(name.clone()),
            },
            Phase::Reloading(_) => Request::Read(journal_path(self.model.current_date.as_str())),
            Phase::Confirming(path) => Request::ConfirmNote(path.clone()),
            Phase::Saving(_) => match &self.current_page {
                CurrentPage::NoteView => Request::Write(
                    self.model.note.title.clone(),
                    self.model.note.text.clone(),
                ),
                CurrentPage::TrailView => Request::Write(
                    trail_path(self.model.trail.name.as_str()),
                    self.model.trail.to_str(),
                ),
                _ => Request::Write(
                    journal_path(self.model.journal_page.date.as_str()),
                    self.model.journal_page.to_str(),
                ),
            },
            Phase::View => match &self.current_page {
                CurrentPage::StartPage => Request::Start,
                CurrentPage::MainMenu => Request::Menu,
                CurrentPage::CreateNewJournal => Request::ConfirmJournal,
                CurrentPage::JournalView => Request::ShowJournal,
                CurrentPage::JournalViewReadOnly => Request::ShowJournal,
                CurrentPage::JournalEditDescription => Request::EditText(
                    self.model.journal_page.description.clone(),
                ),
                CurrentPage::JournalAddLink => Request::AskPageTitle,
                CurrentPage::SelectLink(v) => Request::PickLink(copy_strings(v)),
                CurrentPage::NoteView => Request::ShowNote,
                CurrentPage::NoteEdit => Request::EditText(self.model.note.text.clone()),
                CurrentPage::SelectCreateTrail => Request::TrailChoice,
                CurrentPage::CreateNewTrail => Request::AskTrailName,
                CurrentPage::LoadTrail => Request::List(trail_dir_name()),
                CurrentPage::TrailView => Request::ShowTrail,
                CurrentPage::TrailEditDescription => Request::EditText(
                    self.model.trail.description.clone(),
                ),
                CurrentPage::TrailAddHop => Request::AskHop,
                CurrentPage::SaveError(p) => Request::SaveFailed(label_of(p)),
                CurrentPage::UnexpectedError(m) => Request::ShowError(m.clone()),
            },
        }
    }

    /// Moves to `page`, whose own interaction comes next; the trail page
    /// stands only for a loaded trail, and sends on to the trail menu
    /// otherwise.
    fn enter(&mut self, page: CurrentPage)
        ensures
            final(self).model == old(self).model,
            final(self).phase is View,
            (page is TrailView && old(self).model.trail.name@.len() == 0) ==> final(self).current_page is SelectCreateTrail,
            !(page is TrailView && old(self).model.trail.name@.len() == 0) ==> final(self).current_page == page,
    {
        self.phase = Phase::View;
        let redirect = match &page {
            CurrentPage::TrailView => self.model.trail.name.unicode_len() == 0,
            _ => false,
        };
        if redirect {
            self.current_page = CurrentPage::SelectCreateTrail;
        } else {
            self.current_page = page;
        }
    }

    /// Saves the current page's entity next; on success the machine goes to `next`.
    fn save_then(&mut self, page: CurrentPage, next: CurrentPage)
        ensures
            final(self).model == old(self).model,
            final(self).current_page == page,
            final(self).phase == Phase::Saving(next),
    {
        self.current_page = page;
        self.phase = Phase::Saving(next);
    }

    /// Shows the error `message`.
    fn fail(&mut self, message: &str)
        ensures
            final(self).model == old(self).model,
            final(self).current_page matches CurrentPage::UnexpectedError(m) && m@ == message@,
            final(self).phase is View,
    {
        self.current_page = CurrentPage::UnexpectedError(String::from_str(message));
        self.phase = Phase::View;
    }

    /// Takes in the outcome of the last request, moves to the next state, and
    /// returns the next request. An outcome that does not answer the last
    /// request leaves the state as it was, except on the save-error page,
    /// which any outcome acknowledges.
    pub fn step(&mut self, event: Event) -> (r: Request)
        ensures
            next_state(*old(self), event, *final(self)),
            requested(*final(self), r),
            final(self).phase is Done <==> r is Quit,
            old(self).current_page is StartPage && old(self).phase is View && event is Done ==> {
                &&& final(self).phase is View
                &&& old(self).model.journal_page.date@.len() == 0 ==> final(self).current_page is CreateNewJournal
                &&& old(self).model.journal_page.date@.len() != 0 ==> final(self).current_page is JournalView
            },
            old(self).current_page is JournalView && old(self).phase is Saving && event
                == Event::Written(false) ==> final(self).current_page == CurrentPage::SaveError(
                Box::new(CurrentPage::JournalView),
            ) && final(self).phase is View,
            old(self).current_page is SaveError && old(self).phase is View && !(
            *old(self).current_page->SaveError_0 is TrailView) ==> final(self).current_page
                == *old(self).current_page->SaveError_0 && final(self).phase is View,
    {
        let mut page = CurrentPage::StartPage;
        let mut phase = Phase::View;
        std::mem::swap(&mut self.current_page, &mut page);
        std::mem::swap(&mut self.phase, &mut phase);
        let ghost old_page = page;
        let ghost old_phase = phase;
        match phase {
            Phase::Done => {
                self.current_page = page;
                self.phase = Phase::Done;
            },
            Phase::View => self.on_view(page, event),
            Phase::Listing => match event {
                Event::Listed(Ok(list)) => {
                    self.current_page = page;
                    self.phase = Phase::Choosing(list);
                },
                Event::Listed(Err(_)) => self.fail("Could not find any journal pages."),
                _ => {
                    self.current_page = page;
                    self.phase = Phase::Listing;
                },
            },
            Phase::Choosing(list) => self.on_choice(page, list, event),
            Phase::Loading(name) => self.on_loaded(page, name, event),
            Phase::Reloading(to_links) => match event {
                Event::Read(read) => {
                    let today = self.model.current_date.clone();
                    match load_journal_page(today.as_str(), read) {
                        Ok(j) => {
                            self.model.journal_page = j;
                            let next = if to_links {
                                CurrentPage::SelectLink(
                                    copy_strings(&self.model.journal_page.pages),
                                )
                            } else {
                                CurrentPage::MainMenu
                            };
                            self.save_then(page, next);
                        },
                        Err(_) => self.save_then(page, CurrentPage::CreateNewJournal),
                    }
                },
                _ => {
                    self.current_page = page;
                    self.phase = Phase::Reloading(to_links);
                },
            },
            Phase::Confirming(path) => match event {
                Event::Confirmed(true) => {
                    self.model.note = Note::from_str(path.as_str(), String::new());
                    proof {
                        assert(index_of(self.model.note.text@, '[') == -1);
                        assert(links_of(self.model.note.text@).len() == 0);
                        assert(strs(self.model.note.links@).len() == self.model.note.links@.len());
                    }
                    self.enter(CurrentPage::NoteView);
                },
                Event::Confirmed(false) => self.enter(CurrentPage::JournalView),
                _ => {
                    self.current_page = page;
                    self.phase = Phase::Confirming(path);
                },
            },
            Phase::Saving(next) => match event {
                Event::Written(true) => {
                    if matches!(page, CurrentPage::NoteView) {
                        let title = self.model.note.title.clone();
                        self.model.journal_page.add_page(title);
                        self.model.note.parse_links();
                    }
                    self.enter(next);
                },
                Event::Written(false) => self.enter(CurrentPage::SaveError(Box::new(page))),
                _ => {
                    self.current_page = page;
                    self.phase = Phase::Saving(next);
                },
            },
        }
        self.request()
    }

    /// The outcome of the current page's own interaction.
    fn on_view(&mut self, page: CurrentPage, event: Event)
        ensures
            view_step(old(self).model, page, event, *final(self)),
    {
        match (page, event) {
            (CurrentPage::StartPage, Event::Done) => self.open_journal(),
            (CurrentPage::MainMenu, Event::Menu(option)) => match option {
                MenuOption::Journal => self.open_journal(),
                MenuOption::LoadJournal => {
                    self.current_page = CurrentPage::MainMenu;
                    self.phase = Phase::Listing;
                },
                MenuOption::Trails => self.enter(CurrentPage::TrailView),
                MenuOption::Quit => self.finish(CurrentPage::MainMenu),
                _ => self.enter(CurrentPage::MainMenu),
            },
            (CurrentPage::CreateNewJournal, Event::Confirmed(create)) => {
                if create {
                    self.model.journal_page = Journal::dated(self.model.current_date.clone());
                    self.enter(CurrentPage::JournalView);
                } else {
                    self.enter(CurrentPage::MainMenu);
                }
            },
            (CurrentPage::JournalView, Event::Journal(m)) => match m {
                JournalMessage::EditDescription => self.save_then(
                    CurrentPage::JournalView,
                    CurrentPage::JournalEditDescription,
                ),
                JournalMessage::EditLinks => self.save_then(
                    CurrentPage::JournalView,
                    CurrentPage::JournalAddLink,
                ),
                JournalMessage::Menu => self.save_then(
                    CurrentPage::JournalView,
                    CurrentPage::MainMenu,
                ),
                JournalMessage::SelectLinks => {
                    let links = copy_strings(&self.model.journal_page.pages);
                    self.save_then(CurrentPage::JournalView, CurrentPage::SelectLink(links));
                },
                JournalMessage::Exit => self.finish(CurrentPage::JournalView),
            },
            (CurrentPage::JournalViewReadOnly, Event::Journal(m)) => match m {
                JournalMessage::Menu => {
                    self.current_page = CurrentPage::JournalViewReadOnly;
                    self.phase = Phase::Reloading(false);
                },
                JournalMessage::SelectLinks => {
                    self.current_page = CurrentPage::JournalViewReadOnly;
                    self.phase = Phase::Reloading(true);
                },
                JournalMessage::Exit => self.finish(CurrentPage::JournalViewReadOnly),
                _ => self.save_then(
                    CurrentPage::JournalViewReadOnly,
                    CurrentPage::JournalViewReadOnly,
                ),
            },
            (CurrentPage::JournalEditDescription, Event::Text(text)) => {
                self.model.journal_page.description = text;
                self.enter(CurrentPage::JournalView);
            },
            (CurrentPage::JournalAddLink, Event::Text(title)) => {
                if title.unicode_len() > 0 {
                    self.model.journal_page.add_page(title);
                }
                self.enter(CurrentPage::JournalView);
            },
            (CurrentPage::SelectLink(list), Event::Link(m)) => match m {
                LinkMessage::Exit => self.finish(CurrentPage::SelectLink(list)),
                LinkMessage::Back => self.enter(CurrentPage::JournalView),
                LinkMessage::GotoLink(entry) => {
                    let picked = parse_index(entry.as_str());
                    let n = list.len();
                    proof {
                        lemma_picks(entry@, n as int, picked);
                    }
                    match picked {
                        Some(i) if i < list.len() => {
                            let path = list[i].clone();
                            self.current_page = CurrentPage::SelectLink(list);
                            self.phase = Phase::Loading(path);
                        },
                        _ => self.enter(CurrentPage::SelectLink(list)),
                    }
                },
            },
            (CurrentPage::NoteView, Event::Note(m)) => match m {
                NoteMessage::Edit => self.save_then(CurrentPage::NoteView, CurrentPage::NoteEdit),
                NoteMessage::SelectLinks => {
                    let links = copy_strings(&self.model.note.links);
                    self.save_then(CurrentPage::NoteView, CurrentPage::SelectLink(links));
                },
                NoteMessage::Menu => self.save_then(CurrentPage::NoteView, CurrentPage::MainMenu),
                NoteMessage::Back => self.save_then(
                    CurrentPage::NoteView,
                    CurrentPage::JournalView,
                ),
                NoteMessage::Exit => self.finish(CurrentPage::MainMenu),
            },
            (CurrentPage::NoteEdit, Event::Text(text)) => {
                let title = self.model.note.title.clone();
                self.model.note = Note::from_str(title.as_str(), text);
                self.enter(CurrentPage::NoteView);
            },
            (CurrentPage::SelectCreateTrail, Event::TrailChoice(m)) => match m {
                CreateTrailMessage::CreateTrail => self.enter(CurrentPage::CreateNewTrail),
                CreateTrailMessage::LoadTrail => self.enter(CurrentPage::LoadTrail),
                CreateTrailMessage::ReturnToJournal => self.enter(CurrentPage::JournalView),
            },
            (CurrentPage::CreateNewTrail, Event::Text(name)) => {
                if name.unicode_len() > 0 {
                    self.model.trail = Trail::named(name);
                    self.enter(CurrentPage::TrailView);
                } else {
                    self.enter(CurrentPage::CreateNewTrail);
                }
            },
            (CurrentPage::LoadTrail, Event::Listed(listed)) => match listed {
                Ok(list) => {
                    self.current_page = CurrentPage::LoadTrail;
                    self.phase = Phase::Choosing(list);
                },
                Err(_) => self.fail("Trail loading error."),
            },
            (CurrentPage::TrailView, Event::Trail(m)) => match m {
                TrailMessage::AddLink => self.save_then(
                    CurrentPage::TrailView,
                    CurrentPage::TrailAddHop,
                ),
                TrailMessage::SelectLink => {
                    let links = hop_links(&self.model.trail.hops);
                    self.save_then(CurrentPage::TrailView, CurrentPage::SelectLink(links));
                },
                TrailMessage::Quit => self.finish(CurrentPage::TrailView),
                TrailMessage::MainMenu => self.save_then(
                    CurrentPage::TrailView,
                    CurrentPage::MainMenu,
                ),
                TrailMessage::RemoveLink => self.save_then(
                    CurrentPage::TrailView,
                    CurrentPage::TrailView,
                ),
                TrailMessage::EditDescription => self.save_then(
                    CurrentPage::TrailView,
                    CurrentPage::TrailEditDescription,
                ),
            },
            (CurrentPage::TrailEditDescription, Event::Text(text)) => {
                self.model.trail.description = text;
                self.enter(CurrentPage::TrailView);
            },
            (CurrentPage::TrailAddHop, Event::Hop(link, desc)) => {
                if link.unicode_len() > 0 {
                    self.model.trail.add_hop(link, desc);
                }
                self.enter(CurrentPage::TrailView);
            },
            (CurrentPage::SaveError(back), _) => self.enter(*back),
            (CurrentPage::UnexpectedError(message), Event::ErrorChoice(c)) => match c {
                DisplayErrorMessage::Menu => self.enter(CurrentPage::MainMenu),
                DisplayErrorMessage::Exit => self.finish(CurrentPage::UnexpectedError(message)),
            },
            (page, _) => {
                self.current_page = page;
                self.phase = Phase::View;
            },
        }
    }

    /// Goes to today's journal page, or offers to create it when none is open.
    fn open_journal(&mut self)
        ensures
            final(self).model == old(self).model,
            final(self).phase is View,
            old(self).model.journal_page.date@.len() == 0 ==> final(self).current_page is CreateNewJournal,
            old(self).model.journal_page.date@.len() != 0 ==> final(self).current_page is JournalView,
    {
        if self.model.journal_page.date.unicode_len() == 0 {
            self.enter(CurrentPage::CreateNewJournal);
        } else {
            self.enter(CurrentPage::JournalView);
        }
    }

    /// Stops the machine on `page`.
    fn finish(&mut self, page: CurrentPage)
        ensures
            final(self).model == old(self).model,
            final(self).current_page == page,
            final(self).phase is Done,
    {
        self.current_page = page;
        self.phase = Phase::Done;
    }

    /// The entry that the user picked from a listing.
    fn on_choice(&mut self, page: CurrentPage, list: Vec<String>, event: Event)
        ensures
            choice_step(old(self).model, page, list, event, *final(self)),
    {
        match event {
            Event::Link(m) => {
                let on_trails = matches!(page, CurrentPage::LoadTrail);
                match m {
                    LinkMessage::Exit => if on_trails {
                        self.enter(CurrentPage::LoadTrail);
                    } else {
                        self.finish(page);
                    },
                    LinkMessage::Back => if on_trails {
                        self.enter(CurrentPage::LoadTrail);
                    } else {
                        self.enter(CurrentPage::JournalView);
                    },
                    LinkMessage::GotoLink(entry) => match parse_index(entry.as_str()) {
                        Some(i) => {
                            let n = list.len();
                            proof {
                                lemma_picks(entry@, n as int, Some(i));
                            }
                            if i < list.len() {
                                let name = list[i].clone();
                                self.current_page = page;
                                self.phase = Phase::Loading(name);
                            } else if on_trails {
                                self.fail(
                                    "The number you entered does not correspond to any valid option.",
                                );
                            } else {
                                self.enter(page);
                            }
                        },
                        None => {
                            let n = list.len();
                            proof {
                                lemma_picks(entry@, n as int, None);
                            }
                            if on_trails {
                                self.fail("The input you entered is not valid.");
                            } else {
                                self.enter(page);
                            }
                        },
                    },
                }
            },
            _ => {
                self.current_page = page;
                self.phase = Phase::Choosing(list);
            },
        }
    }

    /// What reading the file of the entity named `name` gave.
    fn on_loaded(&mut self, page: CurrentPage, name: String, event: Event)
        ensures
            loaded_step(old(self).model, page, name, event, *final(self)),
    {
        match event {
            Event::Read(read) => match page {
                CurrentPage::MainMenu => match load_journal_page(name.as_str(), read) {
                    Ok(j) => {
                        self.model.journal_page = j;
                        self.enter(CurrentPage::JournalViewReadOnly);
                    },
                    Err(FileError::ReadError) => self.fail(
                        "The selected journal page does not exist.",
                    ),
                    Err(_) => self.enter(CurrentPage::MainMenu),
                },
                CurrentPage::LoadTrail => match load_trail(name.as_str(), read) {
                    Ok(t) => {
                        self.model.trail = t;
                        self.enter(CurrentPage::TrailView);
                    },
                    Err(TrailError::BodyFormatError) => self.fail(
                        "The body of the selected trail is formatted incorrectly.",
                    ),
                    Err(TrailError::DescriptionError) => self.fail(
                        "The description of the selected trail is formatted incorrectly.",
                    ),
                    Err(TrailError::FileError(FileError::EmptyFileError)) => {
                        self.model.trail = Trail::named(name);
                        self.enter(CurrentPage::TrailView);
                    },
                    Err(TrailError::FileError(FileError::ReadError)) => self.fail(
                        "Could not load trail from memory.",
                    ),
                    Err(TrailError::FileError(FileError::FormatError)) => self.fail(
                        "The trail file is corrupted.",
                    ),
                },
                page => match load_note(name.as_str(), read) {
                    Ok(n) => {
                        self.model.note = n;
                        self.enter(CurrentPage::NoteView);
                    },
                    Err(FileError::ReadError) => {
                        self.current_page = page;
                        self.phase = Phase::Confirming(name);
                    },
                    Err(_) => self.enter(page),
                },
            },
            _ => {
                self.current_page = page;
                self.phase = Phase::Loading(name);
            },
        }
    }
}

/// When writing the journal page fails, the machine moves to the save-error
/// page, which remembers the journal page; whatever comes next, it returns
/// there, with the model as it was.
pub proof fn law_save_failure_returns(
    c0: Controller,
    c1: Controller,
    e: Event,
    c2: Controller,
)
    requires
        c0.current_page is JournalView,
        c0.phase is Saving,
        next_state(c0, Event::Written(false), c1),
        next_state(c1, e, c2),
    ensures
        c1.current_page == CurrentPage::SaveError(Box::new(CurrentPage::JournalView)),
        c2.current_page is JournalView,
        c2.phase is View,
        c2.model == c0.model,
{
}

/// From the start page the machine offers to create today's journal page
/// when none is open, and shows it otherwise.
pub proof fn law_start_page(c0: Controller, c1: Controller)
    requires
        c0.current_page is StartPage,
        c0.phase is View,
        next_state(c0, Event::Done, c1),
    ensures
        c0.model.journal_page.date@.len() == 0 ==> c1.current_page is CreateNewJournal,
        c0.model.journal_page.date@.len() != 0 ==> c1.current_page is JournalView,
        c1.model == c0.model,
{
}

} // verus!
