use trailnotes::controller::{parse_index, Controller, CurrentPage, Event, Phase, Request};
use trailnotes::date::date_string;
use trailnotes::error::FileError;
use trailnotes::messages::{JournalMessage, LinkMessage, MenuOption, TrailMessage};
use trailnotes::model::Model;
use trailnotes::storage::{journal_path, load_trail, trail_path};

fn controller(read: Result<String, FileError>) -> Controller {
    Controller::new(Model::new(String::from("2024-03-04"), read))
}

#[test]
fn start_without_journal_offers_creation() {
    let mut c = controller(Err(FileError::ReadError));
    assert!(matches!(c.request(), Request::Start));
    let r = c.step(Event::Done);
    assert!(matches!(c.current_page, CurrentPage::CreateNewJournal));
    assert!(matches!(r, Request::ConfirmJournal));
}

#[test]
fn start_with_journal_shows_it() {
    let mut c = controller(Ok(String::from("d\n---\n[a]\n")));
    assert_eq!(c.model.journal_page.date, "2024-03-04");
    let r = c.step(Event::Done);
    assert!(matches!(c.current_page, CurrentPage::JournalView));
    assert!(matches!(r, Request::ShowJournal));
}

#[test]
fn unparsable_journal_counts_as_none() {
    let c = controller(Ok(String::from("no separator")));
    assert_eq!(c.model.journal_page.date, "");
}

#[test]
fn save_failure_redirects_and_returns() {
    let mut c = controller(Ok(String::from("d\n---\n")));
    c.step(Event::Done);
    let r = c.step(Event::Journal(JournalMessage::Menu));
    match r {
        Request::Write(path, text) => {
            assert_eq!(path, "journal/2024-03-04");
            assert_eq!(text, "d\n---\n");
        }
        _ => panic!("expected a write"),
    }
    let r = c.step(Event::Written(false));
    match &c.current_page {
        CurrentPage::SaveError(p) => assert!(matches!(**p, CurrentPage::JournalView)),
        _ => panic!("expected the save error page"),
    }
    match r {
        Request::SaveFailed(label) => assert_eq!(label, "journal page"),
        _ => panic!("expected the save error request"),
    }
    c.step(Event::Done);
    assert!(matches!(c.current_page, CurrentPage::JournalView));
}

#[test]
fn save_success_goes_on() {
    let mut c = controller(Ok(String::from("d\n---\n")));
    c.step(Event::Done);
    c.step(Event::Journal(JournalMessage::Menu));
    let r = c.step(Event::Written(true));
    assert!(matches!(c.current_page, CurrentPage::MainMenu));
    assert!(matches!(r, Request::Menu));
}

#[test]
fn create_journal_then_add_links() {
    let mut c = controller(Err(FileError::ReadError));
    c.step(Event::Done);
    c.step(Event::Confirmed(true));
    assert_eq!(c.model.journal_page.date, "2024-03-04");
    c.step(Event::Journal(JournalMessage::EditLinks));
    let r = c.step(Event::Written(true));
    assert!(matches!(r, Request::AskPageTitle));
    c.step(Event::Text(String::from("zeta")));
    assert!(matches!(c.current_page, CurrentPage::JournalView));
    c.step(Event::Journal(JournalMessage::EditLinks));
    c.step(Event::Written(true));
    c.step(Event::Text(String::from("alpha")));
    c.step(Event::Journal(JournalMessage::EditLinks));
    c.step(Event::Written(true));
    c.step(Event::Text(String::from("zeta")));
    assert_eq!(c.model.journal_page.pages, vec!["alpha", "zeta"]);
}

#[test]
fn missing_note_can_be_created() {
    let mut c = controller(Ok(String::from("d\n---\n[n1]\n")));
    c.step(Event::Done);
    c.step(Event::Journal(JournalMessage::SelectLinks));
    let r = c.step(Event::Written(true));
    match r {
        Request::PickLink(list) => assert_eq!(list, vec!["n1"]),
        _ => panic!("expected a link menu"),
    }
    let r = c.step(Event::Link(LinkMessage::GotoLink(String::from("0"))));
    match r {
        Request::Read(path) => assert_eq!(path, "n1"),
        _ => panic!("expected a read"),
    }
    let r = c.step(Event::Read(Err(FileError::ReadError)));
    assert!(matches!(r, Request::ConfirmNote(_)));
    c.step(Event::Confirmed(true));
    assert!(matches!(c.current_page, CurrentPage::NoteView));
    assert_eq!(c.model.note.title, "n1");
}

#[test]
fn bad_index_keeps_link_menu() {
    let mut c = controller(Ok(String::from("d\n---\n[n1]\n")));
    c.step(Event::Done);
    c.step(Event::Journal(JournalMessage::SelectLinks));
    c.step(Event::Written(true));
    c.step(Event::Link(LinkMessage::GotoLink(String::from("7"))));
    assert!(matches!(c.current_page, CurrentPage::SelectLink(_)));
    assert!(matches!(c.phase, Phase::View));
    c.step(Event::Link(LinkMessage::GotoLink(String::from("x"))));
    assert!(matches!(c.current_page, CurrentPage::SelectLink(_)));
}

#[test]
fn trails_without_trail_open_the_trail_menu() {
    let mut c = controller(Ok(String::from("d\n---\n")));
    c.step(Event::Done);
    c.step(Event::Journal(JournalMessage::Menu));
    c.step(Event::Written(true));
    let r = c.step(Event::Menu(MenuOption::Trails));
    assert!(matches!(c.current_page, CurrentPage::SelectCreateTrail));
    assert!(matches!(r, Request::TrailChoice));
}

#[test]
fn quit_from_menu_stops() {
    let mut c = controller(Ok(String::from("d\n---\n")));
    c.step(Event::Done);
    c.step(Event::Journal(JournalMessage::Menu));
    c.step(Event::Written(true));
    let r = c.step(Event::Menu(MenuOption::Quit));
    assert!(matches!(r, Request::Quit));
    assert!(matches!(c.step(Event::Done), Request::Quit));
}

#[test]
fn trail_save_failure_is_labelled() {
    let mut c = controller(Ok(String::from("d\n---\n")));
    c.model.trail.name = String::from("walk");
    c.current_page = CurrentPage::TrailView;
    let r = c.step(Event::Trail(TrailMessage::MainMenu));
    match r {
        Request::Write(path, text) => {
            assert_eq!(path, "trails/walk");
            assert_eq!(text, "\n---\n");
        }
        _ => panic!("expected a write"),
    }
    match c.step(Event::Written(false)) {
        Request::SaveFailed(label) => assert_eq!(label, "trail"),
        _ => panic!("expected the save error request"),
    }
}

#[test]
fn empty_trail_file_becomes_new_trail() {
    let t = load_trail("walk", Ok(String::new()));
    assert!(t.is_err());
    let mut c = controller(Ok(String::from("d\n---\n")));
    c.current_page = CurrentPage::LoadTrail;
    c.step(Event::Listed(Ok(vec![String::from("walk")])));
    let r = c.step(Event::Link(LinkMessage::GotoLink(String::from("0"))));
    match r {
        Request::Read(path) => assert_eq!(path, "trails/walk"),
        _ => panic!("expected a read"),
    }
    c.step(Event::Read(Ok(String::new())));
    assert!(matches!(c.current_page, CurrentPage::TrailView));
    assert_eq!(c.model.trail.name, "walk");
}

#[test]
fn invalid_trail_choice_is_an_error() {
    let mut c = controller(Ok(String::from("d\n---\n")));
    c.current_page = CurrentPage::LoadTrail;
    c.step(Event::Listed(Ok(vec![String::from("walk")])));
    let r = c.step(Event::Link(LinkMessage::GotoLink(String::from("abc"))));
    match r {
        Request::ShowError(m) => assert_eq!(m, "The input you entered is not valid."),
        _ => panic!("expected an error"),
    }
}

#[test]
fn index_parsing() {
    assert_eq!(parse_index("12"), Some(12));
    assert_eq!(parse_index("+3"), Some(3));
    assert_eq!(parse_index(""), None);
    assert_eq!(parse_index("+"), None);
    assert_eq!(parse_index("-1"), None);
    assert_eq!(parse_index("1a"), None);
    assert_eq!(parse_index("99999999999999999999999"), None);
}

#[test]
fn date_names() {
    assert_eq!(date_string(2024, 3, 4), "2024-03-04");
    assert_eq!(date_string(987, 12, 31), "987-12-31");
    assert_eq!(date_string(-5, 1, 10), "-5-01-10");
}

#[test]
fn storage_paths() {
    assert_eq!(journal_path("2024-01-01"), "journal/2024-01-01");
    assert_eq!(trail_path("walk"), "trails/walk");
}

#[test]
fn todays_date_has_date_shape() {
    let d = trailnotes::date::todays_date();
    let parts: Vec<&str> = d.rsplitn(3, '-').collect();
    assert_eq!(parts.len(), 3);
    let day: u32 = parts[0].parse().unwrap();
    let month: u32 = parts[1].parse().unwrap();
    assert_eq!(parts[0].len(), 2);
    assert_eq!(parts[1].len(), 2);
    assert!((1..=12).contains(&month));
    assert!((1..=31).contains(&day));
    assert!(parts[2].parse::<i32>().is_ok());
}

#[test]
fn todays_journal_is_empty_and_dated() {
    let j = trailnotes::journal::Journal::todays_journal();
    assert_eq!(j.date.len(), 10);
    assert_eq!(j.description, "");
    assert!(j.pages.is_empty());
}

#[test]
fn save_error_returns_whatever_comes() {
    let mut c = controller(Ok(String::from("d\n---\n")));
    c.step(Event::Done);
    c.step(Event::Journal(JournalMessage::SelectLinks));
    c.step(Event::Written(false));
    assert!(matches!(c.current_page, CurrentPage::SaveError(_)));
    let r = c.step(Event::Confirmed(true));
    assert!(matches!(c.current_page, CurrentPage::JournalView));
    assert!(matches!(r, Request::ShowJournal));
}
