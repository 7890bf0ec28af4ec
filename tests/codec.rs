use trailnotes::error::{FileError, TrailError};
use trailnotes::journal::Journal;
use trailnotes::note::{extract_links, Note};
use trailnotes::trail::Trail;

#[test]
fn note_links_in_order() {
    let n = Note::from_str("n", String::from("a [x] b\n[y] c"));
    assert_eq!(n.links, vec![String::from("x"), String::from("y")]);
    assert_eq!(n.title, "n");
    assert_eq!(n.text, "a [x] b\n[y] c");
}

#[test]
fn note_unmatched_bracket_gives_no_link() {
    let n = Note::from_str("n", String::from("a [x b"));
    assert!(n.links.is_empty());
}

#[test]
fn note_link_spans_lines_and_keeps_duplicates() {
    assert_eq!(extract_links("[a\nb] [c] [c]"), vec!["a\nb", "c", "c"]);
    assert_eq!(extract_links("[a [b] c]"), vec!["a [b"]);
    assert_eq!(extract_links(""), Vec::<String>::new());
}

#[test]
fn note_parse_links_follows_text() {
    let mut n = Note::from_str("n", String::new());
    n.text = String::from("see [one] and [two]");
    n.parse_links();
    assert_eq!(n.links, vec!["one", "two"]);
}

#[test]
fn journal_scenario_load_and_save() {
    let j = Journal::from_str("2024-01-02", "Hello\n---\n[a]\n[b]\n").unwrap();
    assert_eq!(j.date, "2024-01-02");
    assert_eq!(j.description, "Hello");
    assert_eq!(j.pages, vec!["a", "b"]);
    assert_eq!(j.to_str(), "Hello\n---\n[a]\n[b]\n");
}

#[test]
fn journal_without_separator_is_format_error() {
    assert!(matches!(Journal::from_str("d", "no separator"), Err(FileError::FormatError)));
}

#[test]
fn journal_with_no_pages() {
    let j = Journal::from_str("d", "desc\n---\n").unwrap();
    assert_eq!(j.description, "desc");
    assert!(j.pages.is_empty());
    let j = Journal::from_str("d", "\n---").unwrap();
    assert_eq!(j.description, "");
    assert!(j.pages.is_empty());
}

#[test]
fn journal_lines_without_brackets_and_blank_lines() {
    let j = Journal::from_str("d", "x\n---\nplain\n\n[c]tail\n").unwrap();
    assert_eq!(j.pages, vec!["plain", "", "c"]);
}

#[test]
fn journal_round_trip() {
    let mut j = Journal::new();
    j.date = String::from("2023-05-06");
    j.description = String::from("two\nlines");
    j.pages = vec![String::from("alpha"), String::from("beta gamma")];
    let back = Journal::from_str("2023-05-06", &j.to_str()).unwrap();
    assert_eq!(back.description, j.description);
    assert_eq!(back.pages, j.pages);
    assert_eq!(back.date, j.date);
}

#[test]
fn journal_add_page_sorted_and_idempotent() {
    let mut j = Journal::new();
    j.add_page(String::from("m"));
    j.add_page(String::from("c"));
    j.add_page(String::from("x"));
    assert_eq!(j.pages, vec!["c", "m", "x"]);
    j.add_page(String::from("m"));
    assert_eq!(j.pages, vec!["c", "m", "x"]);
    assert_eq!(j.pages.len(), 3);
}

#[test]
fn trail_malformed_body() {
    assert!(matches!(Trail::from_str("t", "d\n---\n[x]\n()\n->"), Err(TrailError::BodyFormatError)));
    assert!(matches!(Trail::from_str("t", "d\n---\n[]\n(y)\n->\n"), Err(TrailError::BodyFormatError)));
}

#[test]
fn trail_missing_separator() {
    assert!(matches!(Trail::from_str("t", "no separator here"), Err(TrailError::DescriptionError)));
}

#[test]
fn trail_empty_text() {
    assert!(matches!(
        Trail::from_str("t", ""),
        Err(TrailError::FileError(FileError::EmptyFileError))
    ));
}

#[test]
fn trail_parse_and_serialize() {
    let text = "About\n---\n[a]\n(first)\n->\n[b]\n(second)\n->\n";
    let t = Trail::from_str("walk", text).unwrap();
    assert_eq!(t.name, "walk");
    assert_eq!(t.description, "About");
    assert_eq!(
        t.hops,
        vec![
            (String::from("a"), String::from("first")),
            (String::from("b"), String::from("second")),
        ]
    );
    assert_eq!(t.to_str(), text);
}

#[test]
fn trail_without_hops_and_stray_lines() {
    let t = Trail::from_str("t", "d\n---").unwrap();
    assert_eq!(t.description, "d");
    assert!(t.hops.is_empty());
    let t = Trail::from_str("t", "d\n---\nnoise\n[x]\n(y)\n->").unwrap();
    assert_eq!(t.hops, vec![(String::from("x"), String::from("y"))]);
}

#[test]
fn trail_round_trip() {
    let mut t = Trail::named(String::from("t"));
    t.description = String::from("line one\nline two");
    t.hops = vec![(String::from("n1"), String::from("why")), (String::from("n2"), String::from("then"))];
    let back = Trail::from_str("t", &t.to_str()).unwrap();
    assert_eq!(back.description, t.description);
    assert_eq!(back.hops, t.hops);
}

#[test]
fn trail_add_hop_sorted_and_idempotent() {
    let mut t = Trail::named(String::from("t"));
    t.add_hop(String::from("b"), String::from("1"));
    t.add_hop(String::from("a"), String::from("2"));
    t.add_hop(String::from("a"), String::from("1"));
    t.add_hop(String::from("b"), String::from("1"));
    assert_eq!(
        t.hops,
        vec![
            (String::from("a"), String::from("1")),
            (String::from("a"), String::from("2")),
            (String::from("b"), String::from("1")),
        ]
    );
}
