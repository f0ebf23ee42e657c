use switcher::project::Project;
use switcher::session::{clean_input, strip_newlines, Action, Key, Row, Session};

fn project(name: &str, path: &str) -> Project {
    Project::new(name.to_string(), path.to_string())
}

fn three() -> Session {
    Session::new(vec![project("a", "/a"), project("b", "/b"), project("c", "/c")])
}

fn row(text: &str, highlighted: bool) -> Row {
    Row { text: text.to_string(), highlighted }
}

#[test]
fn starts_viewing_at_top() {
    let s = three();
    assert_eq!(s.cursor(), 0);
    assert!(!s.is_alternate());
    assert!(s.is_running());
}

#[test]
fn k_at_top_is_no_op() {
    let mut s = three();
    assert_eq!(s.handle(Key::Char('k')), Action::Stay);
    assert_eq!(s.cursor(), 0);
}

#[test]
fn j_at_bottom_is_no_op() {
    let mut s = three();
    s.handle(Key::Char('j'));
    s.handle(Key::Char('j'));
    assert_eq!(s.cursor(), 2);
    s.handle(Key::Char('j'));
    assert_eq!(s.cursor(), 2);
}

#[test]
fn j_on_empty_list_is_no_op() {
    let mut s = Session::new(Vec::new());
    assert_eq!(s.handle(Key::Char('j')), Action::Stay);
    assert_eq!(s.cursor(), 0);
}

#[test]
fn moves_stay_in_range() {
    let mut s = three();
    let keys = "jjjjkjkkkkjjjjjjkj";
    for c in keys.chars() {
        s.handle(Key::Char(c));
        assert!(s.cursor() < 3);
    }
    assert_eq!(s.cursor(), 2);
    assert_eq!(s.projects().len(), 3);
}

#[test]
fn delete_under_cursor() {
    let mut s = three();
    s.handle(Key::Char('j'));
    s.handle(Key::Char('d'));
    assert_eq!(s.projects(), &vec![project("a", "/a"), project("c", "/c")]);
    assert_eq!(s.cursor(), 1);
}

#[test]
fn delete_last_entry_moves_cursor_up() {
    let mut s = three();
    s.handle(Key::Char('j'));
    s.handle(Key::Char('j'));
    s.handle(Key::Char('d'));
    assert_eq!(s.projects().len(), 2);
    assert_eq!(s.cursor(), 1);
}

#[test]
fn delete_only_entry_leaves_empty_list() {
    let mut s = Session::new(vec![project("a", "/a")]);
    assert_eq!(s.handle(Key::Char('d')), Action::Stay);
    assert!(s.projects().is_empty());
    assert_eq!(s.cursor(), 0);
    assert_eq!(s.handle(Key::Char('d')), Action::Stay);
    assert!(s.projects().is_empty());
}

#[test]
fn insert_appends_cleaned_answers() {
    let mut s = three();
    s.handle(Key::Char('j'));
    assert_eq!(s.handle(Key::Char('i')), Action::PromptInsert);
    s.insert("  notes \n", "\t/home/me/notes\n");
    assert_eq!(s.projects().len(), 4);
    assert_eq!(s.projects()[3], project("notes", "/home/me/notes"));
    assert_eq!(s.projects()[0], project("a", "/a"));
    assert_eq!(s.cursor(), 1);
}

#[test]
fn insert_into_empty_list() {
    let mut s = Session::new(Vec::new());
    s.insert("x\n", "y\n");
    assert_eq!(s.into_projects(), vec![project("x", "y")]);
}

#[test]
fn clean_input_trims_and_drops_newlines() {
    assert_eq!(clean_input("  hello world \n"), "hello world");
    assert_eq!(clean_input("\n"), "");
    assert_eq!(strip_newlines("a\nb\n"), "ab");
}

#[test]
fn tab_twice_restores_view() {
    let mut s = three();
    s.handle(Key::Char('j'));
    let before = s.frame();
    assert_eq!(s.handle(Key::Tab), Action::EnterAlternate);
    assert!(s.is_alternate());
    assert_eq!(s.frame(), vec![row("Alternate Screen", false)]);
    assert_eq!(s.handle(Key::Tab), Action::LeaveAlternate);
    assert!(!s.is_alternate());
    assert_eq!(s.frame(), before);
}

#[test]
fn frame_highlights_cursor() {
    let mut s = three();
    s.handle(Key::Char('j'));
    assert_eq!(
        s.frame(),
        vec![row("a : /a", false), row("b : /b", true), row("c : /c", false)]
    );
}

#[test]
fn frame_of_empty_list() {
    assert_eq!(Session::new(Vec::new()).frame(), Vec::<Row>::new());
}

#[test]
fn enter_opens_selected_and_ends() {
    let mut s = three();
    s.handle(Key::Char('j'));
    s.handle(Key::Char('j'));
    assert_eq!(s.handle(Key::Enter), Action::Open(2));
    assert!(!s.is_running());
    assert_eq!(s.handle(Key::Char('k')), Action::Stay);
    assert_eq!(s.cursor(), 2);
}

#[test]
fn enter_on_empty_list_is_no_op() {
    let mut s = Session::new(Vec::new());
    assert_eq!(s.handle(Key::Enter), Action::Stay);
    assert!(s.is_running());
}

#[test]
fn q_quits() {
    let mut s = three();
    assert_eq!(s.handle(Key::Char('q')), Action::Quit);
    assert!(!s.is_running());
    assert_eq!(s.handle(Key::Char('d')), Action::Stay);
    assert_eq!(s.projects().len(), 3);
}

#[test]
fn other_keys_are_ignored() {
    let mut s = three();
    s.handle(Key::Char('j'));
    assert_eq!(s.handle(Key::Char('x')), Action::Stay);
    assert_eq!(s.handle(Key::Other), Action::Stay);
    assert_eq!(s.cursor(), 1);
    assert_eq!(s.projects().len(), 3);
}

#[test]
fn clean_input_trims_unicode_whitespace() {
    assert_eq!(clean_input("\u{3000}\u{a0}web\u{2003}\t\n"), "web");
    assert_eq!(clean_input("a\u{200b}"), "a\u{200b}");
}
