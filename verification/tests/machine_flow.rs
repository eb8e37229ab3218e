use fsbrowse::chars::chars_of;
use fsbrowse::entry::Entry;
use fsbrowse::machine::{apply_enter, apply_load, browsing_step, Action, Key};
use fsbrowse::state::{BrowserState, ColorRule, Mode};

fn entry(name: &str, parent: &str, is_directory: bool) -> Entry {
    Entry::new(chars_of(name), chars_of(&format!("{}/{}", parent, name)), is_directory, 4, 0)
}

fn text(v: &Vec<char>) -> String {
    v.iter().collect()
}

fn browser(cwd: &str, rows: usize) -> BrowserState {
    BrowserState::init(chars_of(cwd), rows, Vec::new())
}

fn tmp_listing() -> Vec<Entry> {
    vec![
        entry("a", "/tmp", false),
        entry("b", "/tmp", false),
        entry("c", "/tmp", false),
        entry("sub", "/tmp", true),
    ]
}

#[test]
fn fresh_session_starts_browsing() {
    let st = browser("/tmp", 24);
    assert!(matches!(st.mode, Mode::Browsing));
    assert_eq!(st.pointed, 0);
    assert_eq!(st.first, 0);
    assert!(st.entries.is_empty());
    assert!(!st.show_hidden);
    assert!(st.error.is_none());
}

#[test]
fn walking_down_then_entering_a_directory() {
    let mut st = browser("/tmp", 24);
    apply_load(&mut st, chars_of("/tmp"), Ok(tmp_listing()));
    assert_eq!(st.entries.len(), 4);
    assert_eq!(text(&st.entries[0].name), "a");

    browsing_step(&mut st, Key::Char('j'));
    browsing_step(&mut st, Key::Char('j'));
    assert_eq!(st.pointed, 2);
    assert_eq!(text(&st.entries[st.pointed].name), "c");

    // activating the plain file fails to list and leaves the session
    // where it was, with the failure on record
    let r = browsing_step(&mut st, Key::Char('l'));
    let path = match r {
        Action::Enter { path } => path,
        _ => panic!("expected an enter request"),
    };
    assert_eq!(text(&path), "/tmp/c");
    apply_enter(&mut st, path, Err(String::from("not a directory")));
    assert_eq!(text(&st.cwd), "/tmp");
    assert_eq!(st.pointed, 2);
    assert!(st.error.is_some());

    // one step further down sits the directory; entering it resets the
    // viewport and clears the error
    browsing_step(&mut st, Key::Char('j'));
    assert_eq!(st.pointed, 3);
    assert_eq!(text(&st.entries[st.pointed].name), "sub");
    let r = browsing_step(&mut st, Key::Char('l'));
    let path = match r {
        Action::Enter { path } => path,
        _ => panic!("expected an enter request"),
    };
    assert_eq!(text(&path), "/tmp/sub");
    apply_enter(&mut st, path, Ok(Vec::new()));
    assert_eq!(text(&st.cwd), "/tmp/sub");
    assert_eq!(st.pointed, 0);
    assert_eq!(st.first, 0);
    assert!(st.error.is_none());
}

#[test]
fn quit_keys_end_the_session() {
    let mut st = browser("/tmp", 24);
    assert!(matches!(browsing_step(&mut st, Key::Escape), Action::Quit));
    assert!(matches!(browsing_step(&mut st, Key::Char('q')), Action::Quit));
}

#[test]
fn parent_key_asks_for_the_parent_listing() {
    let mut st = browser("/usr/local", 24);
    let r = browsing_step(&mut st, Key::Char('h'));
    match r {
        Action::Load { path } => assert_eq!(text(&path), "/usr"),
        _ => panic!("expected a load request"),
    }
    // at the root there is no parent; the root is listed again
    let mut st = browser("/", 24);
    let r = browsing_step(&mut st, Key::Left);
    match r {
        Action::Load { path } => assert_eq!(text(&path), "/"),
        _ => panic!("expected a load request"),
    }
}

#[test]
fn hidden_toggle_reloads_and_shows_dotfiles() {
    let mut st = browser("/d", 24);
    apply_load(&mut st, chars_of("/d"), Ok(vec![
        entry(".git", "/d", true),
        entry("README", "/d", false),
    ]));
    assert_eq!(st.entries.len(), 1);
    let r = browsing_step(&mut st, Key::Char('.'));
    let path = match r {
        Action::Load { path } => path,
        _ => panic!("expected a reload request"),
    };
    assert_eq!(text(&path), "/d");
    assert!(st.show_hidden);
    apply_load(&mut st, path, Ok(vec![
        entry(".git", "/d", true),
        entry("README", "/d", false),
    ]));
    assert_eq!(st.entries.len(), 2);
    assert_eq!(text(&st.entries[0].name), ".git");
    assert_eq!(text(&st.entries[1].name), "README");
}

#[test]
fn detail_toggle_only_repaints() {
    let mut st = browser("/tmp", 24);
    let r = browsing_step(&mut st, Key::Char('d'));
    assert!(matches!(r, Action::Redraw));
    assert!(st.show_detail);
}

#[test]
fn backtick_enters_roaming_from_the_session_directory() {
    let mut st = browser("/usr", 24);
    st.error = Some(String::from("stale"));
    let r = browsing_step(&mut st, Key::Char('`'));
    assert!(matches!(st.mode, Mode::Roaming));
    assert!(st.error.is_none());
    assert_eq!(text(&st.roam_path), "/usr/");
    assert_eq!(st.cursor_shift, 0);
    match r {
        Action::Roam { candidates } => {
            assert_eq!(text(&candidates[0]), "/usr/");
            assert_eq!(text(&candidates[candidates.len() - 1]), "/");
        },
        _ => panic!("expected a roam request"),
    }
}

#[test]
fn space_marks_the_pointed_entry() {
    let mut st = browser("/tmp", 24);
    apply_load(&mut st, chars_of("/tmp"), Ok(tmp_listing()));
    browsing_step(&mut st, Key::Char('j'));
    let r = browsing_step(&mut st, Key::Char(' '));
    assert!(matches!(r, Action::Nothing));
    assert_eq!(text(&st.selected_buffer), "/tmp/b");
    // with nothing loaded the mark is a no-op
    let mut st = browser("/tmp", 24);
    browsing_step(&mut st, Key::Char(' '));
    assert_eq!(text(&st.selected_buffer), "");
}

#[test]
fn resize_updates_the_rows() {
    let mut st = browser("/tmp", 24);
    let r = browsing_step(&mut st, Key::Resize(31));
    assert!(matches!(r, Action::Redraw));
    assert_eq!(st.rows, 31);
}

#[test]
fn unknown_keys_are_ignored() {
    let mut st = browser("/tmp", 24);
    assert!(matches!(browsing_step(&mut st, Key::Char('x')), Action::Nothing));
    assert!(matches!(browsing_step(&mut st, Key::Home), Action::Nothing));
    assert_eq!(text(&st.cwd), "/tmp");
}

#[test]
fn load_failure_keeps_entries_and_stores_the_error() {
    let mut st = browser("/tmp", 24);
    apply_load(&mut st, chars_of("/tmp"), Ok(tmp_listing()));
    apply_load(&mut st, chars_of("/root"), Err(String::from("permission denied")));
    assert_eq!(text(&st.cwd), "/tmp");
    assert_eq!(st.entries.len(), 4);
    assert_eq!(st.error.as_deref(), Some("permission denied"));
    // and the next successful load clears it
    apply_load(&mut st, chars_of("/tmp"), Ok(tmp_listing()));
    assert!(st.error.is_none());
}

#[test]
fn reload_clamps_a_selection_past_the_end() {
    let mut st = browser("/tmp", 24);
    apply_load(&mut st, chars_of("/tmp"), Ok(tmp_listing()));
    browsing_step(&mut st, Key::Char('j'));
    browsing_step(&mut st, Key::Char('j'));
    browsing_step(&mut st, Key::Char('j'));
    assert_eq!(st.pointed, 3);
    apply_load(&mut st, chars_of("/tmp"), Ok(vec![entry("a", "/tmp", false)]));
    assert_eq!(st.pointed, 0);
    assert_eq!(st.first, 0);
}

#[test]
fn directory_attributes_come_from_the_scheme() {
    let scheme = vec![ColorRule { code: chars_of("di"), attrs: vec![1, 34] }];
    let st = BrowserState::init(chars_of("/"), 24, scheme);
    let d = entry("sub", "/tmp", true);
    let f = entry("a", "/tmp", false);
    assert_eq!(st.attributes_for(&d, &chars_of("di")), Some(vec![1, 34]));
    assert_eq!(st.attributes_for(&f, &chars_of("di")), None);
    assert_eq!(st.attributes_for(&d, &chars_of("ln")), None);
}
