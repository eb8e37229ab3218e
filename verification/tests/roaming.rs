use fsbrowse::chars::chars_of;
use fsbrowse::entry::Entry;
use fsbrowse::machine::{apply_roam, roaming_step, Action, Key};
use fsbrowse::paths::{ancestor_candidates, parent_exec, word_delete};
use fsbrowse::state::{BrowserState, Mode};

fn dir(name: &str, parent: &str) -> Entry {
    Entry::new(chars_of(name), chars_of(&format!("{}/{}", parent, name)), true, 0, 0)
}

fn text(v: &Vec<char>) -> String {
    v.iter().collect()
}

/// The probe an event loop runs: the first candidate that names an
/// existing directory, or the root when none does.
fn probe(candidates: &Vec<Vec<char>>, existing: &[&str]) -> Vec<char> {
    for c in candidates {
        if existing.iter().any(|e| chars_of(e) == *c) {
            return c.clone();
        }
    }
    vec!['/']
}

fn roamer(cwd: &str) -> BrowserState {
    let mut st = BrowserState::init(chars_of(cwd), 24, Vec::new());
    st.mode = Mode::Roaming;
    st
}

const TREE: [&str; 4] = ["/", "/usr", "/usr/local", "/usr/lib"];

#[test]
fn parents_run_longest_first() {
    let cands = ancestor_candidates(&chars_of("/usr/lo"));
    let as_text: Vec<String> = cands.iter().map(text).collect();
    assert_eq!(as_text, vec!["/usr/lo", "/usr", "/"]);
}

#[test]
fn parent_of_root_is_none() {
    assert!(parent_exec(&chars_of("/")).is_none());
    assert_eq!(text(&parent_exec(&chars_of("/usr/local/")).unwrap()), "/usr");
    // a doubled root prefix is kept, as the platform path rules keep it
    assert_eq!(text(&parent_exec(&chars_of("//a//b")).unwrap()), "//a");
}

#[test]
fn typing_a_prefix_narrows_the_listing() {
    let mut st = roamer("/usr");
    st.roam_path = chars_of("/usr/lo");
    let cands = ancestor_candidates(&st.roam_path);
    let parent = probe(&cands, &TREE);
    assert_eq!(text(&parent), "/usr");
    let listing = vec![dir("local", "/usr"), dir("lib", "/usr")];
    apply_roam(&mut st, parent, Ok(listing));
    assert_eq!(st.entries.len(), 1);
    assert_eq!(text(&st.entries[0].name), "local");
    assert!(!st.no_match);
    assert_eq!(text(&st.cwd), "/usr");
    assert_eq!(st.pointed, 0);
    assert_eq!(st.first, 0);
}

#[test]
fn a_prefix_no_name_carries_empties_and_flags() {
    let mut st = roamer("/usr");
    st.roam_path = chars_of("/usr/zz");
    let parent = probe(&ancestor_candidates(&st.roam_path), &TREE);
    assert_eq!(text(&parent), "/usr");
    let listing = vec![dir("local", "/usr"), dir("lib", "/usr")];
    apply_roam(&mut st, parent, Ok(listing));
    assert!(st.entries.is_empty());
    assert!(st.no_match);
}

#[test]
fn a_missing_path_falls_back_to_an_existing_parent() {
    let mut st = roamer("/");
    st.roam_path = chars_of("/nonexistent/path");
    let parent = probe(&ancestor_candidates(&st.roam_path), &TREE);
    assert_eq!(text(&parent), "/");
    let listing = vec![dir("usr", ""), dir("etc", "")];
    apply_roam(&mut st, parent, Ok(listing));
    // the root's children survive the load but none carries the typed
    // remainder, so the narrowing empties the listing
    assert!(st.entries.is_empty());
    assert!(st.no_match);
    assert_eq!(text(&st.cwd), "/");
}

#[test]
fn backspace_after_escape_deletes_a_word() {
    let mut st = roamer("/usr/local");
    st.escaped = true;
    st.roam_path = chars_of("/usr/local/bin");
    let r = roaming_step(&mut st, Key::Backspace);
    assert_eq!(text(&st.roam_path), "/usr/local");
    assert!(!st.escaped);
    assert!(matches!(r, Action::Roam { .. }));
}

#[test]
fn word_delete_rejoins_under_the_root() {
    assert_eq!(text(&word_delete(&chars_of("/usr/local/bin"))), "/usr/local");
    assert_eq!(text(&word_delete(&chars_of("/usr/local/"))), "/usr");
    assert_eq!(text(&word_delete(&chars_of("/usr"))), "/");
    assert_eq!(text(&word_delete(&chars_of("/"))), "/");
    assert_eq!(text(&word_delete(&chars_of("//a//b/c"))), "/a/b");
}

#[test]
fn plain_backspace_deletes_before_the_cursor() {
    let mut st = roamer("/usr");
    st.roam_path = chars_of("/usr/l");
    let r = roaming_step(&mut st, Key::Backspace);
    assert_eq!(text(&st.roam_path), "/usr/");
    assert!(matches!(r, Action::Roam { .. }));
    // with the cursor two places back, the character before it goes
    let mut st = roamer("/usr");
    st.roam_path = chars_of("/usr/l");
    st.cursor_shift = 2;
    roaming_step(&mut st, Key::Backspace);
    assert_eq!(text(&st.roam_path), "/us/l");
}

#[test]
fn typed_characters_land_at_the_cursor() {
    let mut st = roamer("/usr");
    st.roam_path = chars_of("/usr/");
    let r = roaming_step(&mut st, Key::Char('l'));
    assert_eq!(text(&st.roam_path), "/usr/l");
    assert!(matches!(r, Action::Roam { .. }));
    let mut st = roamer("/usr");
    st.roam_path = chars_of("/usr/l");
    st.cursor_shift = 1;
    roaming_step(&mut st, Key::Char('x'));
    assert_eq!(text(&st.roam_path), "/usr/xl");
}

#[test]
fn cursor_moves_are_bounded() {
    let mut st = roamer("/a");
    st.roam_path = chars_of("/a/");
    roaming_step(&mut st, Key::Left);
    assert_eq!(st.cursor_shift, 1);
    roaming_step(&mut st, Key::Home);
    assert_eq!(st.cursor_shift, 3);
    roaming_step(&mut st, Key::Left);
    assert_eq!(st.cursor_shift, 3);
    roaming_step(&mut st, Key::Right);
    assert_eq!(st.cursor_shift, 2);
    roaming_step(&mut st, Key::End);
    assert_eq!(st.cursor_shift, 0);
    roaming_step(&mut st, Key::Right);
    assert_eq!(st.cursor_shift, 0);
}

#[test]
fn double_escape_leaves_roaming() {
    let mut st = roamer("/usr");
    let r = roaming_step(&mut st, Key::Escape);
    assert!(matches!(r, Action::Nothing));
    assert!(st.escaped);
    assert!(matches!(st.mode, Mode::Roaming));
    let r = roaming_step(&mut st, Key::Escape);
    assert!(matches!(r, Action::Redraw));
    assert!(matches!(st.mode, Mode::Browsing));
    assert_eq!(st.cursor_shift, 0);
}

#[test]
fn backtick_leaves_roaming_too() {
    let mut st = roamer("/usr");
    st.cursor_shift = 4;
    let r = roaming_step(&mut st, Key::Char('`'));
    assert!(matches!(r, Action::Redraw));
    assert!(matches!(st.mode, Mode::Browsing));
    assert_eq!(st.cursor_shift, 0);
}

#[test]
fn roam_load_failure_only_stores_the_error() {
    let mut st = roamer("/usr");
    st.roam_path = chars_of("/usr/lo");
    apply_roam(&mut st, chars_of("/usr"), Err(String::from("permission denied")));
    assert_eq!(st.error.as_deref(), Some("permission denied"));
    assert_eq!(text(&st.cwd), "/usr");
    assert!(st.entries.is_empty());
}
