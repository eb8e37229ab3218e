use vstd::prelude::*;
use crate::chars::{clone_chars, chars_range};
use crate::entry::{Entry, keep_pred};
use crate::listing::{entries_sorted, filter_and_sort, filter_by_prefix, prefix_pred,
    lemma_filter_keeps_sorted, lemma_filter_to_multiset};
use crate::paths::{parent_of, parent_exec, ancestor_candidates, is_ancestor_chain, word_deleted,
    word_delete};
use crate::scroll::{sat_sub, spec_height, spec_scroll_down, spec_scroll_up, viewport_ok,
    scroll_down, scroll_up, page_down, page_up};
use crate::state::{BrowserState, Mode};

verus! {

broadcast use vstd::seq_lib::group_to_multiset_ensures;

/// One key event, as the terminal reports it; `Resize` carries the new
/// number of terminal rows.
#[derive(PartialEq, Eq, Structural, Clone, Copy, Debug)]
pub enum Key {
    Up,
    Down,
    Left,
    Right,
    PageUp,
    PageDown,
    Home,
    End,
    Enter,
    Backspace,
    Tab,
    Escape,
    Resize(usize),
    Char(char),
    Other,
}

/// What the event loop must do next: nothing, repaint, quit, or one
/// filesystem request whose outcome comes back through an `apply_` call.
pub enum Action {
    Nothing,
    Redraw,
    Quit,
    Load { path: Vec<char> },
    Enter { path: Vec<char> },
    Roam { candidates: Vec<Vec<char>> },
}

/// The state after a downward scroll of `step`.
pub open spec fn after_scroll_down(s: BrowserState, step: int) -> BrowserState {
    let r = spec_scroll_down(s.pointed as int, s.first as int, s.entries@.len() as int,
        s.rows as int, step);
    BrowserState { pointed: r.0 as usize, first: r.1 as usize, ..s }
}

/// The state after an upward scroll of `step`.
pub open spec fn after_scroll_up(s: BrowserState, step: int) -> BrowserState {
    let r = spec_scroll_up(s.pointed as int, s.first as int, step);
    BrowserState { pointed: r.0 as usize, first: r.1 as usize, ..s }
}

/// The keys the Browsing handler acts on; every other key is ignored.
pub open spec fn browsing_handled(key: Key) -> bool {
    ||| key == Key::Escape
    ||| key == Key::Char('q')
    ||| key == Key::Up
    ||| key == Key::Char('k')
    ||| key == Key::Down
    ||| key == Key::Char('j')
    ||| key == Key::PageUp
    ||| key == Key::PageDown
    ||| key == Key::Left
    ||| key == Key::Char('h')
    ||| key == Key::Enter
    ||| key == Key::Right
    ||| key == Key::Char('l')
    ||| key == Key::Char('.')
    ||| key == Key::Char('d')
    ||| key == Key::Char('`')
    ||| key == Key::Char(' ')
    ||| key matches Key::Resize(_)
}

/// Handles one key in Browsing mode: scrolling, toggles, quitting, and
/// the requests that need the filesystem.
pub fn browsing_step(st: &mut BrowserState, key: Key) -> (r: Action)
    requires
        old(st).inv(),
    ensures
        final(st).inv(),
        key == Key::Escape || key == Key::Char('q') ==> r is Quit && *final(st) == *old(st),
        key == Key::Up || key == Key::Char('k') ==> r is Redraw && *final(st) == after_scroll_up(
            *old(st), 1),
        key == Key::Down || key == Key::Char('j') ==> r is Redraw && *final(st)
            == after_scroll_down(*old(st), 1),
        key == Key::PageUp ==> r is Redraw && *final(st) == after_scroll_up(*old(st), sat_sub(
            spec_height(old(st).rows as int), 1)),
        key == Key::PageDown ==> r is Redraw && *final(st) == after_scroll_down(*old(st), sat_sub(
            spec_height(old(st).rows as int), 1)),
        key == Key::Left || key == Key::Char('h') ==> *final(st) == *old(st) && (r matches
            Action::Load { path } && path@ == match parent_of(old(st).cwd@) {
                Some(p) => p,
                None => old(st).cwd@,
            }),
        key == Key::Enter || key == Key::Right || key == Key::Char('l') ==> *final(st) == *old(st)
            && if old(st).pointed < old(st).entries@.len() {
                r matches Action::Enter { path } && path@ == old(st).entries@[old(
                    st).pointed as int].path@
            } else {
                r is Redraw
            },
        key == Key::Char('.') ==> *final(st) == (BrowserState {
            show_hidden: !old(st).show_hidden,
            ..*old(st)
        }) && (r matches Action::Load { path } && path@ == old(st).cwd@),
        key == Key::Char('d') ==> r is Redraw && *final(st) == (BrowserState {
            show_detail: !old(st).show_detail,
            ..*old(st)
        }),
        key == Key::Char('`') ==> final(st).mode == Mode::Roaming && final(st).error is None
            && final(st).roam_path@ == old(st).cwd@ + seq!['/'] && final(st).cursor_shift == 0
            && *final(st) == (BrowserState {
            mode: Mode::Roaming,
            error: None,
            roam_path: final(st).roam_path,
            cursor_shift: 0,
            ..*old(st)
        }) && (r matches Action::Roam { candidates } && is_ancestor_chain(candidates@, final(
            st).roam_path@)),
        key == Key::Char(' ') ==> r is Nothing && if old(st).pointed < old(st).entries@.len() {
            final(st).selected_buffer@ == old(st).entries@[old(st).pointed as int].path@ && *final(
                st) == (BrowserState { selected_buffer: final(st).selected_buffer, ..*old(st) })
        } else {
            *final(st) == *old(st)
        },
        forall|nr: usize| key == Key::Resize(nr) ==> r is Redraw && *final(st) == (BrowserState {
            rows: nr,
            ..*old(st)
        }),
        !browsing_handled(key) ==> r is Nothing && *final(st) == *old(st),
{
    match key {
        Key::Escape | Key::Char('q') => Action::Quit,
        Key::Up | Key::Char('k') => {
            let r = scroll_up(st.pointed, st.first);
            st.pointed = r.0;
            st.first = r.1;
            Action::Redraw
        },
        Key::Down | Key::Char('j') => {
            let r = scroll_down(st.pointed, st.first, st.entries.len(), st.rows);
            st.pointed = r.0;
            st.first = r.1;
            Action::Redraw
        },
        Key::PageUp => {
            let r = page_up(st.pointed, st.first, st.rows);
            st.pointed = r.0;
            st.first = r.1;
            Action::Redraw
        },
        Key::PageDown => {
            let r = page_down(st.pointed, st.first, st.entries.len(), st.rows);
            st.pointed = r.0;
            st.first = r.1;
            Action::Redraw
        },
        Key::Left | Key::Char('h') => {
            match parent_exec(&st.cwd) {
                Some(p) => Action::Load { path: p },
                None => Action::Load { path: clone_chars(&st.cwd) },
            }
        },
        Key::Enter | Key::Right | Key::Char('l') => {
            if st.pointed < st.entries.len() {
                Action::Enter { path: st.entries[st.pointed].path_copy() }
            } else {
                Action::Redraw
            }
        },
        Key::Char('.') => {
            st.show_hidden = !st.show_hidden;
            Action::Load { path: clone_chars(&st.cwd) }
        },
        Key::Char('d') => {
            st.show_detail = !st.show_detail;
            Action::Redraw
        },
        Key::Char('`') => {
            st.mode = Mode::Roaming;
            st.error = None;
            let mut rp = clone_chars(&st.cwd);
            rp.push('/');
            st.roam_path = rp;
            st.cursor_shift = 0;
            proof {
                assert(st.roam_path@ =~= old(st).cwd@ + seq!['/']);
            }
            Action::Roam { candidates: ancestor_candidates(&st.roam_path) }
        },
        Key::Char(' ') => {
            if st.pointed < st.entries.len() {
                st.selected_buffer = st.entries[st.pointed].path_copy();
            }
            Action::Nothing
        },
        Key::Resize(nr) => {
            st.rows = nr;
            Action::Redraw
        },
        _ => Action::Nothing,
    }
}

/// The keys the Roaming handler acts on besides `Escape` and the
/// printable characters; every other key is ignored.
pub open spec fn roaming_handled(key: Key) -> bool {
    ||| key == Key::Escape
    ||| key == Key::Up
    ||| key == Key::Down
    ||| key == Key::Tab
    ||| key == Key::Enter
    ||| key == Key::Left
    ||| key == Key::Right
    ||| key == Key::Home
    ||| key == Key::End
    ||| key == Key::Backspace
    ||| key matches Key::Resize(_)
    ||| key matches Key::Char(_)
}

/// The roam path after a plain Backspace: one character before the
/// cursor removed, when there is one.
pub open spec fn backspaced(rp: Seq<char>, shift: int) -> Seq<char> {
    if rp.len() > 0 {
        rp.remove(sat_sub(sat_sub(rp.len() as int, shift), 1))
    } else {
        rp
    }
}

/// Handles one key in Roaming mode: path edits and cursor moves, the
/// scroll of the filtered list, and the exits back to Browsing.
pub fn roaming_step(st: &mut BrowserState, key: Key) -> (r: Action)
    requires
        old(st).inv(),
    ensures
        final(st).inv(),
        key == Key::Escape ==> if old(st).escaped {
            r is Redraw && *final(st) == (BrowserState {
                mode: Mode::Browsing,
                cursor_shift: 0,
                ..*old(st)
            })
        } else {
            r is Nothing && *final(st) == (BrowserState { escaped: true, ..*old(st) })
        },
        key != Key::Escape ==> !final(st).escaped,
        key == Key::Char('`') ==> r is Redraw && *final(st) == (BrowserState {
            mode: Mode::Browsing,
            cursor_shift: 0,
            escaped: false,
            ..*old(st)
        }),
        key == Key::Up ==> r is Redraw && *final(st) == (BrowserState {
            escaped: false,
            ..after_scroll_up(*old(st), 1)
        }),
        key == Key::Down || key == Key::Tab ==> r is Redraw && *final(st) == (BrowserState {
            escaped: false,
            ..after_scroll_down(*old(st), 1)
        }),
        key == Key::Enter ==> if old(st).pointed < old(st).entries@.len() {
            (r matches Action::Enter { path } && path@ == old(st).entries@[old(
                st).pointed as int].path@) && *final(st) == (BrowserState {
                escaped: false,
                ..*old(st)
            })
        } else {
            r is Redraw && final(st).roam_path@ == old(st).cwd@ + seq!['/'] && *final(st) == (
            BrowserState { escaped: false, roam_path: final(st).roam_path, ..*old(st) })
        },
        key == Key::Char(' ') ==> r is Nothing && !final(st).escaped && if old(st).pointed < old(
            st).entries@.len() {
            final(st).selected_buffer@ == old(st).entries@[old(st).pointed as int].path@ && *final(
                st) == (BrowserState {
                escaped: false,
                selected_buffer: final(st).selected_buffer,
                ..*old(st)
            })
        } else {
            *final(st) == (BrowserState { escaped: false, ..*old(st) })
        },
        key == Key::Left ==> r is Redraw && *final(st) == (BrowserState {
            escaped: false,
            cursor_shift: (if old(st).cursor_shift + 1 <= old(st).roam_path@.len() {
                (old(st).cursor_shift + 1) as usize
            } else {
                old(st).roam_path.len()
            }),
            ..*old(st)
        }),
        key == Key::Right ==> r is Redraw && *final(st) == (BrowserState {
            escaped: false,
            cursor_shift: sat_sub(old(st).cursor_shift as int, 1) as usize,
            ..*old(st)
        }),
        key == Key::End ==> r is Redraw && *final(st) == (BrowserState {
            escaped: false,
            cursor_shift: 0,
            ..*old(st)
        }),
        key == Key::Home ==> r is Redraw && *final(st) == (BrowserState {
            escaped: false,
            cursor_shift: old(st).roam_path.len(),
            ..*old(st)
        }),
        key == Key::Backspace ==> final(st).roam_path@ == (if old(st).escaped {
            word_deleted(old(st).roam_path@)
        } else {
            backspaced(old(st).roam_path@, old(st).cursor_shift as int)
        }) && *final(st) == (BrowserState {
            escaped: false,
            roam_path: final(st).roam_path,
            ..*old(st)
        }) && (r matches Action::Roam { candidates } && is_ancestor_chain(candidates@, final(
            st).roam_path@)),
        forall|nr: usize| key == Key::Resize(nr) ==> r is Redraw && *final(st) == (BrowserState {
            rows: nr,
            escaped: false,
            ..*old(st)
        }),
        forall|c: char| key == Key::Char(c) && c != '`' && c != ' ' ==> final(st).roam_path@ == old(
            st).roam_path@.insert(sat_sub(old(st).roam_path@.len() as int, old(
            st).cursor_shift as int), c) && *final(st) == (BrowserState {
            escaped: false,
            roam_path: final(st).roam_path,
            ..*old(st)
        }) && (r matches Action::Roam { candidates } && is_ancestor_chain(candidates@, final(
            st).roam_path@)),
        !roaming_handled(key) ==> r is Nothing && *final(st) == (BrowserState {
            escaped: false,
            ..*old(st)
        }),
{
    match key {
        Key::Escape => {
            if st.escaped {
                st.mode = Mode::Browsing;
                st.cursor_shift = 0;
                Action::Redraw
            } else {
                st.escaped = true;
                Action::Nothing
            }
        },
        _ => {
            let act = match key {
                Key::Char('`') => {
                    st.mode = Mode::Browsing;
                    st.cursor_shift = 0;
                    Action::Redraw
                },
                Key::Up => {
                    let r = scroll_up(st.pointed, st.first);
                    st.pointed = r.0;
                    st.first = r.1;
                    Action::Redraw
                },
                Key::Down | Key::Tab => {
                    let r = scroll_down(st.pointed, st.first, st.entries.len(), st.rows);
                    st.pointed = r.0;
                    st.first = r.1;
                    Action::Redraw
                },
                Key::Enter => {
                    if st.pointed < st.entries.len() {
                        Action::Enter { path: st.entries[st.pointed].path_copy() }
                    } else {
                        let mut rp = clone_chars(&st.cwd);
                        rp.push('/');
                        st.roam_path = rp;
                        proof {
                            assert(st.roam_path@ =~= old(st).cwd@ + seq!['/']);
                        }
                        Action::Redraw
                    }
                },
                Key::Char(' ') => {
                    if st.pointed < st.entries.len() {
                        st.selected_buffer = st.entries[st.pointed].path_copy();
                    }
                    Action::Nothing
                },
                Key::Left => {
                    let ns = st.cursor_shift.saturating_add(1);
                    st.cursor_shift = if ns <= st.roam_path.len() {
                        ns
                    } else {
                        st.roam_path.len()
                    };
                    Action::Redraw
                },
                Key::Right => {
                    st.cursor_shift = st.cursor_shift.saturating_sub(1);
                    Action::Redraw
                },
                Key::End => {
                    st.cursor_shift = 0;
                    Action::Redraw
                },
                Key::Home => {
                    st.cursor_shift = st.roam_path.len();
                    Action::Redraw
                },
                Key::Backspace => {
                    if st.escaped {
                        st.roam_path = word_delete(&st.roam_path);
                    } else {
                        let len = st.roam_path.len();
                        if len > 0 {
                            let pos = len.saturating_sub(st.cursor_shift);
                            let idx = pos.saturating_sub(1);
                            st.roam_path.remove(idx);
                        }
                    }
                    Action::Roam { candidates: ancestor_candidates(&st.roam_path) }
                },
                Key::Resize(nr) => {
                    st.rows = nr;
                    Action::Redraw
                },
                Key::Char(c) => {
                    let len = st.roam_path.len();
                    let pos = len.saturating_sub(st.cursor_shift);
                    st.roam_path.insert(pos, c);
                    Action::Roam { candidates: ancestor_candidates(&st.roam_path) }
                },
                _ => Action::Nothing,
            };
            st.escaped = false;
            act
        },
    }
}

/// After any scroll key, on a non-empty listing drawn in a viewport of
/// at least one row, the selection stays inside the entries and inside
/// the window that starts at the viewport top: downward scrolls restore
/// the invariant outright, upward scrolls keep it.
pub proof fn lemma_steps_keep_viewport(s: BrowserState, step: int)
    requires
        s.inv(),
        s.entries@.len() > 0,
        s.entries@.len() <= usize::MAX,
        spec_height(s.rows as int) >= 1,
        step >= 0,
    ensures
        ({
            let d = after_scroll_down(s, step);
            viewport_ok(d.pointed as int, d.first as int, s.entries@.len() as int, s.rows as int)
        }),
        s.pointed <= s.first + spec_height(s.rows as int) - 1 ==> ({
            let u = after_scroll_up(s, step);
            viewport_ok(u.pointed as int, u.first as int, s.entries@.len() as int, s.rows as int)
        }),
{
    crate::scroll::lemma_scroll_down_keeps_viewport(s.pointed as int, s.first as int,
        s.entries@.len() as int, s.rows as int, step);
    if s.pointed <= s.first + spec_height(s.rows as int) - 1 {
        crate::scroll::lemma_scroll_up_keeps_viewport(s.pointed as int, s.first as int,
            s.entries@.len() as int, s.rows as int, step);
    }
}

/// Where the typed remainder starts: just past the matched parent, and
/// past its separator as well when the parent is given absolute.
pub open spec fn valid_size_of(parent: Seq<char>) -> int {
    parent.len() + if parent.len() > 0 && parent[0] == '/' {
        1int
    } else {
        0int
    }
}

/// The index the selection keeps after a reload: unchanged while it
/// stays inside the new listing, else pulled to its edge.
pub open spec fn clamp_index(p: int, len: int) -> int {
    if len == 0 {
        0
    } else if p < len {
        p
    } else {
        len - 1
    }
}

/// Takes the outcome of listing `path` into the state: on success the
/// filtered, sorted listing replaces the entries, `path` becomes the
/// current directory and the error clears; on failure only the error is
/// stored. The selection is kept, clamped to the new listing.
pub fn apply_load(st: &mut BrowserState, path: Vec<char>, loaded: Result<Vec<Entry>, String>)
    requires
        old(st).inv(),
    ensures
        final(st).inv(),
        loaded matches Err(m) ==> *final(st) == (BrowserState {
            error: Some(m),
            ..*old(st)
        }),
        loaded matches Ok(raw) ==> ({
            let survivors = raw@.filter(keep_pred(old(st).show_hidden));
            &&& final(st).cwd == path
            &&& final(st).error is None
            &&& entries_sorted(final(st).entries@)
            &&& final(st).entries@.to_multiset() == survivors.to_multiset()
            &&& final(st).entries@.len() == survivors.len()
            &&& final(st).pointed == clamp_index(old(st).pointed as int, survivors.len() as int)
            &&& final(st).first == (if old(st).first <= final(st).pointed {
                old(st).first as int
            } else {
                final(st).pointed as int
            })
            &&& *final(st) == (BrowserState {
                entries: final(st).entries,
                pointed: final(st).pointed,
                first: final(st).first,
                cwd: final(st).cwd,
                error: None,
                ..*old(st)
            })
        }),
{
    match loaded {
        Err(m) => {
            st.error = Some(m);
        },
        Ok(raw) => {
            let ghost survivors = raw@.filter(keep_pred(st.show_hidden));
            let sorted = filter_and_sort(raw, st.show_hidden);
            proof {
                vstd::seq_lib::to_multiset_len::<Entry>(sorted@);
                vstd::seq_lib::to_multiset_len::<Entry>(survivors);
                assert(sorted@.len() == survivors.len());
            }
            let len = sorted.len();
            st.entries = sorted;
            st.cwd = path;
            st.error = None;
            if len == 0 {
                st.pointed = 0;
                st.first = 0;
            } else {
                if st.pointed >= len {
                    st.pointed = len - 1;
                }
                if st.first > st.pointed {
                    st.first = st.pointed;
                }
            }
        },
    }
}

/// Takes the outcome of entering the pointed entry: like a load, but the
/// selection resets to the top, and in Roaming mode the roam path is
/// reseeded from the directory the session is now in.
pub fn apply_enter(st: &mut BrowserState, path: Vec<char>, loaded: Result<Vec<Entry>, String>)
    requires
        old(st).inv(),
    ensures
        final(st).inv(),
        loaded matches Err(m) ==> final(st).error == Some(m) && final(st).roam_path@ == (if old(
            st).mode == Mode::Roaming {
            old(st).cwd@ + seq!['/']
        } else {
            old(st).roam_path@
        }) && *final(st) == (BrowserState {
            error: Some(m),
            roam_path: final(st).roam_path,
            ..*old(st)
        }),
        loaded matches Ok(raw) ==> ({
            let survivors = raw@.filter(keep_pred(old(st).show_hidden));
            &&& final(st).cwd == path
            &&& final(st).error is None
            &&& entries_sorted(final(st).entries@)
            &&& final(st).entries@.to_multiset() == survivors.to_multiset()
            &&& final(st).pointed == 0 && final(st).first == 0
            &&& final(st).roam_path@ == (if old(st).mode == Mode::Roaming {
                path@ + seq!['/']
            } else {
                old(st).roam_path@
            })
            &&& *final(st) == (BrowserState {
                entries: final(st).entries,
                pointed: 0,
                first: 0,
                cwd: final(st).cwd,
                error: None,
                roam_path: final(st).roam_path,
                ..*old(st)
            })
        }),
{
    match loaded {
        Err(m) => {
            st.error = Some(m);
            if st.mode == Mode::Roaming {
                let mut rp = clone_chars(&st.cwd);
                rp.push('/');
                st.roam_path = rp;
                proof {
                    assert(st.roam_path@ =~= old(st).cwd@ + seq!['/']);
                }
            }
        },
        Ok(raw) => {
            let sorted = filter_and_sort(raw, st.show_hidden);
            st.entries = sorted;
            st.cwd = path;
            st.error = None;
            st.pointed = 0;
            st.first = 0;
            if st.mode == Mode::Roaming {
                let mut rp = clone_chars(&st.cwd);
                rp.push('/');
                st.roam_path = rp;
                proof {
                    assert(st.roam_path@ =~= final(st).cwd@ + seq!['/']);
                }
            }
        },
    }
}

/// Takes the outcome of the roam probe: on success the children of the
/// matched parent replace the entries, the selection resets, and when
/// the typed path runs past the parent the listing is narrowed to the
/// names that start with the remainder; `no_match` is set exactly when
/// that narrowing emptied a non-empty listing. On failure only the
/// error is stored.
pub fn apply_roam(st: &mut BrowserState, parent: Vec<char>, loaded: Result<Vec<Entry>, String>)
    requires
        old(st).inv(),
        parent@.len() < usize::MAX,
    ensures
        final(st).inv(),
        loaded matches Err(m) ==> *final(st) == (BrowserState {
            error: Some(m),
            ..*old(st)
        }),
        loaded matches Ok(raw) ==> ({
            let survivors = raw@.filter(keep_pred(old(st).show_hidden));
            let vs = valid_size_of(parent@);
            let rp = old(st).roam_path@;
            &&& final(st).cwd == parent
            &&& final(st).error is None
            &&& final(st).pointed == 0 && final(st).first == 0
            &&& entries_sorted(final(st).entries@)
            &&& (vs < rp.len() ==> ({
                let restq = rp.subrange(vs, rp.len() as int);
                &&& final(st).entries@.to_multiset() == survivors.to_multiset().filter(prefix_pred(
                    restq))
                &&& final(st).no_match == (survivors.len() > 0 && final(st).entries@.len() == 0)
            }))
            &&& (vs >= rp.len() ==> final(st).entries@.to_multiset() == survivors.to_multiset()
                && final(st).no_match == false)
            &&& *final(st) == (BrowserState {
                entries: final(st).entries,
                pointed: 0,
                first: 0,
                cwd: final(st).cwd,
                error: None,
                no_match: final(st).no_match,
                ..*old(st)
            })
        }),
{
    match loaded {
        Err(m) => {
            st.error = Some(m);
        },
        Ok(raw) => {
            let ghost survivors = raw@.filter(keep_pred(st.show_hidden));
            let sorted = filter_and_sort(raw, st.show_hidden);
            proof {
                vstd::seq_lib::to_multiset_len::<Entry>(sorted@);
                vstd::seq_lib::to_multiset_len::<Entry>(survivors);
                assert(sorted@.len() == survivors.len());
            }
            let sorted_len = sorted.len();
            let mut vs = parent.len();
            if parent.len() > 0 && parent[0] == '/' {
                vs = vs + 1;
            }
            st.cwd = parent;
            st.error = None;
            st.no_match = false;
            st.pointed = 0;
            st.first = 0;
            if vs < st.roam_path.len() {
                let rest = chars_range(&st.roam_path, vs, st.roam_path.len());
                let filtered = filter_by_prefix(sorted, &rest);
                proof {
                    lemma_filter_keeps_sorted(sorted@, prefix_pred(rest@));
                    lemma_filter_to_multiset(sorted@, prefix_pred(rest@));
                    assert(sorted@.to_multiset().filter(prefix_pred(rest@))
                        == survivors.to_multiset().filter(prefix_pred(rest@)));
                }
                st.no_match = sorted_len > 0 && filtered.len() == 0;
                st.entries = filtered;
            } else {
                st.entries = sorted;
            }
        },
    }
}

} // verus!
