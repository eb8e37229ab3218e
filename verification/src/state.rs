use vstd::prelude::*;
use crate::entry::Entry;
use crate::chars::{clone_chars, chars_eq};

verus! {

/// The two reachable interaction modes, and the reserved command-line
/// mode that no transition enters yet.
#[derive(PartialEq, Eq, Structural, Clone, Copy, Debug)]
pub enum Mode {
    Browsing,
    Roaming,
    Command,
}

/// One rule of the color scheme: a short entry-class code mapped to a
/// list of style attribute codes.
pub struct ColorRule {
    pub code: Vec<char>,
    pub attrs: Vec<u8>,
}

/// The attribute list of the first rule whose code matches, if any.
pub open spec fn scheme_lookup(rules: Seq<ColorRule>, code: Seq<char>) -> Option<Seq<u8>>
    decreases rules.len(),
{
    if rules.len() == 0 {
        None
    } else if rules[0].code@ == code {
        Some(rules[0].attrs@)
    } else {
        scheme_lookup(rules.skip(1), code)
    }
}

/// The single mutable session object: the loaded entries, the selection
/// and viewport, the mode, and the roam-edit fields.
pub struct BrowserState {
    pub entries: Vec<Entry>,
    pub pointed: usize,
    pub first: usize,
    pub rows: usize,
    pub mode: Mode,
    pub cwd: Vec<char>,
    pub roam_path: Vec<char>,
    pub cursor_shift: usize,
    pub no_match: bool,
    pub escaped: bool,
    pub show_hidden: bool,
    pub show_detail: bool,
    pub error: Option<String>,
    pub selected_buffer: Vec<char>,
    pub color_scheme: Vec<ColorRule>,
}

impl BrowserState {
    /// The selection lies inside the entries and at or below the
    /// viewport top; an empty listing pins both indices to zero.
    pub open spec fn inv(self) -> bool {
        &&& self.entries@.len() == 0 ==> self.pointed == 0 && self.first == 0
        &&& self.entries@.len() > 0 ==> self.pointed < self.entries@.len()
        &&& self.first <= self.pointed
    }

    /// A fresh session: Browsing in `cwd`, nothing loaded yet.
    pub fn init(cwd: Vec<char>, rows: usize, color_scheme: Vec<ColorRule>) -> (st: BrowserState)
        ensures
            st.inv(),
            st.entries@.len() == 0,
            st.pointed == 0,
            st.first == 0,
            st.rows == rows,
            st.mode == Mode::Browsing,
            st.cwd == cwd,
            st.roam_path@.len() == 0,
            st.cursor_shift == 0,
            st.no_match,
            !st.escaped,
            !st.show_hidden,
            !st.show_detail,
            st.error is None,
            st.selected_buffer@.len() == 0,
            st.color_scheme == color_scheme,
    {
        BrowserState {
            entries: Vec::new(),
            pointed: 0,
            first: 0,
            rows,
            mode: Mode::Browsing,
            cwd,
            roam_path: Vec::new(),
            cursor_shift: 0,
            no_match: true,
            escaped: false,
            show_hidden: false,
            show_detail: false,
            error: None,
            selected_buffer: Vec::new(),
            color_scheme,
        }
    }

    /// The style attributes the renderer gives an entry: the rule for
    /// the directory code when the entry is a directory, else none.
    pub fn attributes_for(&self, e: &Entry, code: &Vec<char>) -> (r: Option<Vec<u8>>)
        ensures
            r matches Some(a) ==> e.is_directory && scheme_lookup(self.color_scheme@, code@)
                == Some(a@),
            r is None ==> !e.is_directory || scheme_lookup(self.color_scheme@, code@) is None,
    {
        if e.is_directory {
            let r = lookup_from(&self.color_scheme, code, 0);
            proof {
                assert(self.color_scheme@.skip(0) =~= self.color_scheme@);
            }
            r
        } else {
            None
        }
    }
}

/// Copies a byte vector, keeping its contents.
fn clone_bytes(v: &Vec<u8>) -> (r: Vec<u8>)
    ensures
        r@ == v@,
{
    let mut r: Vec<u8> = Vec::new();
    let mut i: usize = 0;
    while i < v.len()
        invariant
            i <= v.len(),
            r@ =~= v@.subrange(0, i as int),
        decreases v.len() - i,
    {
        r.push(v[i]);
        proof {
            assert(r@ =~= v@.subrange(0, i + 1));
        }
        i = i + 1;
    }
    proof {
        assert(v@.subrange(0, v@.len() as int) =~= v@);
    }
    r
}

/// Finds the first rule at or after `i` whose code matches.
fn lookup_from(rules: &Vec<ColorRule>, code: &Vec<char>, i: usize) -> (r: Option<Vec<u8>>)
    requires
        i <= rules.len(),
    ensures
        match r {
            Some(a) => scheme_lookup(rules@.skip(i as int), code@) == Some(a@),
            None => scheme_lookup(rules@.skip(i as int), code@) is None,
        },
    decreases rules.len() - i,
{
    if i == rules.len() {
        proof {
            assert(rules@.skip(i as int) =~= Seq::<ColorRule>::empty());
        }
        None
    } else {
        proof {
            assert(rules@.skip(i as int)[0] == rules@[i as int]);
            assert(rules@.skip(i as int).skip(1) =~= rules@.skip(i + 1));
        }
        let same = chars_eq(&rules[i].code, code);
        if same {
            Some(clone_bytes(&rules[i].attrs))
        } else {
            lookup_from(rules, code, i + 1)
        }
    }
}

} // verus!
