use vstd::prelude::*;
use crate::chars::clone_chars;

verus! {

/// A read-only snapshot of one directory child, taken at load time.
///
/// `size` is in bytes and only meaningful for files; `modified` is the
/// modification time in seconds since the Unix epoch.
pub struct Entry {
    pub name: Vec<char>,
    pub path: Vec<char>,
    pub is_directory: bool,
    pub size: u64,
    pub modified: i64,
}

impl Entry {
    /// Builds an entry from its parts.
    pub fn new(name: Vec<char>, path: Vec<char>, is_directory: bool, size: u64, modified: i64) -> (e: Entry)
        ensures
            e.name == name,
            e.path == path,
            e.is_directory == is_directory,
            e.size == size,
            e.modified == modified,
    {
        Entry { name, path, is_directory, size, modified }
    }

    /// Hands out a copy of the entry's full path.
    pub fn path_copy(&self) -> (p: Vec<char>)
        ensures
            p@ == self.path@,
    {
        clone_chars(&self.path)
    }
}

/// An entry counts as hidden when its name starts with a dot.
pub open spec fn is_hidden(name: Seq<char>) -> bool {
    name.len() > 0 && name[0] == '.'
}

/// An entry survives the hidden-file filter when hidden files are shown
/// or its name does not start with a dot.
pub open spec fn keep_entry(e: Entry, show_hidden: bool) -> bool {
    show_hidden || !is_hidden(e.name@)
}

/// The hidden-file filter as a predicate on entries.
pub open spec fn keep_pred(show_hidden: bool) -> spec_fn(Entry) -> bool {
    |e: Entry| keep_entry(e, show_hidden)
}

} // verus!
