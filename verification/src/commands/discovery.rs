//! File discovery: which entries of a directory listing are wanted, and a
//! search that walks a tree one listing at a time. Listing a directory is the
//! caller's work; what to keep and what to list next is decided here.

use crate::text::texts;
use crate::utils::paths::{has_extension, path_extension};
use vstd::prelude::*;

verus! {

/// One entry of a directory listing: its path, and whether it is a directory.
#[derive(Debug, Clone, PartialEq, Eq)]
pub struct DirEntry {
    pub path: String,
    pub is_dir: bool,
}

/// A directory entry as a mathematical value.
pub ghost struct DirEntryView {
    pub path: Seq<char>,
    pub is_dir: bool,
}

impl View for DirEntry {
    type V = DirEntryView;

    open spec fn view(&self) -> DirEntryView {
        DirEntryView { path: self.path@, is_dir: self.is_dir }
    }
}

/// The views of a directory listing.
pub open spec fn entry_views(entries: Seq<DirEntry>) -> Seq<DirEntryView> {
    Seq::new(entries.len(), |i: int| entries[i]@)
}

/// The entry is a file whose extension is `extension`. A file without an
/// extension is never selected.
pub open spec fn selected(entry: DirEntryView, extension: Seq<char>) -> bool {
    !entry.is_dir && path_extension(entry.path) == Some(extension)
}

/// The paths of the selected files of a listing, in its order.
pub open spec fn matching_files(entries: Seq<DirEntryView>, extension: Seq<char>) -> Seq<Seq<char>>
    decreases entries.len(),
{
    if entries.len() == 0 {
        Seq::empty()
    } else {
        let before = matching_files(entries.drop_last(), extension);
        if selected(entries.last(), extension) {
            before.push(entries.last().path)
        } else {
            before
        }
    }
}

/// The paths of the directories of a listing, in its order.
pub open spec fn subdirectories(entries: Seq<DirEntryView>) -> Seq<Seq<char>>
    decreases entries.len(),
{
    if entries.len() == 0 {
        Seq::empty()
    } else {
        let before = subdirectories(entries.drop_last());
        if entries.last().is_dir {
            before.push(entries.last().path)
        } else {
            before
        }
    }
}

/// The files of one listing that have the extension `extension`.
pub fn find_files(entries: &Vec<DirEntry>, extension: &str) -> (files: Vec<String>)
    ensures
        texts(files@) == matching_files(entry_views(entries@), extension@),
{
    let ghost all = entry_views(entries@);
    let mut files: Vec<String> = Vec::new();
    let n: usize = entries.len();
    let mut i: usize = 0;
    proof {
        assert(all.take(0) =~= Seq::<DirEntryView>::empty());
        assert(texts(files@) =~= Seq::<Seq<char>>::empty());
    }
    while i < n
        invariant
            all == entry_views(entries@),
            n == entries@.len(),
            i <= n,
            texts(files@) == matching_files(all.take(i as int), extension@),
        decreases n - i,
    {
        let entry = &entries[i];
        let ghost before = texts(files@);
        proof {
            let upto = all.take(i + 1);
            assert(upto.drop_last() =~= all.take(i as int));
            assert(upto.last() == entry@);
        }
        if !entry.is_dir && has_extension(entry.path.as_str(), extension) {
            files.push(entry.path.clone());
            proof {
                assert(texts(files@) =~= before.push(entry.path@));
            }
        }
        i += 1;
    }
    proof {
        assert(all.take(n as int) =~= all);
    }
    files
}

/// The directories of one listing.
pub fn find_directories(entries: &Vec<DirEntry>) -> (dirs: Vec<String>)
    ensures
        texts(dirs@) == subdirectories(entry_views(entries@)),
{
    let ghost all = entry_views(entries@);
    let mut dirs: Vec<String> = Vec::new();
    let n: usize = entries.len();
    let mut i: usize = 0;
    proof {
        assert(all.take(0) =~= Seq::<DirEntryView>::empty());
        assert(texts(dirs@) =~= Seq::<Seq<char>>::empty());
    }
    while i < n
        invariant
            all == entry_views(entries@),
            n == entries@.len(),
            i <= n,
            texts(dirs@) == subdirectories(all.take(i as int)),
        decreases n - i,
    {
        let entry = &entries[i];
        let ghost before = texts(dirs@);
        proof {
            let upto = all.take(i + 1);
            assert(upto.drop_last() =~= all.take(i as int));
            assert(upto.last() == entry@);
        }
        if entry.is_dir {
            dirs.push(entry.path.clone());
            proof {
                assert(texts(dirs@) =~= before.push(entry.path@));
            }
        }
        i += 1;
    }
    proof {
        assert(all.take(n as int) =~= all);
    }
    dirs
}

/// A search for the files with one extension below a root directory. The
/// search names the directory to list next; the caller lists it and hands
/// the listing back.
#[derive(Debug, Clone, PartialEq, Eq)]
pub struct FileSearch {
    pub extension: String,
    pub pending: Vec<String>,
    pub found: Vec<String>,
}

/// A search as a mathematical value: the extension looked for, the
/// directories still to list, and the files found so far.
pub ghost struct FileSearchView {
    pub extension: Seq<char>,
    pub pending: Seq<Seq<char>>,
    pub found: Seq<Seq<char>>,
}

impl View for FileSearch {
    type V = FileSearchView;

    open spec fn view(&self) -> FileSearchView {
        FileSearchView {
            extension: self.extension@,
            pending: texts(self.pending@),
            found: texts(self.found@),
        }
    }
}

/// A search that has found nothing yet and has `root` to list.
pub open spec fn search_started(root: Seq<char>, extension: Seq<char>) -> FileSearchView {
    FileSearchView { extension, pending: seq![root], found: Seq::empty() }
}

/// The search after the listing of a directory has been taken in: the
/// selected files are found, and the directories are added to those still to
/// list.
pub open spec fn after_visit(state: FileSearchView, listing: Seq<DirEntryView>) -> FileSearchView {
    FileSearchView {
        extension: state.extension,
        pending: state.pending + subdirectories(listing),
        found: state.found + matching_files(listing, state.extension),
    }
}

impl FileSearch {
    /// A search below `root` that has found nothing yet and has `root` to
    /// list.
    pub fn new(root: &str, extension: &str) -> (search: FileSearch)
        ensures
            search@ == search_started(root@, extension@),
    {
        let mut pending: Vec<String> = Vec::new();
        pending.push(root.to_owned());
        let search = FileSearch { extension: extension.to_owned(), pending, found: Vec::new() };
        proof {
            assert(search@.pending =~= seq![root@]);
            assert(search@.found =~= Seq::<Seq<char>>::empty());
        }
        search
    }

    /// The directory to list next: the one that was added last. `None` when
    /// every directory has been listed.
    pub fn next_directory(&mut self) -> (next: Option<String>)
        ensures
            final(self)@.extension == old(self)@.extension,
            final(self)@.found == old(self)@.found,
            match next {
                Some(dir) => old(self)@.pending == final(self)@.pending.push(dir@),
                None => old(self)@.pending.len() == 0 && final(self)@.pending.len() == 0,
            },
    {
        let ghost before = self@.pending;
        let next = self.pending.pop();
        proof {
            if next is Some {
                assert(before =~= self@.pending.push(next->Some_0@));
            }
        }
        next
    }

    /// Takes in the listing of a directory: its files with the wanted
    /// extension are found, and its directories are to be listed in turn.
    pub fn visit(&mut self, entries: &Vec<DirEntry>)
        ensures
            final(self)@ == after_visit(old(self)@, entry_views(entries@)),
    {
        let ghost found = self@.found;
        let ghost pending = self@.pending;
        let mut files = find_files(entries, self.extension.as_str());
        let mut dirs = find_directories(entries);
        let ghost more_files = texts(files@);
        let ghost more_dirs = texts(dirs@);
        self.found.append(&mut files);
        self.pending.append(&mut dirs);
        proof {
            assert(self@.found =~= found + more_files);
            assert(self@.pending =~= pending + more_dirs);
        }
    }

    /// Whether every directory has been listed.
    pub fn is_done(&self) -> (done: bool)
        ensures
            done == (self@.pending.len() == 0),
    {
        self.pending.len() == 0
    }

    /// The files found.
    pub fn into_files(self) -> (files: Vec<String>)
        ensures
            texts(files@) == self@.found,
    {
        self.found
    }
}

} // verus!
