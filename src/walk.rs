use vstd::prelude::*;

use crate::ignore::{ignored_by, path_is_ignored};
use crate::text::{push_text, replace_all, replace_text};

verus! {

/// What a reported entry is.
#[derive(Clone, Copy, Debug, PartialEq, Eq, Structural)]
pub enum EntryKind {
    File,
    Directory,
}

/// The answer of a status query on a discovered path.
#[derive(Clone, Copy, Debug, PartialEq, Eq, Structural)]
pub enum Probe {
    File,
    Directory,
    /// Exists, but is neither a regular file nor a directory.
    Other,
    /// The query failed: the path is gone or cannot be read.
    Missing,
}

/// The parameters of one walk. `label` tags the walk for the caller and has
/// no effect on what is reported.
pub struct WalkRequest {
    pub source: String,
    pub destination: String,
    pub ignored: Vec<String>,
    pub label: String,
}

pub struct RequestView {
    pub source: Seq<char>,
    pub destination: Seq<char>,
    pub ignored: Seq<Seq<char>>,
}

impl View for WalkRequest {
    type V = RequestView;

    open spec fn view(&self) -> RequestView {
        RequestView {
            source: self.source@,
            destination: self.destination@,
            ignored: self.ignored.deep_view(),
        }
    }
}

/// One reported node: its path, its kind, and, when the request names a
/// destination, the path with the source replaced by the destination.
#[derive(Clone, Debug, PartialEq, Eq)]
pub struct Entry {
    pub path: String,
    pub kind: EntryKind,
    pub remapped: Option<String>,
}

pub struct EntryView {
    pub path: Seq<char>,
    pub kind: EntryKind,
    pub remapped: Option<Seq<char>>,
}

impl View for Entry {
    type V = EntryView;

    open spec fn view(&self) -> EntryView {
        EntryView {
            path: self.path@,
            kind: self.kind,
            remapped: match self.remapped {
                Some(r) => Some(r@),
                None => None,
            },
        }
    }
}

/// Why a walk stopped early; each carries the offending path.
#[derive(Clone, Debug, PartialEq, Eq)]
pub enum WalkError {
    /// A directory could not be listed.
    Traversal(String),
    /// A status query failed on a discovered path.
    StatusQuery(String),
}

pub enum WalkErrorView {
    Traversal(Seq<char>),
    StatusQuery(Seq<char>),
}

impl View for WalkError {
    type V = WalkErrorView;

    open spec fn view(&self) -> WalkErrorView {
        match self {
            WalkError::Traversal(p) => WalkErrorView::Traversal(p@),
            WalkError::StatusQuery(p) => WalkErrorView::StatusQuery(p@),
        }
    }
}

/// The path remapped by a request: every occurrence of the source replaced
/// by the destination.
pub open spec fn remap(req: RequestView, path: Seq<char>) -> Seq<char> {
    replace_all(path, req.source, req.destination)
}

/// The entry reported for a node of the given path and kind.
pub open spec fn entry_of(req: RequestView, path: Seq<char>, kind: EntryKind) -> EntryView {
    EntryView {
        path,
        kind,
        remapped: if req.destination.len() == 0 {
            None
        } else {
            Some(remap(req, path))
        },
    }
}

pub open spec fn kind_label(k: EntryKind) -> Seq<char> {
    match k {
        EntryKind::File => seq!['f', 'i', 'l', 'e'],
        EntryKind::Directory => seq!['d', 'i', 'r', 'e', 'c', 't', 'o', 'r', 'y'],
    }
}

impl EntryKind {
    /// "file" or "directory".
    pub fn label(&self) -> (r: String)
        ensures
            r@ == kind_label(*self),
    {
        match self {
            EntryKind::File => {
                proof {
                    reveal_strlit("file");
                }
                let r = "file".to_owned();
                assert(r@ =~= kind_label(*self));
                r
            },
            EntryKind::Directory => {
                proof {
                    reveal_strlit("directory");
                }
                let r = "directory".to_owned();
                assert(r@ =~= kind_label(*self));
                r
            },
        }
    }
}

impl WalkRequest {
    pub fn new(source: String, destination: String, ignored: Vec<String>, label: String) -> (r:
        WalkRequest)
        ensures
            r.source == source,
            r.destination == destination,
            r.ignored == ignored,
            r.label == label,
    {
        WalkRequest { source, destination, ignored, label }
    }

    /// Whether the request excludes `path` from what is reported.
    pub fn excludes(&self, path: &str) -> (r: bool)
        ensures
            r == ignored_by(path@, self@.ignored),
    {
        path_is_ignored(path, &self.ignored)
    }

    /// `path` remapped from the source to the destination.
    pub fn remap_path(&self, path: &str) -> (r: String)
        ensures
            r@ == remap(self@, path@),
    {
        replace_text(path, self.source.as_str(), self.destination.as_str())
    }

    /// The entry for a node of path `path` and kind `kind`.
    pub fn entry(&self, path: String, kind: EntryKind) -> (r: Entry)
        ensures
            r@ == entry_of(self@, path@, kind),
    {
        let remapped = if self.destination.as_str().is_empty() {
            None
        } else {
            Some(self.remap_path(path.as_str()))
        };
        Entry { path, kind, remapped }
    }
}

/// The line that reports an entry: `File: <path>` or `Directory: <path>`,
/// followed, when the entry was remapped, by ` New Path: <remapped>` or
/// ` New Directory: <remapped>`.
pub open spec fn describe(e: EntryView) -> Seq<char> {
    let lead = match e.kind {
        EntryKind::File => "File: "@,
        EntryKind::Directory => "Directory: "@,
    };
    let mid = match e.kind {
        EntryKind::File => " New Path: "@,
        EntryKind::Directory => " New Directory: "@,
    };
    match e.remapped {
        Some(r) => lead + e.path + mid + r,
        None => lead + e.path,
    }
}

impl Entry {
    /// The line that reports this entry.
    pub fn line(&self) -> (r: String)
        ensures
            r@ == describe(self@),
    {
        let mut s = String::new();
        match self.kind {
            EntryKind::File => push_text(&mut s, "File: "),
            EntryKind::Directory => push_text(&mut s, "Directory: "),
        }
        push_text(&mut s, self.path.as_str());
        match &self.remapped {
            Some(r) => {
                match self.kind {
                    EntryKind::File => push_text(&mut s, " New Path: "),
                    EntryKind::Directory => push_text(&mut s, " New Directory: "),
                }
                push_text(&mut s, r.as_str());
            },
            None => {},
        }
        assert(s@ =~= describe(self@));
        s
    }
}

} // verus!
