//! Opening files named on the command line or dropped on the window, and
//! the errors an open or a save can end in, with the banner text each shows.
use vstd::prelude::*;
use vstd::string::StringExecFns;
use crate::disk::DiskStamp;
use crate::tab::path_view;
use crate::workspace::{Caret, Workspace};

verus! {

broadcast use vstd::string::group_string_axioms;

/// Why an open produced no file. `kind` is the I/O error's description.
#[derive(Debug, Clone)]
pub enum OpenError {
    DialogClosed,
    Io { path: String, kind: String },
}

/// Why a save wrote nothing. `kind` is the I/O error's description.
#[derive(Debug, Clone)]
pub enum SaveError {
    DialogClosed,
    Io { path: String, kind: String },
    /// The file changed on disk since the tab last saw it. No path: the tab
    /// it belongs to is what the prompt names.
    Conflict,
}

/// `a` followed by `b`, as a new string.
fn concat(a: &str, b: &str) -> (joined: String)
    ensures
        joined@ == a@ + b@,
{
    let mut s = String::from_str(a);
    s.append(b);
    s
}

/// The banner a failed open shows: "Couldn't open <path>: <kind>".
pub open spec fn open_failure_text(path: Seq<char>, kind: Seq<char>) -> Seq<char> {
    "Couldn't open "@ + path + ": "@ + kind
}

/// The banner a failed save shows: "Couldn't save <path>: <kind>".
pub open spec fn save_failure_text(path: Seq<char>, kind: Seq<char>) -> Seq<char> {
    "Couldn't save "@ + path + ": "@ + kind
}

/// The banner a dropped folder shows: "Can't open <path>: it's a folder".
pub open spec fn dropped_folder_text(path: Seq<char>) -> Seq<char> {
    "Can't open "@ + path + ": it's a folder"@
}

impl OpenError {
    /// The banner this error shows, if any: a dismissed dialog shows none.
    pub fn message(&self) -> (text: Option<String>)
        ensures
            match self {
                OpenError::DialogClosed => text is None,
                OpenError::Io { path, kind } => text matches Some(t) && t@ == open_failure_text(path@, kind@),
            },
    {
        match self {
            OpenError::DialogClosed => None,
            OpenError::Io { path, kind } => {
                let head = concat("Couldn't open ", path.as_str());
                let middle = concat(head.as_str(), ": ");
                let text = concat(middle.as_str(), kind.as_str());
                Some(text)
            },
        }
    }
}

impl SaveError {
    /// The banner this error shows, if any: a dismissed dialog shows none,
    /// and a conflict shows its prompt instead.
    pub fn message(&self) -> (text: Option<String>)
        ensures
            match self {
                SaveError::Io { path, kind } => text matches Some(t) && t@ == save_failure_text(path@, kind@),
                _ => text is None,
            },
    {
        match self {
            SaveError::Io { path, kind } => {
                let head = concat("Couldn't save ", path.as_str());
                let middle = concat(head.as_str(), ": ");
                let text = concat(middle.as_str(), kind.as_str());
                Some(text)
            },
            _ => None,
        }
    }
}

/// What the shell found at a path named on the command line.
#[derive(Debug)]
pub enum PathRead {
    /// The path is a folder.
    Folder,
    /// The file's text, and its stamp as read.
    Loaded(String, Option<DiskStamp>),
    /// Nothing is there yet.
    NotFound,
    /// The read failed; `kind` describes how.
    Failed(String),
}

/// The problem a named path reports, if any: "<path>: is a folder" or
/// "<path>: <kind>".
pub open spec fn path_problem(path: Seq<char>, read: PathRead) -> Option<Seq<char>> {
    match read {
        PathRead::Folder => Some(path + ": is a folder"@),
        PathRead::Failed(kind) => Some(path + ": "@ + kind@),
        _ => None,
    }
}

/// `parts` joined with `separator` between them.
pub open spec fn joined(parts: Seq<Seq<char>>, separator: Seq<char>) -> Seq<char>
    decreases parts.len(),
{
    if parts.len() == 0 {
        Seq::empty()
    } else if parts.len() == 1 {
        parts[0]
    } else {
        joined(parts.drop_last(), separator) + separator + parts.last()
    }
}

/// The one banner several bad named paths share: "Couldn't open " and the
/// problems joined by "; ". `None` when there were none.
pub fn couldnt_open(problems: &Vec<String>) -> (text: Option<String>)
    ensures
        problems@.len() == 0 ==> text is None,
        problems@.len() > 0 ==> (text matches Some(t)
            && t@ == "Couldn't open "@ + joined(problems@.map_values(|p: String| p@), "; "@)),
{
    if problems.len() == 0 {
        return None;
    }
    let mut text = String::from_str("Couldn't open ");
    let ghost views = problems@.map_values(|p: String| p@);
    let mut i: usize = 0;
    while i < problems.len()
        invariant
            0 <= i <= problems@.len(),
            problems@.len() > 0,
            views == problems@.map_values(|p: String| p@),
            text@ == "Couldn't open "@ + joined(views.take(i as int), "; "@),
        decreases problems@.len() - i,
    {
        proof {
            assert(views.take(i + 1).drop_last() =~= views.take(i as int));
            assert(views.take(i + 1).last() == problems@[i as int]@);
        }
        if i > 0 {
            text.append("; ");
        }
        text.append(problems[i].as_str());
        proof {
            if i == 0 {
                assert(views.take(1) =~= seq![views[0]]);
            }
            assert(text@ =~= "Couldn't open "@ + joined(views.take(i + 1), "; "@));
        }
        i = i + 1;
    }
    assert(views.take(problems@.len() as int) =~= views);
    Some(text)
}

/// What a drop on the window does.
#[derive(Debug, Clone, Copy, PartialEq, Eq)]
pub enum DropOutcome {
    /// A dialog is up, and turns the drop away.
    Ignored,
    /// The file is already open in tab `index`, which is now active.
    Focused(usize),
    /// The shell reads the file (or reports a folder), then hands the text
    /// to `open_loaded_file`.
    Read,
}

impl Workspace {
    /// Opens one path named on the command line, once the shell has looked
    /// at it (a path already open in a tab is focused before any look, with
    /// `tab_index_for` and `switch_active`). A file that is not there yet
    /// opens as an empty buffer saved to that path on the first save. A
    /// folder or a failed read opens nothing and reports a problem.
    pub fn open_read_path(&mut self, path: String, read: PathRead, caret: Caret) -> (problem: Option<String>)
        requires
            old(self).wf(),
            old(self).next_id < u64::MAX,
        ensures
            final(self).wf(),
            match path_problem(path@, read) {
                Some(p) => problem matches Some(t) && t@ == p && final(self).unchanged(old(self)),
                None => problem is None,
            },
            match read {
                PathRead::Loaded(text, stamp) => {
                    &&& path_view(final(self).tabs@[final(self).active as int].document.path) == Some(path@)
                    &&& final(self).tabs@[final(self).active as int].text@ == text@
                    &&& !final(self).tabs@[final(self).active as int].dirty
                    &&& final(self).tabs@[final(self).active as int].disk == stamp
                    &&& Workspace::opened_in(*old(self), *final(self), caret)
                },
                PathRead::NotFound => {
                    &&& path_view(final(self).tabs@[final(self).active as int].document.path) == Some(path@)
                    &&& final(self).tabs@[final(self).active as int].text@ == Seq::<char>::empty()
                    &&& !final(self).tabs@[final(self).active as int].dirty
                    &&& final(self).tabs@[final(self).active as int].disk is None
                    &&& Workspace::opened_in(*old(self), *final(self), caret)
                },
                _ => true,
            },
    {
        match read {
            PathRead::Folder => {
                let head = String::from_str(path.as_str());
                let mut text = head;
                text.append(": is a folder");
                Some(text)
            },
            PathRead::Failed(kind) => {
                let mut text = String::from_str(path.as_str());
                text.append(": ");
                text.append(kind.as_str());
                Some(text)
            },
            PathRead::Loaded(contents, stamp) => {
                self.open_loaded_file(path, contents.as_str(), stamp, caret);
                None
            },
            PathRead::NotFound => {
                proof {
                    reveal_strlit("");
                }
                self.open_loaded_file(path, "", None, caret);
                None
            },
        }
    }

    /// A file was dropped on the window. A dialog turns it away; a file
    /// already open has its tab focused; otherwise the shell reads it.
    pub fn file_dropped(&mut self, path: &str, caret: Caret) -> (outcome: DropOutcome)
        requires
            old(self).wf(),
        ensures
            final(self).wf(),
            old(self).modal is Some ==> outcome == DropOutcome::Ignored && final(self).unchanged(old(self)),
            old(self).modal is None ==> match outcome {
                DropOutcome::Focused(i) => i < old(self).tabs@.len()
                    && path_view(old(self).tabs@[i as int].document.path) == Some(path@)
                    && (forall|j: int| 0 <= j < i ==> path_view(#[trigger] old(self).tabs@[j].document.path) != Some(path@))
                    && final(self).active == i
                    && final(self).switched_from(old(self), i, caret, i != old(self).active),
                DropOutcome::Read => final(self).unchanged(old(self))
                    && forall|j: int| 0 <= j < old(self).tabs@.len() ==>
                        path_view(#[trigger] old(self).tabs@[j].document.path) != Some(path@),
                DropOutcome::Ignored => false,
            },
    {
        if self.modal.is_some() {
            return DropOutcome::Ignored;
        }
        match self.tab_index_for(path) {
            Some(index) => {
                self.switch_active(index, caret);
                DropOutcome::Focused(index)
            },
            None => DropOutcome::Read,
        }
    }
}

} // verus!
