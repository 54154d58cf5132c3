//! Tabs: what is known about each open document besides its live buffer.
use vstd::prelude::*;
use vstd::string::StringExecFns;
use crate::disk::DiskStamp;
use crate::paths::{file_name_of, path_file_name};

verus! {

broadcast use vstd::string::group_string_axioms;

/// How a [`SavedSelection`] gets rebuilt on restore.
#[derive(Debug, Clone, Copy, PartialEq, Eq, Structural)]
pub enum SelectionKind {
    /// A plain anchor-to-cursor span.
    Range,
    /// The word around the anchor.
    Word,
    /// The line containing the anchor.
    Line,
}

/// A selection saved when a tab is deselected: the fixed anchor plus how
/// the selection was made.
#[derive(Debug, Clone, Copy, PartialEq, Eq)]
pub struct SavedSelection {
    pub anchor: (usize, usize),
    pub kind: SelectionKind,
}

/// Where a tab is saved, if anywhere.
pub struct Document {
    pub path: Option<String>,
}

/// The name a document is shown under: its file name, or "Untitled" when
/// it has no path or the path has no file name.
pub open spec fn display_name_spec(path: Option<Seq<char>>) -> Seq<char> {
    match path {
        Some(p) => match path_file_name(p) {
            Some(name) => name,
            None => "Untitled"@,
        },
        None => "Untitled"@,
    }
}

/// The view of an optional path.
pub open spec fn path_view(path: Option<String>) -> Option<Seq<char>> {
    match path {
        Some(p) => Some(p@),
        None => None,
    }
}

impl Default for Document {
    fn default() -> (document: Self)
        ensures
            document.path is None,
    {
        Document { path: None }
    }
}

impl Document {
    /// The name the document is shown under.
    pub fn display_name(&self) -> (name: String)
        ensures
            name@ == display_name_spec(path_view(self.path)),
    {
        proof {
            reveal_strlit("Untitled");
        }
        match &self.path {
            Some(path) => match file_name_of(path.as_str()) {
                Some(name) => name,
                None => String::from_str("Untitled"),
            },
            None => String::from_str("Untitled"),
        }
    }
}

/// The label of a tab's chip: the display name, then a bullet while there
/// are unsaved changes, then a warning sign while the file has also moved
/// on disk.
pub open spec fn title_spec(path: Option<Seq<char>>, dirty: bool, externally_changed: bool) -> Seq<char> {
    let name = display_name_spec(path);
    let with_dirt = if dirty { name + " \u{2022}"@ } else { name };
    if externally_changed { with_dirt + " \u{26a0}"@ } else { with_dirt }
}

/// One open tab: its metadata, and the text its editor holds.
pub struct Tab {
    pub id: u64,
    pub document: Document,
    pub dirty: bool,
    /// The text of the tab's buffer.
    pub text: String,
    /// Where the cursor was the last time this tab was active.
    pub last_cursor: (usize, usize),
    /// The selection the last time this tab was active.
    pub last_selection: Option<SavedSelection>,
    /// Bumped on every edit; compared against `flushed_generation` to tell
    /// whether this tab's draft file is stale.
    pub draft_generation: u64,
    /// The `draft_generation` last written to this tab's draft file.
    pub flushed_generation: u64,
    /// The file as last seen on disk; `None` for an untitled tab or one whose
    /// file is not on disk.
    pub disk: Option<DiskStamp>,
    /// The file changed on disk while this tab had unsaved edits.
    pub externally_changed: bool,
}

/// Whether `tab` is freshly built: no cursor history, no generations, no
/// stamp, no external change.
pub open spec fn is_fresh(tab: &Tab) -> bool {
    &&& tab.last_cursor == (0usize, 0usize)
    &&& tab.last_selection is None
    &&& tab.draft_generation == 0
    &&& tab.flushed_generation == 0
    &&& tab.disk is None
    &&& !tab.externally_changed
}

impl Tab {
    /// A new empty tab with no file.
    pub fn untitled(id: u64) -> (tab: Self)
        ensures
            tab.id == id,
            tab.document.path is None,
            !tab.dirty,
            tab.text@ == Seq::<char>::empty(),
            is_fresh(&tab),
    {
        Tab {
            id,
            document: Document { path: None },
            dirty: false,
            text: String::new(),
            last_cursor: (0, 0),
            last_selection: None,
            draft_generation: 0,
            flushed_generation: 0,
            disk: None,
            externally_changed: false,
        }
    }

    /// A clean tab showing `text`, the contents of the file at `path`.
    pub fn from_file(id: u64, path: String, text: &str) -> (tab: Self)
        ensures
            tab.id == id,
            path_view(tab.document.path) == Some(path@),
            !tab.dirty,
            tab.text@ == text@,
            is_fresh(&tab),
    {
        Tab {
            id,
            document: Document { path: Some(path) },
            dirty: false,
            text: String::from_str(text),
            last_cursor: (0, 0),
            last_selection: None,
            draft_generation: 0,
            flushed_generation: 0,
            disk: None,
            externally_changed: false,
        }
    }

    /// A tab rebuilt from a restored session entry: the caller decides the
    /// content and whether it is dirty.
    pub fn restored(id: u64, path: Option<String>, content: &str, dirty: bool) -> (tab: Self)
        ensures
            tab.id == id,
            path_view(tab.document.path) == path_view(path),
            tab.dirty == dirty,
            tab.text@ == content@,
            is_fresh(&tab),
    {
        Tab {
            id,
            document: Document { path },
            dirty,
            text: String::from_str(content),
            last_cursor: (0, 0),
            last_selection: None,
            draft_generation: 0,
            flushed_generation: 0,
            disk: None,
            externally_changed: false,
        }
    }

    /// Records `stamp`, the tab's file as it stands now, as what the tab
    /// last saw on disk. A tab without a file records none.
    pub fn restamp(&mut self, stamp: Option<DiskStamp>)
        ensures
            final(self).disk == if old(self).document.path is Some { stamp } else { None },
            final(self).id == old(self).id,
            final(self).document == old(self).document,
            final(self).dirty == old(self).dirty,
            final(self).text == old(self).text,
            final(self).last_cursor == old(self).last_cursor,
            final(self).last_selection == old(self).last_selection,
            final(self).draft_generation == old(self).draft_generation,
            final(self).flushed_generation == old(self).flushed_generation,
            final(self).externally_changed == old(self).externally_changed,
    {
        self.disk = match &self.document.path {
            Some(_) => stamp,
            None => None,
        };
    }

    /// The tab chip's label.
    pub fn title(&self) -> (title: String)
        ensures
            title@ == title_spec(path_view(self.document.path), self.dirty, self.externally_changed),
    {
        proof {
            reveal_strlit(" \u{2022}");
            reveal_strlit(" \u{26a0}");
        }
        let mut title = self.document.display_name();
        if self.dirty {
            title.append(" \u{2022}");
        }
        if self.externally_changed {
            title.append(" \u{26a0}");
        }
        title
    }
}

} // verus!
