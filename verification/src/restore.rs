//! Rebuilding the tab strip from a saved session: which entries come back,
//! with what content, and which files need a fresh read afterwards.
use vstd::prelude::*;
use vstd::string::StringExecFns;
use crate::disk::DiskStamp;
use crate::session::{entry_of, SessionManifest, TabEntry};
use crate::tab::{path_view, Tab};
use crate::workspace::Workspace;

verus! {

broadcast use vstd::string::group_string_axioms;

/// What the shell found on disk for one manifest entry before the session
/// is rebuilt.
pub struct EntryOnDisk {
    /// For a dirty entry, its draft's text; `None` when the draft could not
    /// be read. Ignored for a clean entry.
    pub draft: Option<String>,
    /// Whether the entry's file exists.
    pub file_exists: bool,
    /// The entry's file as it stands now.
    pub stamp: Option<DiskStamp>,
}

/// What a tab is, as far as a restore decides it: id, path, dirty flag,
/// text and disk stamp.
pub open spec fn tab_view(tab: Tab) -> (u64, Option<Seq<char>>, bool, Seq<char>, Option<DiskStamp>) {
    (tab.id, path_view(tab.document.path), tab.dirty, tab.text@, tab.disk)
}

/// The stamp a tab holding `path` takes: none without a file.
pub open spec fn stamp_for(path: Option<String>, stamp: Option<DiskStamp>) -> Option<DiskStamp> {
    if path is Some { stamp } else { None }
}

/// The tab one entry comes back as, or `None` when it is dropped. A dirty
/// entry comes back with its draft; without a readable draft it falls back
/// to an empty, clean tab on its file, or is dropped when it has none. A
/// clean entry on a file comes back empty and clean (its file is read
/// afterwards); a clean untitled entry comes back as an empty tab.
pub open spec fn restored_entry(entry: TabEntry, disk: EntryOnDisk) -> Option<(u64, Option<Seq<char>>, bool, Seq<char>, Option<DiskStamp>)> {
    if entry.dirty {
        match disk.draft {
            Some(content) => Some((entry.id, path_view(entry.path), true, content@, stamp_for(entry.path, disk.stamp))),
            None => if entry.path is Some {
                Some((entry.id, path_view(entry.path), false, Seq::<char>::empty(), disk.stamp))
            } else {
                None
            },
        }
    } else {
        Some((entry.id, path_view(entry.path), false, Seq::<char>::empty(), stamp_for(entry.path, disk.stamp)))
    }
}

/// Whether one entry's file is read again once the strip is rebuilt: a
/// dirty entry whose draft was lost, or a clean one whose file exists.
pub open spec fn reloads_entry(entry: TabEntry, disk: EntryOnDisk) -> bool {
    entry.path is Some && if entry.dirty { disk.draft is None } else { disk.file_exists }
}

/// The restored tabs of `entries`, in order.
pub open spec fn restored_views(entries: Seq<TabEntry>, disks: Seq<EntryOnDisk>) -> Seq<(u64, Option<Seq<char>>, bool, Seq<char>, Option<DiskStamp>)>
    decreases entries.len(),
{
    if entries.len() == 0 {
        Seq::empty()
    } else {
        let rest = restored_views(entries.drop_last(), disks.drop_last());
        match restored_entry(entries.last(), disks[entries.len() - 1]) {
            Some(v) => rest.push(v),
            None => rest,
        }
    }
}

/// The `(id, path)` of every file read again after a restore, in order.
pub open spec fn reload_list(entries: Seq<TabEntry>, disks: Seq<EntryOnDisk>) -> Seq<(u64, Seq<char>)>
    decreases entries.len(),
{
    if entries.len() == 0 {
        Seq::empty()
    } else {
        let rest = reload_list(entries.drop_last(), disks.drop_last());
        let entry = entries.last();
        if reloads_entry(entry, disks[entries.len() - 1]) {
            rest.push((entry.id, entry.path->0@))
        } else {
            rest
        }
    }
}

/// The largest id among `entries`, or -1 when there are none.
pub open spec fn max_entry_id(entries: Seq<TabEntry>) -> int
    decreases entries.len(),
{
    if entries.len() == 0 {
        -1
    } else {
        let rest = max_entry_id(entries.drop_last());
        if entries.last().id > rest { entries.last().id as int } else { rest }
    }
}

/// Every restored tab's id is one of the entries', so at most their largest.
proof fn lemma_restored_ids_bounded(entries: Seq<TabEntry>, disks: Seq<EntryOnDisk>)
    requires
        disks.len() == entries.len(),
    ensures
        forall|j: int| 0 <= j < restored_views(entries, disks).len() ==>
            #[trigger] restored_views(entries, disks)[j].0 <= max_entry_id(entries),
    decreases entries.len(),
{
    if entries.len() > 0 {
        let rest = restored_views(entries.drop_last(), disks.drop_last());
        lemma_restored_ids_bounded(entries.drop_last(), disks.drop_last());
        assert forall|j: int| 0 <= j < restored_views(entries, disks).len() implies
            #[trigger] restored_views(entries, disks)[j].0 <= max_entry_id(entries) by {
            if j < rest.len() {
                assert(restored_views(entries, disks)[j] == rest[j]);
            }
        }
    }
}

/// The largest id is below any bound all ids are below.
proof fn lemma_max_entry_id_below(entries: Seq<TabEntry>, bound: int)
    requires
        forall|i: int| 0 <= i < entries.len() ==> #[trigger] entries[i].id < bound,
        bound > -1,
    ensures
        max_entry_id(entries) < bound,
    decreases entries.len(),
{
    if entries.len() > 0 {
        lemma_max_entry_id_below(entries.drop_last(), bound);
        assert(entries.last() == entries[entries.len() - 1]);
    }
}

/// Every dirty tab's draft holds that tab's text.
pub open spec fn drafts_hold(tabs: Seq<Tab>, disks: Seq<EntryOnDisk>) -> bool {
    &&& disks.len() == tabs.len()
    &&& forall|i: int| 0 <= i < tabs.len() && #[trigger] tabs[i].dirty ==>
        (disks[i].draft matches Some(d) && d@ == tabs[i].text@)
}

/// Restoring the entries of `tabs` with their drafts intact gives one tab
/// per entry, in order, with the entry's id, file and dirty flag, and a
/// dirty tab with its text.
proof fn lemma_restored_views_of_tabs(tabs: Seq<Tab>, entries: Seq<TabEntry>, disks: Seq<EntryOnDisk>)
    requires
        entries.map_values(|e: TabEntry| crate::session::entry_view(e)) == tabs.map_values(|t: Tab| entry_of(t)),
        drafts_hold(tabs, disks),
    ensures
        restored_views(entries, disks).len() == tabs.len(),
        forall|i: int| 0 <= i < tabs.len() ==> {
            let v = #[trigger] restored_views(entries, disks)[i];
            &&& v.0 == tabs[i].id
            &&& v.1 == path_view(tabs[i].document.path)
            &&& v.2 == tabs[i].dirty
            &&& tabs[i].dirty ==> v.3 == tabs[i].text@
        },
    decreases tabs.len(),
{
    assert(entries.len() == entries.map_values(|e: TabEntry| crate::session::entry_view(e)).len());
    if tabs.len() > 0 {
        let n = tabs.len() - 1;
        let ev = entries.map_values(|e: TabEntry| crate::session::entry_view(e));
        let tv = tabs.map_values(|t: Tab| entry_of(t));
        assert(entries.drop_last().map_values(|e: TabEntry| crate::session::entry_view(e)) =~= ev.drop_last());
        assert(tabs.drop_last().map_values(|t: Tab| entry_of(t)) =~= tv.drop_last());
        assert(drafts_hold(tabs.drop_last(), disks.drop_last())) by {
            assert forall|k: int| 0 <= k < n && #[trigger] tabs.drop_last()[k].dirty implies
                (disks.drop_last()[k].draft matches Some(d) && d@ == tabs.drop_last()[k].text@) by {
                assert(tabs[k].dirty);
            }
        }
        lemma_restored_views_of_tabs(tabs.drop_last(), entries.drop_last(), disks.drop_last());
        assert(entries.map_values(|e: TabEntry| crate::session::entry_view(e))[n]
            == tabs.map_values(|t: Tab| entry_of(t))[n]);
        assert(entries.last() == entries[n]);
        if tabs[n].dirty {
            assert(disks[n].draft is Some);
        }
        let rest = restored_views(entries.drop_last(), disks.drop_last());
        assert forall|i: int| 0 <= i < tabs.len() implies {
            let v = #[trigger] restored_views(entries, disks)[i];
            &&& v.0 == tabs[i].id
            &&& v.1 == path_view(tabs[i].document.path)
            &&& v.2 == tabs[i].dirty
            &&& tabs[i].dirty ==> v.3 == tabs[i].text@
        } by {
            if i < n {
                assert(restored_views(entries, disks)[i] == rest[i]);
                assert(tabs.drop_last()[i] == tabs[i]);
            }
        }
    }
}

/// A saved session comes back as it was: rebuilding the strip from the
/// manifest of `tabs` (with `active` active), with every dirty tab's draft
/// holding its text, reopens one tab per saved tab, in the same order, with
/// the same ids, files and dirty flags, every dirty tab with its unsaved
/// text, and the same tab active.
pub proof fn lemma_session_round_trip(tabs: Seq<Tab>, active: usize, manifest: SessionManifest, disks: Seq<EntryOnDisk>)
    requires
        0 <= active < tabs.len(),
        manifest.active == active,
        manifest.tabs@.map_values(|e: TabEntry| crate::session::entry_view(e)) == tabs.map_values(|t: Tab| entry_of(t)),
        drafts_hold(tabs, disks),
    ensures
        ({
            let views = restored_views(manifest.tabs@, disks);
            &&& views.len() == tabs.len()
            &&& forall|i: int| 0 <= i < tabs.len() ==> {
                let v = #[trigger] views[i];
                &&& v.0 == tabs[i].id
                &&& v.1 == path_view(tabs[i].document.path)
                &&& v.2 == tabs[i].dirty
                &&& tabs[i].dirty ==> v.3 == tabs[i].text@
            }
            &&& (if manifest.active < views.len() { manifest.active as int } else { views.len() - 1 }) == active
        }),
{
    lemma_restored_views_of_tabs(tabs, manifest.tabs@, disks);
}

/// A rebuilt session: the strip, and the files to read again, as
/// `(tab id, path)`.
pub struct RestoredSession {
    pub workspace: Workspace,
    pub reloads: Vec<(u64, String)>,
}

/// Rebuilds the tab strip from `manifest`, given what was found on disk for
/// each of its entries. When nothing comes back the strip starts over with
/// one untitled tab; otherwise the manifest's active tab (or the last one,
/// when it names a tab that did not come back) is active, and new ids
/// continue after the largest id the manifest used.
pub fn restore_session(manifest: &SessionManifest, disk: &Vec<EntryOnDisk>) -> (restored: RestoredSession)
    requires
        disk@.len() == manifest.tabs@.len(),
        forall|i: int| 0 <= i < manifest.tabs@.len() ==> #[trigger] manifest.tabs@[i].id < u64::MAX,
    ensures
        ({
            let views = restored_views(manifest.tabs@, disk@);
            let ws = restored.workspace;
            &&& ws.wf()
            &&& ws.modal is None
            &&& ws.close_queue@.len() == 0
            &&& ws.conflict_queue@.len() == 0
            &&& ws.pending_close_after_save@.len() == 0
            &&& !ws.file_dialog_active
            &&& forall|j: int| 0 <= j < ws.tabs@.len() ==> {
                let t = #[trigger] ws.tabs@[j];
                &&& t.last_cursor == (0usize, 0usize)
                &&& t.last_selection is None
                &&& t.draft_generation == 0
                &&& t.flushed_generation == 0
                &&& !t.externally_changed
            }
            &&& restored.reloads@.map_values(|r: (u64, String)| (r.0, r.1@)) == reload_list(manifest.tabs@, disk@)
            &&& if views.len() == 0 {
                &&& ws.tabs@.len() == 1
                &&& tab_view(ws.tabs@[0]) == (0u64, None::<Seq<char>>, false, Seq::<char>::empty(), None::<DiskStamp>)
                &&& ws.active == 0
                &&& ws.next_id == 1
                &&& ws.previous_active_id is None
            } else {
                &&& ws.tabs@.map_values(|t: Tab| tab_view(t)) == views
                &&& ws.next_id == max_entry_id(manifest.tabs@) + 1
                &&& ws.active == if manifest.active < views.len() { manifest.active as int } else { views.len() - 1 }
                &&& ws.previous_active_id == if ws.active != 0 { Some(ws.tabs@[0].id) } else { None }
            }
        }),
{
    let mut tabs: Vec<Tab> = Vec::new();
    let mut reloads: Vec<(u64, String)> = Vec::new();
    let mut max_id: u64 = 0;
    let mut any: bool = false;
    let mut i: usize = 0;
    while i < manifest.tabs.len()
        invariant
            0 <= i <= manifest.tabs@.len(),
            disk@.len() == manifest.tabs@.len(),
            forall|k: int| 0 <= k < manifest.tabs@.len() ==> #[trigger] manifest.tabs@[k].id < u64::MAX,
            tabs@.map_values(|t: Tab| tab_view(t)) == restored_views(manifest.tabs@.take(i as int), disk@.take(i as int)),
            reloads@.map_values(|r: (u64, String)| (r.0, r.1@)) == reload_list(manifest.tabs@.take(i as int), disk@.take(i as int)),
            any == (i > 0),
            any ==> max_id == max_entry_id(manifest.tabs@.take(i as int)),
            !any ==> max_entry_id(manifest.tabs@.take(i as int)) == -1,
            forall|j: int| 0 <= j < tabs@.len() ==> {
                let t = #[trigger] tabs@[j];
                &&& t.last_cursor == (0usize, 0usize)
                &&& t.last_selection is None
                &&& t.draft_generation == 0
                &&& t.flushed_generation == 0
                &&& !t.externally_changed
            },
        decreases manifest.tabs@.len() - i,
    {
        let entry = &manifest.tabs[i];
        let on_disk = &disk[i];
        proof {
            assert(manifest.tabs@.take(i + 1).drop_last() =~= manifest.tabs@.take(i as int));
            assert(disk@.take(i + 1).drop_last() =~= disk@.take(i as int));
            assert(manifest.tabs@.take(i + 1).last() == manifest.tabs@[i as int]);
            assert(disk@.take(i + 1)[i as int] == disk@[i as int]);
        }
        let ghost before = tabs@.map_values(|t: Tab| tab_view(t));
        let ghost before_reloads = reloads@.map_values(|r: (u64, String)| (r.0, r.1@));
        let ghost v = restored_entry(*entry, *on_disk);
        let ghost reloads_it = reloads_entry(*entry, *on_disk);
        if !any || entry.id > max_id {
            max_id = entry.id;
        }
        any = true;
        let path = match &entry.path {
            Some(p) => Some(p.clone()),
            None => None,
        };
        let stamp = match &entry.path {
            Some(_) => on_disk.stamp,
            None => None,
        };
        proof {
            reveal_strlit("");
        }
        if entry.dirty {
            match &on_disk.draft {
                Some(content) => {
                    let mut tab = Tab::restored(entry.id, path, content.as_str(), true);
                    tab.disk = stamp;
                    assert(v == Some(tab_view(tab)));
                    tabs.push(tab);
                },
                None => {
                    match path {
                        Some(p) => {
                            let mut tab = Tab::restored(entry.id, Some(p.clone()), "", false);
                            tab.disk = on_disk.stamp;
                            assert(v == Some(tab_view(tab)));
                            tabs.push(tab);
                            reloads.push((entry.id, p));
                        },
                        None => {
                            assert(v is None);
                        },
                    }
                },
            }
        } else {
            match path {
                Some(p) => {
                    let mut tab = Tab::restored(entry.id, Some(p.clone()), "", false);
                    tab.disk = on_disk.stamp;
                    assert(v == Some(tab_view(tab)));
                    tabs.push(tab);
                    if on_disk.file_exists {
                        reloads.push((entry.id, p));
                    }
                },
                None => {
                    let tab = Tab::untitled(entry.id);
                    assert(v == Some(tab_view(tab)));
                    tabs.push(tab);
                },
            }
        }
        proof {
            let now = tabs@.map_values(|t: Tab| tab_view(t));
            match v {
                Some(x) => assert(now =~= before.push(x)),
                None => assert(now =~= before),
            }
            let now_reloads = reloads@.map_values(|r: (u64, String)| (r.0, r.1@));
            if reloads_it {
                assert(now_reloads =~= before_reloads.push((entry.id, entry.path->0@)));
            } else {
                assert(now_reloads =~= before_reloads);
            }
            assert(tabs@.map_values(|t: Tab| tab_view(t)) =~= restored_views(manifest.tabs@.take(i + 1), disk@.take(i + 1)));
            assert(reloads@.map_values(|r: (u64, String)| (r.0, r.1@)) =~= reload_list(manifest.tabs@.take(i + 1), disk@.take(i + 1)));
        }
        i = i + 1;
    }
    proof {
        assert(manifest.tabs@.take(manifest.tabs@.len() as int) =~= manifest.tabs@);
        assert(disk@.take(disk@.len() as int) =~= disk@);
        lemma_restored_ids_bounded(manifest.tabs@, disk@);
        lemma_max_entry_id_below(manifest.tabs@, u64::MAX as int);
    }
    let ghost views = restored_views(manifest.tabs@, disk@);
    assert(tabs@.len() == views.len()) by {
        assert(tabs@.map_values(|t: Tab| tab_view(t)).len() == tabs@.len());
    }
    if tabs.len() == 0 {
        let workspace = Workspace::new();
        return RestoredSession { workspace, reloads };
    }
    let count = tabs.len();
    let active = if manifest.active < count { manifest.active } else { count - 1 };
    let previous_active_id = if active != 0 { Some(tabs[0].id) } else { None };
    proof {
        assert forall|j: int| 0 <= j < tabs@.len() implies #[trigger] tabs@[j].id < max_id + 1 by {
            assert(tabs@.map_values(|t: Tab| tab_view(t))[j] == tab_view(tabs@[j]));
            assert(views[j].0 <= max_entry_id(manifest.tabs@));
        }
    }
    let workspace = Workspace {
        tabs,
        active,
        next_id: max_id + 1,
        modal: None,
        close_queue: Vec::new(),
        conflict_queue: Vec::new(),
        pending_close_after_save: Vec::new(),
        previous_active_id,
        file_dialog_active: false,
    };
    RestoredSession { workspace, reloads }
}

} // verus!
