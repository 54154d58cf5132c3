//! Draft autosave and crash-recovery bookkeeping: the session manifest that
//! lists every open tab, and the `<id>.draft` files that hold dirty tabs'
//! unsaved content.
use vstd::prelude::*;
use vstd::string::StringExecFns;
use crate::paths::{file_name_of, join_path, path_file_name, path_join};
use crate::tab::{path_view, Tab};
use crate::text::{decimal, digit_char, push_char, push_decimal};

verus! {

broadcast use vstd::string::group_string_axioms;

/// One open tab, as the manifest records it.
#[derive(Debug, Clone)]
pub struct TabEntry {
    pub id: u64,
    pub path: Option<String>,
    pub dirty: bool,
}

/// Every open tab's id, path and dirty state, plus which tab was active.
#[derive(Debug, Clone)]
pub struct SessionManifest {
    pub active: usize,
    pub tabs: Vec<TabEntry>,
}

impl Default for SessionManifest {
    fn default() -> (manifest: Self)
        ensures
            manifest.active == 0,
            manifest.tabs@.len() == 0,
    {
        SessionManifest { active: 0, tabs: Vec::new() }
    }
}

/// The manifest's file name inside the session directory.
pub const MANIFEST_FILE: &'static str = "session.toml";

/// The file name of tab `id`'s draft.
pub open spec fn draft_file_name(id: u64) -> Seq<char> {
    decimal(id as nat) + ".draft"@
}

/// Where tab `id`'s draft lives inside `dir`.
pub fn draft_path(dir: &str, id: u64) -> (path: String)
    ensures
        path@ == path_join(dir@, draft_file_name(id)),
{
    let mut name = String::new();
    push_decimal(&mut name, id);
    name.append(".draft");
    assert(name@ =~= draft_file_name(id));
    join_path(dir, name.as_str())
}

/// Where the manifest lives inside `dir`.
pub fn manifest_path(dir: &str) -> (path: String)
    ensures
        path@ == path_join(dir@, "session.toml"@),
{
    join_path(dir, MANIFEST_FILE)
}

/// The manifest entry for a tab.
pub open spec fn entry_of(tab: Tab) -> (u64, Option<Seq<char>>, bool) {
    (tab.id, path_view(tab.document.path), tab.dirty)
}

/// The abstract value of a manifest entry.
pub open spec fn entry_view(entry: TabEntry) -> (u64, Option<Seq<char>>, bool) {
    (entry.id, path_view(entry.path), entry.dirty)
}

/// Snapshots the tab list into a manifest: one entry per tab, in order.
pub fn build_manifest(tabs: &[Tab], active: usize) -> (manifest: SessionManifest)
    ensures
        manifest.active == active,
        manifest.tabs@.map_values(|e: TabEntry| entry_view(e)) == tabs@.map_values(|t: Tab| entry_of(t)),
{
    let mut entries: Vec<TabEntry> = Vec::new();
    let mut i: usize = 0;
    while i < tabs.len()
        invariant
            0 <= i <= tabs@.len(),
            entries@.map_values(|e: TabEntry| entry_view(e)) == tabs@.take(i as int).map_values(|t: Tab| entry_of(t)),
        decreases tabs@.len() - i,
    {
        let tab = &tabs[i];
        let path = match &tab.document.path {
            Some(p) => Some(p.clone()),
            None => None,
        };
        let entry = TabEntry { id: tab.id, path, dirty: tab.dirty };
        assert(entry_view(entry) == entry_of(tabs@[i as int]));
        let ghost before = entries@;
        entries.push(entry);
        proof {
            assert(entries@ =~= before.push(entry));
            assert(entries@.map_values(|e: TabEntry| entry_view(e)) =~= before.map_values(|e: TabEntry| entry_view(e)).push(entry_view(entry)));
            assert(tabs@.take(i + 1) =~= tabs@.take(i as int).push(tabs@[i as int]));
            assert(entries@.map_values(|e: TabEntry| entry_view(e)) =~= tabs@.take(i + 1).map_values(|t: Tab| entry_of(t)));
        }
        i = i + 1;
    }
    assert(tabs@.take(tabs@.len() as int) =~= tabs@);
    SessionManifest { active, tabs: entries }
}

/// Whether a tab's draft is stale: it has unsaved content that changed
/// since its draft was last written.
pub open spec fn is_stale(tab: Tab) -> bool {
    tab.dirty && tab.draft_generation != tab.flushed_generation
}

/// `(id, generation, text)` of every stale tab, in tab order.
pub open spec fn stale_spec(tabs: Seq<Tab>) -> Seq<(u64, u64, Seq<char>)>
    decreases tabs.len(),
{
    if tabs.len() == 0 {
        Seq::empty()
    } else {
        let rest = stale_spec(tabs.drop_last());
        let tab = tabs.last();
        if is_stale(tab) {
            rest.push((tab.id, tab.draft_generation, tab.text@))
        } else {
            rest
        }
    }
}

/// The abstract value of a stale-tab record.
pub open spec fn stale_view(r: (u64, u64, String)) -> (u64, u64, Seq<char>) {
    (r.0, r.1, r.2@)
}

/// Every tab whose content changed since its draft was last written, as
/// `(id, generation, text)`.
pub fn stale_tabs(tabs: &[Tab]) -> (stale: Vec<(u64, u64, String)>)
    ensures
        stale@.map_values(|r: (u64, u64, String)| stale_view(r)) == stale_spec(tabs@),
{
    let mut out: Vec<(u64, u64, String)> = Vec::new();
    let mut i: usize = 0;
    while i < tabs.len()
        invariant
            0 <= i <= tabs@.len(),
            out@.map_values(|r: (u64, u64, String)| stale_view(r)) == stale_spec(tabs@.take(i as int)),
        decreases tabs@.len() - i,
    {
        let tab = &tabs[i];
        proof {
            assert(tabs@.take(i + 1).drop_last() =~= tabs@.take(i as int));
        }
        if tab.dirty && tab.draft_generation != tab.flushed_generation {
            out.push((tab.id, tab.draft_generation, tab.text.clone()));
            proof {
                assert(out@.map_values(|r: (u64, u64, String)| stale_view(r)) =~= stale_spec(tabs@.take(i + 1)));
            }
        }
        i = i + 1;
    }
    assert(tabs@.take(tabs@.len() as int) =~= tabs@);
    out
}

/// The numeric value of a run of decimal digits.
pub open spec fn digits_value(s: Seq<char>) -> nat
    decreases s.len(),
{
    if s.len() == 0 {
        0
    } else {
        digits_value(s.drop_last()) * 10 + ((s.last() as int - '0' as int) as nat)
    }
}

/// Whether every character of `s` is an ASCII digit.
pub open spec fn all_digits(s: Seq<char>) -> bool {
    forall|i: int| 0 <= i < s.len() ==> '0' <= #[trigger] s[i] <= '9'
}

/// What `str::parse::<u64>` accepts: an optional `+`, then one or more
/// ASCII digits whose value fits in a `u64`.
pub open spec fn parse_u64_spec(s: Seq<char>) -> Option<u64> {
    let digits = if s.len() > 0 && s[0] == '+' { s.drop_first() } else { s };
    if digits.len() > 0 && all_digits(digits) && digits_value(digits) <= u64::MAX {
        Some(digits_value(digits) as u64)
    } else {
        None
    }
}

/// A longer run of digits is worth at least as much as its prefix.
proof fn lemma_digits_value_grows(s: Seq<char>, i: int)
    requires
        0 <= i <= s.len(),
        all_digits(s),
    ensures
        digits_value(s.take(i)) <= digits_value(s),
    decreases s.len() - i,
{
    if i < s.len() {
        lemma_digits_value_grows(s, i + 1);
        assert(s.take(i + 1).drop_last() =~= s.take(i));
    } else {
        assert(s.take(i) =~= s);
    }
}

/// Parses a decimal `u64` the way `str::parse::<u64>` does.
#[verifier::loop_isolation(false)]
pub fn parse_u64(s: &str) -> (value: Option<u64>)
    ensures
        value == parse_u64_spec(s@),
{
    let chars = crate::text::chars_of(s);
    let mut start: usize = 0;
    if chars.len() > 0 && chars[0] == '+' {
        start = 1;
    }
    let ghost digits = if s@.len() > 0 && s@[0] == '+' { s@.drop_first() } else { s@ };
    assert(digits =~= chars@.skip(start as int));
    if start >= chars.len() {
        return None;
    }
    let mut acc: u128 = 0;
    let mut i: usize = start;
    while i < chars.len()
        invariant
            start <= i <= chars@.len(),
            digits == chars@.skip(start as int),
            all_digits(digits.take(i - start)),
            acc == digits_value(digits.take(i - start)),
            acc <= u64::MAX,
        decreases chars@.len() - i,
    {
        let c = chars[i];
        if c < '0' || c > '9' {
            assert(digits[i - start] == c);
            assert(!('0' <= digits[i - start] <= '9'));
            assert(!all_digits(digits));
            return None;
        }
        let d = (c as u32 - '0' as u32) as u128;
        proof {
            assert(digits.take(i + 1 - start).drop_last() =~= digits.take(i - start));
            assert(digits.take(i + 1 - start).last() == c);
        }
        acc = acc * 10 + d;
        if acc > u64::MAX as u128 {
            proof {
                assert(all_digits(digits.take(i + 1 - start)));
                if all_digits(digits) {
                    lemma_digits_value_grows(digits, i + 1 - start);
                }
            }
            return None;
        }
        i = i + 1;
    }
    assert(digits.take(chars@.len() - start) =~= digits);
    Some(acc as u64)
}

/// The id a file named `name` is the draft of: a name `<stem>.draft` with a
/// non-empty stem (so that `draft` is its extension) whose stem parses as
/// a `u64`.
pub open spec fn draft_id(name: Seq<char>) -> Option<u64> {
    if name.len() > 6 && name.skip(name.len() - 6) == ".draft"@ {
        parse_u64_spec(name.take(name.len() - 6))
    } else {
        None
    }
}

/// Whether a file named `name` has the `draft` extension.
pub open spec fn has_draft_extension(name: Seq<char>) -> bool {
    name.len() > 6 && name.skip(name.len() - 6) == ".draft"@
}

/// Whether `id` belongs to a dirty tab in `manifest`.
pub open spec fn is_live_id(manifest: SessionManifest, id: u64) -> bool {
    exists|i: int| 0 <= i < manifest.tabs@.len() && #[trigger] manifest.tabs@[i].id == id && manifest.tabs@[i].dirty
}

/// Whether a file named `name` is a draft that no longer belongs to a
/// dirty tab in `manifest`. Files without the `draft` extension are never
/// drafts.
pub open spec fn is_orphan_name(name: Seq<char>, manifest: SessionManifest) -> bool {
    has_draft_extension(name) && match draft_id(name) {
        Some(id) => !is_live_id(manifest, id),
        None => true,
    }
}

/// Whether the file at `path` is a draft that no longer belongs to a dirty
/// tab in `manifest`, and so should be removed.
pub open spec fn is_orphaned_draft_spec(path: Seq<char>, manifest: SessionManifest) -> bool {
    match path_file_name(path) {
        Some(name) => is_orphan_name(name, manifest),
        None => false,
    }
}

/// A digit character stands for its digit.
proof fn lemma_digit_char_value(d: nat)
    requires
        d < 10,
    ensures
        '0' <= digit_char(d) <= '9',
        digit_char(d) as int - '0' as int == d,
{
}

/// Decimal text reads back as the number it writes.
proof fn lemma_decimal_reads_back(n: nat)
    ensures
        decimal(n).len() > 0,
        all_digits(decimal(n)),
        digits_value(decimal(n)) == n,
    decreases n,
{
    if n < 10 {
        lemma_digit_char_value(n);
        assert(decimal(n).drop_last() =~= Seq::<char>::empty());
        assert(digits_value(decimal(n).drop_last()) == 0);
        assert(decimal(n).last() == digit_char(n));
        assert(digits_value(decimal(n)) == n);
    } else {
        lemma_decimal_reads_back(n / 10);
        lemma_digit_char_value(n % 10);
        let d = decimal(n);
        assert(d.drop_last() =~= decimal(n / 10));
        assert forall|i: int| 0 <= i < d.len() implies '0' <= #[trigger] d[i] <= '9' by {
            if i < d.len() - 1 {
                assert(d[i] == decimal(n / 10)[i]);
            }
        }
        assert(digits_value(d) == digits_value(decimal(n / 10)) * 10 + n % 10);
        assert(n == (n / 10) * 10 + n % 10);
        assert(digits_value(d) == n);
    }
}

/// A draft's file name names its tab back: the draft of tab `id` reads as
/// the draft of `id`, so the draft of every dirty tab in a manifest is kept
/// when orphaned drafts are pruned.
pub proof fn lemma_live_drafts_are_kept(id: u64, manifest: SessionManifest)
    ensures
        has_draft_extension(draft_file_name(id)),
        draft_id(draft_file_name(id)) == Some(id),
        is_live_id(manifest, id) ==> !is_orphan_name(draft_file_name(id), manifest),
        !is_live_id(manifest, id) ==> is_orphan_name(draft_file_name(id), manifest),
{
    reveal_strlit(".draft");
    lemma_decimal_reads_back(id as nat);
    let digits = decimal(id as nat);
    let name = draft_file_name(id);
    assert(name.len() > 6);
    assert(name.skip(name.len() - 6) =~= ".draft"@);
    assert(name.take(name.len() - 6) =~= digits);
    assert('0' <= digits[0] <= '9');
}

/// Whether the file at `path` is an orphaned draft.
#[verifier::loop_isolation(false)]
pub fn is_orphaned_draft(path: &str, manifest: &SessionManifest) -> (orphaned: bool)
    ensures
        orphaned == is_orphaned_draft_spec(path@, *manifest),
{
    proof {
        reveal_strlit(".draft");
    }
    let name = match file_name_of(path) {
        Some(name) => name,
        None => return false,
    };
    let chars = crate::text::chars_of(name.as_str());
    let n = chars.len();
    if n <= 6 {
        return false;
    }
    let suffix = crate::text::chars_of(".draft");
    assert(suffix@.len() == 6);
    let mut k: usize = 0;
    while k < 6
        invariant
            0 <= k <= 6,
            n == chars@.len(),
            n > 6,
            suffix@ == ".draft"@,
            suffix@.len() == 6,
            forall|m: int| 0 <= m < k ==> chars@[n - 6 + m] == suffix@[m],
        decreases 6 - k,
    {
        if chars[n - 6 + k] != suffix[k] {
            assert(chars@.skip(n - 6)[k as int] != ".draft"@[k as int]);
            return false;
        }
        k = k + 1;
    }
    assert(chars@.skip(n - 6) =~= ".draft"@);
    let mut stem = String::new();
    let mut j: usize = 0;
    while j < n - 6
        invariant
            0 <= j <= n - 6,
            n == chars@.len(),
            stem@ == chars@.take(j as int),
        decreases n - 6 - j,
    {
        let c = chars[j];
        push_char(&mut stem, c);
        assert(chars@.take(j + 1) =~= chars@.take(j as int).push(c));
        j = j + 1;
    }
    match parse_u64(stem.as_str()) {
        Some(id) => {
            let mut live = false;
            let mut i: usize = 0;
            while i < manifest.tabs.len()
                invariant
                    0 <= i <= manifest.tabs@.len(),
                    live == exists|m: int| 0 <= m < i && #[trigger] manifest.tabs@[m].id == id && manifest.tabs@[m].dirty,
                decreases manifest.tabs@.len() - i,
            {
                if manifest.tabs[i].id == id && manifest.tabs[i].dirty {
                    live = true;
                }
                i = i + 1;
            }
            !live
        },
        None => true,
    }
}

} // verus!
