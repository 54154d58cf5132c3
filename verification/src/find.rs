//! Case-insensitive, single-file text search backing the find palette.
use vstd::prelude::*;
use crate::text::{
    char_width, chars_of, lemma_size_prefix, lemma_size_push, split_lines, strip_cr, utf8_size,
    utf8_width,
};

verus! {

broadcast use vstd::string::group_string_axioms, vstd::slice::group_slice_axioms;

/// One occurrence of a find query, as byte columns within a single line.
#[derive(Debug, Clone, Copy, PartialEq, Eq, Structural)]
pub struct FindMatch {
    pub line: usize,
    pub start: usize,
    pub end: usize,
}

/// What `char::to_lowercase` yields for `c`.
pub uninterp spec fn char_lowercase(c: char) -> Seq<char>;

/// What `str::to_lowercase` yields for a string holding `s`.
pub uninterp spec fn str_lowercase(s: Seq<char>) -> Seq<char>;

/// Calls `char::to_lowercase` and collects what it yields. Claimed: the
/// characters collected are `char_lowercase(c)`, whatever that mapping is;
/// and for an ASCII `c` they are the one character `c.to_ascii_lowercase()`
/// gives (a capital `A` to `Z` made small, anything else kept), which is
/// Unicode's lowercase mapping of the ASCII range. Nothing else is claimed
/// of the mapping.
#[verifier::external_body]
fn lowercase_char(c: char) -> (lowered: Vec<char>)
    ensures
        lowered@ == char_lowercase(c),
        (c as u32) < 128 ==> lowered@ == seq![ascii_lower_char(c)],
{
    c.to_lowercase().collect()
}

/// Whether every character of `s` is ASCII.
pub open spec fn all_ascii(s: Seq<char>) -> bool {
    forall|i: int| 0 <= i < s.len() ==> (#[trigger] s[i] as u32) < 128
}

/// `c` with an ASCII capital letter turned into its small letter.
pub open spec fn ascii_lower_char(c: char) -> char {
    if 65 <= (c as u32) <= 90 { ((c as u32) + 32) as char } else { c }
}

/// `s` with each ASCII capital letter turned into its small letter.
pub open spec fn ascii_lowered(s: Seq<char>) -> Seq<char> {
    s.map_values(|c: char| ascii_lower_char(c))
}

/// Calls `str::to_lowercase`. Claimed: the result holds
/// `str_lowercase(s@)`, whatever that mapping is; and, for a string of
/// ASCII characters only, it is the string with each capital letter `A`
/// to `Z` made small and every other character kept. std's documentation
/// of `str::to_ascii_lowercase` (which does exactly that) sends readers to
/// `to_lowercase` to lowercase ASCII characters in addition to non-ASCII
/// ones, and Unicode's lowercase mapping of the ASCII range is that one.
/// Nothing else is claimed of the mapping.
#[verifier::external_body]
fn lowercase_str(s: &str) -> (lowered: String)
    ensures
        lowered@ == str_lowercase(s@),
        all_ascii(s@) ==> lowered@ == ascii_lowered(s@),
{
    s.to_lowercase()
}

/// The lowercased form of `line`, one entry per lowered character: the
/// character, and the byte range of the original character that produced it.
pub open spec fn lowered_entries(line: Seq<char>) -> Seq<(char, nat, nat)>
    decreases line.len(),
{
    if line.len() == 0 {
        Seq::<(char, nat, nat)>::empty()
    } else {
        let prefix = line.drop_last();
        let c = line.last();
        let start = utf8_size(prefix);
        let end = start + utf8_width(c);
        lowered_entries(prefix) + char_lowercase(c).map_values(|l: char| (l, start, end))
    }
}

/// The lowered characters of `line`.
pub open spec fn lowered_chars(line: Seq<char>) -> Seq<char> {
    lowered_entries(line).map_values(|e: (char, nat, nat)| e.0)
}

/// Whether `needle` occurs in `hay` starting at `k`.
pub open spec fn occurs_at(hay: Seq<char>, needle: Seq<char>, k: int) -> bool {
    0 <= k && k + needle.len() <= hay.len() && hay.subrange(k, k + needle.len()) == needle
}

/// Where the non-overlapping occurrences of `needle` in `hay` begin, taken
/// greedily from `from` onward: each is the first one starting at or after
/// the end of the previous. An empty needle occurs nowhere.
pub open spec fn occurrences_from(hay: Seq<char>, needle: Seq<char>, from: nat) -> Seq<nat>
    decreases hay.len() - from,
{
    if needle.len() == 0 || from + needle.len() > hay.len() {
        Seq::<nat>::empty()
    } else if occurs_at(hay, needle, from as int) {
        seq![from] + occurrences_from(hay, needle, from + needle.len())
    } else {
        occurrences_from(hay, needle, from + 1)
    }
}

/// The match for an occurrence of an `n`-character needle starting at
/// lowered position `k` of a line: from the start of the original character
/// behind its first lowered character to the end of the one behind its last.
pub open spec fn match_at(entries: Seq<(char, nat, nat)>, line_index: nat, n: nat, k: nat) -> FindMatch {
    FindMatch {
        line: line_index as usize,
        start: entries[k as int].1 as usize,
        end: entries[k + n - 1].2 as usize,
    }
}

/// The matches of `needle` within one line.
pub open spec fn line_matches(line_index: nat, line: Seq<char>, needle: Seq<char>) -> Seq<FindMatch> {
    let entries = lowered_entries(line);
    occurrences_from(lowered_chars(line), needle, 0).map_values(
        |k: nat| match_at(entries, line_index, needle.len(), k),
    )
}

/// The matches of `needle` in every line, top to bottom.
pub open spec fn all_line_matches(lines: Seq<Seq<char>>, needle: Seq<char>) -> Seq<FindMatch>
    decreases lines.len(),
{
    if lines.len() == 0 {
        Seq::<FindMatch>::empty()
    } else {
        all_line_matches(lines.drop_last(), needle) + line_matches(
            (lines.len() - 1) as nat,
            strip_cr(lines.last()),
            needle,
        )
    }
}

/// Every non-overlapping, case-insensitive occurrence of `query` in
/// `text`, line by line, ordered top to bottom then left to right. An empty
/// query matches nothing.
pub open spec fn find_spec(text: Seq<char>, query: Seq<char>) -> Seq<FindMatch> {
    if query.len() == 0 {
        Seq::<FindMatch>::empty()
    } else {
        all_line_matches(split_lines(text), str_lowercase(query))
    }
}

/// The matches of an ASCII `query` in `text`: those of its ASCII-lowercased
/// form in every line, top to bottom.
pub open spec fn find_ascii_spec(text: Seq<char>, query: Seq<char>) -> Seq<FindMatch> {
    if query.len() == 0 {
        Seq::<FindMatch>::empty()
    } else {
        all_line_matches(split_lines(text), ascii_lowered(query))
    }
}

/// Whether `char::to_lowercase` is known to lower `c` the ASCII way, as it
/// does every ASCII character.
pub open spec fn ascii_known(c: char) -> bool {
    (c as u32) < 128 ==> char_lowercase(c) == seq![ascii_lower_char(c)]
}

/// Whether that is known of every character of `line`.
pub open spec fn line_known(line: Seq<char>) -> bool {
    forall|i: int| 0 <= i < line.len() ==> #[trigger] ascii_known(line[i])
}

/// The matches of `needle` in one ASCII line: each occurrence in the line
/// lowered the ASCII way, spanning the bytes of the characters it covers.
pub open spec fn ascii_line_matches(line_index: nat, line: Seq<char>, needle: Seq<char>) -> Seq<FindMatch> {
    occurrences_from(ascii_lowered(line), needle, 0).map_values(
        |k: nat| FindMatch { line: line_index as usize, start: k as usize, end: (k + needle.len()) as usize },
    )
}

/// The matches of `needle` in every ASCII line, top to bottom.
pub open spec fn ascii_all_line_matches(lines: Seq<Seq<char>>, needle: Seq<char>) -> Seq<FindMatch>
    decreases lines.len(),
{
    if lines.len() == 0 {
        Seq::<FindMatch>::empty()
    } else {
        ascii_all_line_matches(lines.drop_last(), needle) + ascii_line_matches(
            (lines.len() - 1) as nat,
            strip_cr(lines.last()),
            needle,
        )
    }
}

/// The matches of an ASCII `query` in an ASCII `text`, with nothing left to
/// the lowercase mapping: the ASCII-lowercased query's occurrences in each
/// ASCII-lowercased line, a match's bytes being its characters.
pub open spec fn find_ascii_exact(text: Seq<char>, query: Seq<char>) -> Seq<FindMatch> {
    if query.len() == 0 {
        Seq::<FindMatch>::empty()
    } else {
        ascii_all_line_matches(split_lines(text), ascii_lowered(query))
    }
}

/// An ASCII string takes one byte per character.
proof fn lemma_ascii_size(s: Seq<char>)
    requires
        all_ascii(s),
    ensures
        utf8_size(s) == s.len(),
    decreases s.len(),
{
    if s.len() > 0 {
        let prefix = s.drop_last();
        assert forall|i: int| 0 <= i < prefix.len() implies (#[trigger] prefix[i] as u32) < 128 by {
            assert(prefix[i] == s[i]);
        }
        lemma_ascii_size(prefix);
        lemma_size_push(prefix, s.last());
        assert(prefix.push(s.last()) =~= s);
        assert((s[s.len() - 1] as u32) < 128);
    }
}

/// An ASCII line whose lowering is known lowers one character per
/// character, each spanning its own byte.
proof fn lemma_ascii_entries(line: Seq<char>)
    requires
        all_ascii(line),
        line_known(line),
    ensures
        lowered_entries(line).len() == line.len(),
        forall|i: int| 0 <= i < line.len() ==>
            #[trigger] lowered_entries(line)[i] == (ascii_lower_char(line[i]), i as nat, (i + 1) as nat),
    decreases line.len(),
{
    if line.len() > 0 {
        let prefix = line.drop_last();
        let c = line.last();
        assert forall|i: int| 0 <= i < prefix.len() implies (#[trigger] prefix[i] as u32) < 128 by {
            assert(prefix[i] == line[i]);
        }
        assert forall|i: int| 0 <= i < prefix.len() implies #[trigger] ascii_known(prefix[i]) by {
            assert(prefix[i] == line[i]);
        }
        lemma_ascii_entries(prefix);
        lemma_ascii_size(prefix);
        assert(ascii_known(line[line.len() - 1]));
        assert((line[line.len() - 1] as u32) < 128);
        assert(char_lowercase(c) == seq![ascii_lower_char(c)]);
        let e = lowered_entries(line);
        assert forall|i: int| 0 <= i < line.len() implies
            #[trigger] e[i] == (ascii_lower_char(line[i]), i as nat, (i + 1) as nat) by {
            if i < prefix.len() {
                assert(e[i] == lowered_entries(prefix)[i]);
                assert(prefix[i] == line[i]);
            }
        }
    }
}

/// On an ASCII line whose lowering is known, a line's matches are its
/// ASCII matches.
proof fn lemma_ascii_line_matches(line_index: nat, line: Seq<char>, needle: Seq<char>)
    requires
        all_ascii(line),
        line_known(line),
    ensures
        line_matches(line_index, line, needle) == ascii_line_matches(line_index, line, needle),
{
    lemma_ascii_entries(line);
    let entries = lowered_entries(line);
    assert(lowered_chars(line) =~= ascii_lowered(line));
    let hay = ascii_lowered(line);
    let occ = occurrences_from(hay, needle, 0);
    lemma_occurrences_ordered(hay, needle, 0);
    let a = line_matches(line_index, line, needle);
    let b = ascii_line_matches(line_index, line, needle);
    assert forall|i: int| 0 <= i < occ.len() implies #[trigger] a[i] == b[i] by {
        let k = occ[i];
        assert(k + needle.len() <= hay.len());
        assert(entries[k as int].1 == k);
        assert(entries[k + needle.len() - 1].2 == k + needle.len());
    }
    assert(a =~= b);
}

/// Over lines that are ASCII and whose lowering is known, the matches are
/// the ASCII matches.
proof fn lemma_ascii_all_line_matches(lines: Seq<Seq<char>>, needle: Seq<char>)
    requires
        forall|k: int| 0 <= k < lines.len() ==> all_ascii(strip_cr(#[trigger] lines[k])) && line_known(strip_cr(lines[k])),
    ensures
        all_line_matches(lines, needle) == ascii_all_line_matches(lines, needle),
    decreases lines.len(),
{
    if lines.len() > 0 {
        let init = lines.drop_last();
        assert forall|k: int| 0 <= k < init.len() implies all_ascii(strip_cr(#[trigger] init[k])) && line_known(strip_cr(init[k])) by {
            assert(init[k] == lines[k]);
        }
        lemma_ascii_all_line_matches(init, needle);
        assert(lines.last() == lines[lines.len() - 1]);
        lemma_ascii_line_matches((lines.len() - 1) as nat, strip_cr(lines.last()), needle);
    }
}

/// Every line of an ASCII text is ASCII, with or without its `\r`.
proof fn lemma_split_lines_ascii(text: Seq<char>)
    requires
        all_ascii(text),
    ensures
        forall|k: int| 0 <= k < split_lines(text).len() ==> all_ascii(strip_cr(#[trigger] split_lines(text)[k])),
        forall|k: int| 0 <= k < split_lines(text).len() ==> all_ascii(#[trigger] split_lines(text)[k]),
    decreases text.len(),
{
    if text.len() > 0 {
        let prefix = text.drop_last();
        let c = text.last();
        assert forall|i: int| 0 <= i < prefix.len() implies (#[trigger] prefix[i] as u32) < 128 by {
            assert(prefix[i] == text[i]);
        }
        lemma_split_lines_ascii(prefix);
        crate::text::lemma_split_lines_nonempty(prefix);
        let init = split_lines(prefix);
        let lines = split_lines(text);
        assert((text[text.len() - 1] as u32) < 128);
        assert forall|k: int| 0 <= k < lines.len() implies all_ascii(#[trigger] lines[k]) by {
            if c == '\n' {
                if k < init.len() {
                    assert(lines[k] == init[k]);
                }
            } else if k < init.len() - 1 {
                assert(lines[k] == init[k]);
            } else {
                let l = init.last().push(c);
                assert(lines[k] == l);
                assert(all_ascii(init[init.len() - 1]));
                assert forall|i: int| 0 <= i < l.len() implies (#[trigger] l[i] as u32) < 128 by {
                    if i < l.len() - 1 {
                        assert(l[i] == init.last()[i]);
                    }
                }
            }
        }
    }
    assert forall|k: int| 0 <= k < split_lines(text).len() implies all_ascii(strip_cr(#[trigger] split_lines(text)[k])) by {
        let l = split_lines(text)[k];
        assert(all_ascii(l));
        if l.len() > 0 && l.last() == '\r' {
            assert forall|i: int| 0 <= i < l.drop_last().len() implies (#[trigger] l.drop_last()[i] as u32) < 128 by {
                assert(l.drop_last()[i] == l[i]);
            }
        }
    }
}

/// Lowercases `line`, and for every lowered character records the byte
/// range of the original character that produced it. `to_lowercase` is not
/// length-preserving, so an offset in the lowered text does not index the
/// original; the table maps it back.
fn lower_with_spans(line: &Vec<char>) -> (result: (Vec<char>, Vec<(usize, usize)>))
    requires
        utf8_size(line@) <= usize::MAX,
    ensures
        result.0@ == lowered_chars(line@),
        result.1@.len() == lowered_entries(line@).len(),
        forall|j: int| 0 <= j < result.1@.len() ==> {
            &&& (#[trigger] result.1@[j]).0 == lowered_entries(line@)[j].1
            &&& result.1@[j].1 == lowered_entries(line@)[j].2
        },
        line_known(line@),
{
    let mut lowered: Vec<char> = Vec::new();
    let mut spans: Vec<(usize, usize)> = Vec::new();
    let mut offset: usize = 0;
    let mut i: usize = 0;
    while i < line.len()
        invariant
            0 <= i <= line@.len(),
            utf8_size(line@) <= usize::MAX,
            offset == utf8_size(line@.take(i as int)),
            lowered@.len() == spans@.len(),
            lowered@.len() == lowered_entries(line@.take(i as int)).len(),
            forall|j: int| 0 <= j < lowered@.len() ==> {
                &&& #[trigger] lowered@[j] == lowered_entries(line@.take(i as int))[j].0
                &&& spans@[j].0 == lowered_entries(line@.take(i as int))[j].1
                &&& spans@[j].1 == lowered_entries(line@.take(i as int))[j].2
            },
            forall|j: int| 0 <= j < i ==> #[trigger] ascii_known(line@[j]),
        decreases line@.len() - i,
    {
        let c = line[i];
        let width = char_width(c);
        proof {
            assert(line@.take(i + 1).drop_last() =~= line@.take(i as int));
            assert(line@.take(i + 1).last() == c);
            lemma_size_push(line@.take(i as int), c);
            assert(line@.take(i as int).push(c) =~= line@.take(i + 1));
            lemma_size_prefix(line@, i + 1);
        }
        let end = offset + width;
        let ghost before = lowered_entries(line@.take(i as int));
        let ghost after = lowered_entries(line@.take(i + 1));
        let ghost added = char_lowercase(c).map_values(|l: char| (l, offset as nat, end as nat));
        assert(after == before + added);
        let lowered_c = lowercase_char(c);
        let ghost base = lowered@.len();
        let mut k: usize = 0;
        while k < lowered_c.len()
            invariant
                0 <= k <= lowered_c@.len(),
                lowered_c@ == char_lowercase(c),
                added == char_lowercase(c).map_values(|l: char| (l, offset as nat, end as nat)),
                lowered@.len() == spans@.len(),
                lowered@.len() == base + k,
                base == before.len(),
                after == before + added,
                forall|j: int| 0 <= j < lowered@.len() ==> {
                    &&& #[trigger] lowered@[j] == after[j].0
                    &&& spans@[j].0 == after[j].1
                    &&& spans@[j].1 == after[j].2
                },
                forall|j: int| 0 <= j < i ==> #[trigger] ascii_known(line@[j]),
                ascii_known(c),
                c == line@[i as int],
                i < line@.len(),
            decreases lowered_c@.len() - k,
        {
            lowered.push(lowered_c[k]);
            spans.push((offset, end));
            k = k + 1;
        }
        offset = end;
        i = i + 1;
    }
    assert(line@.take(line@.len() as int) =~= line@);
    assert(lowered@ =~= lowered_chars(line@));
    assert forall|j: int| 0 <= j < spans@.len() implies {
        &&& (#[trigger] spans@[j]).0 == lowered_entries(line@)[j].1
        &&& spans@[j].1 == lowered_entries(line@)[j].2
    } by {
        assert(lowered@[j] == lowered_entries(line@)[j].0);
    }
    (lowered, spans)
}

/// Whether `needle` occurs in `hay` at `k`, compared character by character.
fn occurs_at_exec(hay: &Vec<char>, needle: &Vec<char>, k: usize) -> (found: bool)
    requires
        k + needle@.len() <= hay@.len(),
    ensures
        found == occurs_at(hay@, needle@, k as int),
{
    let hay_len = hay.len();
    let mut j: usize = 0;
    while j < needle.len()
        invariant
            0 <= j <= needle@.len(),
            k + needle@.len() <= hay@.len(),
            hay@.len() == hay_len,
            forall|m: int| 0 <= m < j ==> hay@[k + m] == needle@[m],
        decreases needle@.len() - j,
    {
        if hay[k + j] != needle[j] {
            assert(hay@.subrange(k as int, k + needle@.len())[j as int] != needle@[j as int]);
            return false;
        }
        j = j + 1;
    }
    assert(hay@.subrange(k as int, k + needle@.len()) =~= needle@);
    true
}

/// Greedy occurrences from `from` split at a later point `p`: what was
/// found before `p` followed by what is found from `p`.
proof fn lemma_occurrences_step(hay: Seq<char>, needle: Seq<char>, p: nat)
    requires
        needle.len() > 0,
        p + needle.len() <= hay.len(),
    ensures
        occurs_at(hay, needle, p as int) ==> occurrences_from(hay, needle, p) == seq![p]
            + occurrences_from(hay, needle, p + needle.len()),
        !occurs_at(hay, needle, p as int) ==> occurrences_from(hay, needle, p)
            == occurrences_from(hay, needle, p + 1),
{
}

/// Appends the matches of `needle` in `line` (line number `line_index`).
fn push_line_matches(line_index: usize, line: &Vec<char>, needle: &Vec<char>, out: &mut Vec<FindMatch>)
    requires
        utf8_size(line@) <= usize::MAX,
        needle@.len() > 0,
    ensures
        final(out)@ == old(out)@ + line_matches(line_index as nat, line@, needle@),
        line_known(line@),
{
    let (lowered, spans) = lower_with_spans(line);
    let ghost entries = lowered_entries(line@);
    let ghost hay = lowered_chars(line@);
    let ghost n = needle@.len();
    let ghost f = |k: nat| match_at(entries, line_index as nat, n, k);
    let ghost start_out = out@;
    let ghost found: Seq<nat> = Seq::empty();
    let mut p: usize = 0;
    assert(lowered@.len() == entries.len());
    while p <= lowered.len() && needle.len() <= lowered.len() - p
        invariant
            lowered@ == hay,
            hay == lowered_chars(line@),
            entries == lowered_entries(line@),
            hay.len() == entries.len(),
            spans@.len() == entries.len(),
            forall|j: int| 0 <= j < spans@.len() ==> {
                &&& (#[trigger] spans@[j]).0 == entries[j].1
                &&& spans@[j].1 == entries[j].2
            },
            n == needle@.len(),
            n > 0,
            f == (|k: nat| match_at(entries, line_index as nat, n, k)),
            occurrences_from(hay, needle@, 0) == found + occurrences_from(hay, needle@, p as nat),
            out@ == start_out + found.map_values(f),
            p <= hay.len() + n,
        decreases hay.len() + n - p,
    {
        proof {
            lemma_occurrences_step(hay, needle@, p as nat);
        }
        if occurs_at_exec(&lowered, needle, p) {
            let last = p + needle.len() - 1;
            let m = FindMatch { line: line_index, start: spans[p].0, end: spans[last].1 };
            assert(m == f(p as nat));
            out.push(m);
            proof {
                assert(found.push(p as nat).map_values(f) =~= found.map_values(f).push(f(p as nat)));
                assert(found + occurrences_from(hay, needle@, p as nat) =~= found.push(p as nat)
                    + occurrences_from(hay, needle@, (p + n) as nat));
                found = found.push(p as nat);
            }
            p = p + needle.len();
        } else {
            p = p + 1;
        }
    }
    assert(occurrences_from(hay, needle@, p as nat) =~= Seq::<nat>::empty());
    assert(found + Seq::<nat>::empty() =~= found);
}

/// An empty needle matches in no line.
proof fn lemma_empty_needle_matches_nothing(lines: Seq<Seq<char>>, needle: Seq<char>)
    requires
        needle.len() == 0,
    ensures
        all_line_matches(lines, needle) =~= Seq::<FindMatch>::empty(),
    decreases lines.len(),
{
    if lines.len() > 0 {
        lemma_empty_needle_matches_nothing(lines.drop_last(), needle);
        let line = strip_cr(lines.last());
        assert(occurrences_from(lowered_chars(line), needle, 0) =~= Seq::<nat>::empty());
    }
}

/// Drops one trailing carriage return.
fn strip_cr_vec(line: &mut Vec<char>)
    ensures
        final(line)@ == strip_cr(old(line)@),
{
    let len = line.len();
    if len > 0 && line[len - 1] == '\r' {
        line.pop();
    }
}

/// Every non-overlapping, case-insensitive occurrence of `query` in `text`,
/// ordered top to bottom then left to right. An empty query matches nothing.
///
/// Searches line by line (lines as `split('\n')` yields them, each without
/// a trailing `\r`), so the returned columns are byte offsets relative to
/// their line. The text is lowercased one character at a time and the query
/// as a whole; a match landing part-way into a multi-character lowercase
/// expansion covers that whole original character.
pub fn find_matches(text: &str, query: &str) -> (found: Vec<FindMatch>)
    ensures
        found@ == find_spec(text@, query@),
        all_ascii(query@) ==> found@ == find_ascii_spec(text@, query@),
        all_ascii(text@) && all_ascii(query@) ==> found@ == find_ascii_exact(text@, query@),
{
    if query.is_empty() {
        return Vec::new();
    }
    let needle_string = lowercase_str(query);
    proof {
        if all_ascii(query@) {
            assert(str_lowercase(query@) == ascii_lowered(query@));
        }
    }
    let needle = chars_of(needle_string.as_str());
    let chars = chars_of(text);
    let total_bytes = text.as_bytes().len();
    let mut matches: Vec<FindMatch> = Vec::new();
    if needle.len() == 0 {
        proof {
            lemma_empty_needle_matches_nothing(split_lines(text@), needle@);
            if all_ascii(query@) {
                assert(ascii_lowered(query@).len() == query@.len());
            }
        }
        return matches;
    }
    assert(total_bytes == utf8_size(text@));
    let mut current: Vec<char> = Vec::new();
    let mut line_index: usize = 0;
    let mut i: usize = 0;
    assert(chars@.take(0) =~= Seq::<char>::empty());
    while i < chars.len()
        invariant
            0 <= i <= chars@.len(),
            chars@ == text@,
            needle@ == str_lowercase(query@),
            needle@.len() > 0,
            utf8_size(chars@) <= usize::MAX,
            line_index <= i,
            split_lines(chars@.take(i as int)).len() == line_index + 1,
            split_lines(chars@.take(i as int)).last() == current@,
            utf8_size(current@) <= utf8_size(chars@.take(i as int)),
            matches@ == all_line_matches(split_lines(chars@.take(i as int)).drop_last(), needle@),
            forall|k: int| 0 <= k < split_lines(chars@.take(i as int)).len() - 1 ==>
                line_known(strip_cr(#[trigger] split_lines(chars@.take(i as int))[k])),
        decreases chars@.len() - i,
    {
        let c = chars[i];
        let ghost before = split_lines(chars@.take(i as int));
        proof {
            assert(chars@.take(i + 1).drop_last() =~= chars@.take(i as int));
            assert(chars@.take(i + 1).last() == c);
            lemma_size_push(chars@.take(i as int), c);
            assert(chars@.take(i as int).push(c) =~= chars@.take(i + 1));
            lemma_size_prefix(chars@, i + 1);
        }
        if c == '\n' {
            let mut line = current;
            strip_cr_vec(&mut line);
            proof {
                if before.last().len() > 0 && before.last().last() == '\r' {
                    lemma_size_prefix(before.last(), before.last().len() - 1);
                    assert(before.last().take(before.last().len() - 1) =~= before.last().drop_last());
                }
            }
            push_line_matches(line_index, &line, &needle, &mut matches);
            proof {
                assert(before.push(Seq::<char>::empty()).drop_last() =~= before);
                let after = split_lines(chars@.take(i + 1));
                assert(after == before.push(Seq::<char>::empty()));
                assert forall|k: int| 0 <= k < after.len() - 1 implies line_known(strip_cr(#[trigger] after[k])) by {
                    assert(after[k] == before[k]);
                }
            }
            current = Vec::new();
            line_index = line_index + 1;
        } else {
            proof {
                lemma_size_push(current@, c);
                let after = before.update(before.len() - 1, before.last().push(c));
                assert(after.drop_last() =~= before.drop_last());
                assert(split_lines(chars@.take(i + 1)) == after);
                assert forall|k: int| 0 <= k < after.len() - 1 implies line_known(strip_cr(#[trigger] after[k])) by {
                    assert(after[k] == before[k]);
                }
            }
            current.push(c);
        }
        i = i + 1;
    }
    assert(chars@.take(chars@.len() as int) =~= chars@);
    let ghost lines = split_lines(text@);
    proof {
        lemma_size_prefix(current@, current@.len() as int);
        if current@.len() > 0 && current@.last() == '\r' {
            lemma_size_prefix(current@, current@.len() - 1);
            assert(current@.take(current@.len() - 1) =~= current@.drop_last());
        }
    }
    let mut line = current;
    strip_cr_vec(&mut line);
    push_line_matches(line_index, &line, &needle, &mut matches);
    proof {
        if all_ascii(text@) && all_ascii(query@) {
            lemma_split_lines_ascii(text@);
            assert forall|k: int| 0 <= k < lines.len() implies
                all_ascii(strip_cr(#[trigger] lines[k])) && line_known(strip_cr(lines[k])) by {
                if k == lines.len() - 1 {
                    assert(lines[k] == current@);
                }
            }
            lemma_ascii_all_line_matches(lines, needle@);
        }
    }
    matches
}

/// Every entry of a line's lowering spans a non-empty byte range within the
/// line, and the entries come in order.
proof fn lemma_entries_ordered(line: Seq<char>)
    ensures
        forall|a: int| 0 <= a < lowered_entries(line).len() ==>
            (#[trigger] lowered_entries(line)[a]).1 < lowered_entries(line)[a].2
                && lowered_entries(line)[a].2 <= utf8_size(line),
        forall|a: int, b: int| 0 <= a <= b < lowered_entries(line).len() ==>
            (#[trigger] lowered_entries(line)[a]).1 <= (#[trigger] lowered_entries(line)[b]).1
                && lowered_entries(line)[a].2 <= lowered_entries(line)[b].2,
    decreases line.len(),
{
    if line.len() > 0 {
        let prefix = line.drop_last();
        let c = line.last();
        lemma_entries_ordered(prefix);
        assert(prefix.push(c) =~= line);
        lemma_size_push(prefix, c);
        let start = utf8_size(prefix);
        let end = start + utf8_width(c);
        let e = lowered_entries(line);
        let p = lowered_entries(prefix);
        let l = char_lowercase(c).map_values(|x: char| (x, start, end));
        assert(e == p + l);
        assert(utf8_width(c) >= 1);
        assert forall|a: int| 0 <= a < e.len() implies
            (#[trigger] e[a]).1 < e[a].2 && e[a].2 <= utf8_size(line) by {
            if a < p.len() {
                assert(e[a] == p[a]);
            } else {
                assert(e[a] == l[a - p.len()]);
            }
        }
        assert forall|a: int, b: int| 0 <= a <= b < e.len() implies
            (#[trigger] e[a]).1 <= (#[trigger] e[b]).1 && e[a].2 <= e[b].2 by {
            if b < p.len() {
                assert(e[a] == p[a]);
                assert(e[b] == p[b]);
            } else if a < p.len() {
                assert(e[a] == p[a]);
                assert(e[b] == l[b - p.len()]);
            } else {
                assert(e[a] == l[a - p.len()]);
                assert(e[b] == l[b - p.len()]);
            }
        }
    }
}

/// Occurrences come left to right, each inside the haystack, none
/// overlapping the next.
proof fn lemma_occurrences_ordered(hay: Seq<char>, needle: Seq<char>, from: nat)
    ensures
        forall|i: int| 0 <= i < occurrences_from(hay, needle, from).len() ==>
            from <= #[trigger] occurrences_from(hay, needle, from)[i]
                && occurrences_from(hay, needle, from)[i] + needle.len() <= hay.len()
                && needle.len() > 0,
        forall|i: int, j: int| 0 <= i < j < occurrences_from(hay, needle, from).len() ==>
            #[trigger] occurrences_from(hay, needle, from)[i] + needle.len()
                <= #[trigger] occurrences_from(hay, needle, from)[j],
    decreases hay.len() - from,
{
    if needle.len() == 0 || from + needle.len() > hay.len() {
        assert(occurrences_from(hay, needle, from).len() == 0);
    } else if occurs_at(hay, needle, from as int) {
        let rest = occurrences_from(hay, needle, from + needle.len());
        lemma_occurrences_ordered(hay, needle, from + needle.len());
        let occ = occurrences_from(hay, needle, from);
        assert(occ == seq![from] + rest);
        assert forall|i: int| 0 <= i < occ.len() implies
            from <= #[trigger] occ[i] && occ[i] + needle.len() <= hay.len() && needle.len() > 0 by {
            if i > 0 {
                assert(occ[i] == rest[i - 1]);
            }
        }
        assert forall|i: int, j: int| 0 <= i < j < occ.len() implies
            #[trigger] occ[i] + needle.len() <= #[trigger] occ[j] by {
            assert(occ[j] == rest[j - 1]);
            if i > 0 {
                assert(occ[i] == rest[i - 1]);
            }
        }
    } else {
        lemma_occurrences_ordered(hay, needle, from + 1);
        let occ = occurrences_from(hay, needle, from);
        let rest = occurrences_from(hay, needle, from + 1);
        assert(occ == rest);
        assert forall|i: int| 0 <= i < occ.len() implies
            from <= #[trigger] occ[i] && occ[i] + needle.len() <= hay.len() && needle.len() > 0 by {
            assert(occ[i] == rest[i]);
        }
        assert forall|i: int, j: int| 0 <= i < j < occ.len() implies
            #[trigger] occ[i] + needle.len() <= #[trigger] occ[j] by {
            assert(occ[i] == rest[i]);
            assert(occ[j] == rest[j]);
        }
    }
}

/// Whether matches read top to bottom, then left to right, each a non-empty
/// span, on lines below `lines`.
pub open spec fn in_reading_order(matches: Seq<FindMatch>, lines: nat) -> bool {
    &&& forall|i: int| 0 <= i < matches.len() ==>
        (#[trigger] matches[i]).start < matches[i].end && (matches[i].line as int) < lines
    &&& forall|i: int, j: int| 0 <= i < j < matches.len() ==>
        (#[trigger] matches[i]).line < (#[trigger] matches[j]).line
            || (matches[i].line == matches[j].line && matches[i].start <= matches[j].start)
}

/// Whether each match lies on one of `lines` and ends within it: no later
/// than the line's size in bytes, a trailing `\r` left out.
pub open spec fn within_lines(matches: Seq<FindMatch>, lines: Seq<Seq<char>>) -> bool {
    forall|i: int| 0 <= i < matches.len() ==>
        (#[trigger] matches[i]).line < lines.len()
            && matches[i].end <= utf8_size(strip_cr(lines[matches[i].line as int]))
}

/// One line's matches read left to right.
proof fn lemma_line_matches_ordered(line_index: nat, line: Seq<char>, needle: Seq<char>)
    requires
        utf8_size(line) < usize::MAX,
        line_index < usize::MAX,
    ensures
        in_reading_order(line_matches(line_index, line, needle), line_index + 1),
        forall|i: int| 0 <= i < line_matches(line_index, line, needle).len() ==>
            (#[trigger] line_matches(line_index, line, needle)[i]).line == line_index
                && line_matches(line_index, line, needle)[i].end <= utf8_size(line),
{
    let entries = lowered_entries(line);
    let hay = lowered_chars(line);
    let occ = occurrences_from(hay, needle, 0);
    let ms = line_matches(line_index, line, needle);
    lemma_entries_ordered(line);
    lemma_occurrences_ordered(hay, needle, 0);
    assert(hay.len() == entries.len());
    assert forall|i: int| 0 <= i < ms.len() implies
        (#[trigger] ms[i]).start < ms[i].end && (ms[i].line as int) < line_index + 1 && ms[i].line == line_index
            && ms[i].end <= utf8_size(line) by {
        let k = occ[i];
        assert(ms[i] == match_at(entries, line_index, needle.len(), k));
        assert(entries[k as int].1 < entries[k as int].2);
        assert(entries[k as int].2 <= entries[k + needle.len() - 1].2);
        assert(entries[k + needle.len() - 1].2 <= utf8_size(line));
    }
    assert forall|i: int, j: int| 0 <= i < j < ms.len() implies
        (#[trigger] ms[i]).line < (#[trigger] ms[j]).line
            || (ms[i].line == ms[j].line && ms[i].start <= ms[j].start) by {
        let ki = occ[i];
        let kj = occ[j];
        assert(ki + needle.len() <= kj);
        assert(ms[i] == match_at(entries, line_index, needle.len(), ki));
        assert(ms[j] == match_at(entries, line_index, needle.len(), kj));
        assert(entries[ki as int].1 <= entries[kj as int].1);
        assert(entries[kj as int].1 < entries[kj as int].2);
        assert(entries[kj as int].2 <= entries[kj + needle.len() - 1].2);
        assert(entries[kj + needle.len() - 1].2 <= utf8_size(line));
    }
}

/// The matches over a list of lines read top to bottom, then left to right.
proof fn lemma_all_line_matches_ordered(lines: Seq<Seq<char>>, needle: Seq<char>, bound: nat)
    requires
        lines.len() <= usize::MAX,
        forall|i: int| 0 <= i < lines.len() ==> utf8_size(#[trigger] lines[i]) <= bound,
        bound < usize::MAX,
    ensures
        in_reading_order(all_line_matches(lines, needle), lines.len()),
        within_lines(all_line_matches(lines, needle), lines),
    decreases lines.len(),
{
    if lines.len() > 0 {
        let n = (lines.len() - 1) as nat;
        let earlier = all_line_matches(lines.drop_last(), needle);
        let line = strip_cr(lines.last());
        let last = line_matches(n, line, needle);
        assert forall|i: int| 0 <= i < lines.drop_last().len() implies utf8_size(#[trigger] lines.drop_last()[i]) <= bound by {
            assert(lines.drop_last()[i] == lines[i]);
        }
        lemma_all_line_matches_ordered(lines.drop_last(), needle, bound);
        assert(utf8_size(lines[lines.len() - 1]) <= bound);
        if lines.last().len() > 0 && lines.last().last() == '\r' {
            lemma_size_prefix(lines.last(), lines.last().len() - 1);
            assert(lines.last().take(lines.last().len() - 1) =~= line);
        }
        lemma_line_matches_ordered(n, line, needle);
        let all = all_line_matches(lines, needle);
        assert(all == earlier + last);
        assert forall|i: int| 0 <= i < all.len() implies
            (#[trigger] all[i]).start < all[i].end && (all[i].line as int) < lines.len()
                && all[i].end <= utf8_size(strip_cr(lines[all[i].line as int])) by {
            if i < earlier.len() {
                assert(all[i] == earlier[i]);
                assert(lines.drop_last()[earlier[i].line as int] == lines[earlier[i].line as int]);
            } else {
                assert(all[i] == last[i - earlier.len()]);
            }
        }
        assert forall|i: int, j: int| 0 <= i < j < all.len() implies
            (#[trigger] all[i]).line < (#[trigger] all[j]).line
                || (all[i].line == all[j].line && all[i].start <= all[j].start) by {
            if j < earlier.len() {
                assert(all[i] == earlier[i]);
                assert(all[j] == earlier[j]);
            } else if i < earlier.len() {
                assert(all[i] == earlier[i]);
                assert(all[j] == last[j - earlier.len()]);
                assert(last[j - earlier.len()].line == n);
            } else {
                assert(all[i] == last[i - earlier.len()]);
                assert(all[j] == last[j - earlier.len()]);
            }
        }
    }
}

/// The lines of a text are no more numerous than its bytes plus one, and
/// none is larger than the text.
proof fn lemma_split_lines_bounded(text: Seq<char>)
    ensures
        split_lines(text).len() <= utf8_size(text) + 1,
        forall|i: int| 0 <= i < split_lines(text).len() ==> utf8_size(#[trigger] split_lines(text)[i]) <= utf8_size(text),
    decreases text.len(),
{
    if text.len() > 0 {
        let prefix = text.drop_last();
        let c = text.last();
        lemma_split_lines_bounded(prefix);
        crate::text::lemma_split_lines_nonempty(prefix);
        assert(prefix.push(c) =~= text);
        lemma_size_push(prefix, c);
        assert(utf8_width(c) >= 1);
        let init = split_lines(prefix);
        let lines = split_lines(text);
        if c == '\n' {
            assert(utf8_size(Seq::<char>::empty()) == 0);
            assert forall|i: int| 0 <= i < lines.len() implies utf8_size(#[trigger] lines[i]) <= utf8_size(text) by {
                if i < init.len() {
                    assert(lines[i] == init[i]);
                }
            }
        } else {
            lemma_size_push(init.last(), c);
            assert forall|i: int| 0 <= i < lines.len() implies utf8_size(#[trigger] lines[i]) <= utf8_size(text) by {
                if i < init.len() - 1 {
                    assert(lines[i] == init[i]);
                } else {
                    assert(lines[i] == init.last().push(c));
                    assert(utf8_size(init[init.len() - 1]) <= utf8_size(prefix));
                }
            }
        }
    }
}

/// Matches come in reading order: top to bottom, then left to right
/// (ordered by line, then by starting byte), each a non-empty span that
/// ends within one of the text's lines. Stated for any text that fits in
/// memory.
pub proof fn lemma_matches_in_reading_order(text: Seq<char>, query: Seq<char>)
    requires
        utf8_size(text) < usize::MAX,
    ensures
        in_reading_order(find_spec(text, query), split_lines(text).len()),
        within_lines(find_spec(text, query), split_lines(text)),
{
    if query.len() > 0 {
        lemma_split_lines_bounded(text);
        lemma_all_line_matches_ordered(split_lines(text), str_lowercase(query), utf8_size(text));
    }
}

/// Find ignores ASCII case: two ASCII queries that agree once their capital
/// letters are made small (a query and its `to_ascii_uppercase` or
/// `to_ascii_lowercase`, say) find the same matches in any text.
pub proof fn lemma_ascii_case_is_ignored(text: Seq<char>, q1: Seq<char>, q2: Seq<char>)
    requires
        all_ascii(q1),
        all_ascii(q2),
        ascii_lowered(q1) == ascii_lowered(q2),
    ensures
        find_ascii_spec(text, q1) == find_ascii_spec(text, q2),
{
    assert(q1.len() == ascii_lowered(q1).len());
    assert(q2.len() == ascii_lowered(q2).len());
}

} // verus!
