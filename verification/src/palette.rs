//! Picking a colour palette by the name a config file gives.
use vstd::prelude::*;
use crate::debug::{ascii_lower_seq, trim, same_chars};
use crate::text::chars_of;

verus! {

broadcast use vstd::string::group_string_axioms;

/// Whether `a` and `b` are equal ignoring ASCII case, as
/// `str::eq_ignore_ascii_case` compares.
pub open spec fn eq_ignore_ascii_case(a: Seq<char>, b: Seq<char>) -> bool {
    ascii_lower_seq(a) == ascii_lower_seq(b)
}

/// The index of the palette `name` picks among `palettes` (display names,
/// in order): the first whose display name equals `name` trimmed, ignoring
/// ASCII case; `fallback` when none does.
pub open spec fn resolve_palette_spec(palettes: Seq<Seq<char>>, name: Seq<char>, fallback: usize) -> usize
    decreases palettes.len(),
{
    if palettes.len() == 0 {
        fallback
    } else {
        let earlier = resolve_palette_spec(palettes.drop_last(), name, fallback);
        if exists|i: int| 0 <= i < palettes.len() - 1 && eq_ignore_ascii_case(#[trigger] palettes[i], trim(name)) {
            earlier
        } else if eq_ignore_ascii_case(palettes.last(), trim(name)) {
            (palettes.len() - 1) as usize
        } else {
            fallback
        }
    }
}

/// `s` with ASCII capitals lowered.
fn lower_ascii(s: &Vec<char>) -> (out: Vec<char>)
    ensures
        out@ == ascii_lower_seq(s@),
{
    let mut out: Vec<char> = Vec::new();
    let mut k: usize = 0;
    while k < s.len()
        invariant
            0 <= k <= s@.len(),
            out@ == ascii_lower_seq(s@.take(k as int)),
        decreases s@.len() - k,
    {
        let c = s[k];
        let lowered = if 'A' <= c && c <= 'Z' { crate::debug::ascii_char(c as u32 + 32) } else { c };
        out.push(lowered);
        assert(s@.take(k + 1) =~= s@.take(k as int).push(c));
        assert(out@ =~= ascii_lower_seq(s@.take(k + 1)));
        k = k + 1;
    }
    assert(s@.take(s@.len() as int) =~= s@);
    out
}

/// Matches a config-file palette name against the display names of the
/// palettes on offer, case-insensitively so hand-edited TOML need not get
/// the casing right. Falls back to `fallback` rather than failing over a
/// typo.
pub fn resolve_palette(palettes: &[String], name: &str, fallback: usize) -> (index: usize)
    ensures
        index == resolve_palette_spec(palettes@.map_values(|p: String| p@), name@, fallback),
        index != fallback ==> index < palettes@.len() && eq_ignore_ascii_case(palettes@[index as int]@, trim(name@)),
{
    let ghost all = palettes@.map_values(|p: String| p@);
    let wanted = crate::debug::trimmed_lower(name);
    let mut i: usize = 0;
    while i < palettes.len()
        invariant
            0 <= i <= palettes@.len(),
            all == palettes@.map_values(|p: String| p@),
            wanted@ == ascii_lower_seq(trim(name@)),
            forall|j: int| 0 <= j < i ==> !eq_ignore_ascii_case(#[trigger] all[j], trim(name@)),
        decreases palettes@.len() - i,
    {
        let candidate = lower_ascii(&chars_of(palettes[i].as_str()));
        if same_chars(&candidate, &wanted) {
            proof {
                lemma_first_match(all, name@, fallback, i as int);
            }
            return i;
        }
        i = i + 1;
    }
    proof {
        lemma_no_match(all, name@, fallback);
    }
    fallback
}

/// With a first match at `i`, resolution picks `i`.
proof fn lemma_first_match(palettes: Seq<Seq<char>>, name: Seq<char>, fallback: usize, i: int)
    requires
        0 <= i < palettes.len(),
        i <= usize::MAX,
        eq_ignore_ascii_case(palettes[i], trim(name)),
        forall|j: int| 0 <= j < i ==> !eq_ignore_ascii_case(#[trigger] palettes[j], trim(name)),
    ensures
        resolve_palette_spec(palettes, name, fallback) == i,
    decreases palettes.len(),
{
    if i < palettes.len() - 1 {
        assert(palettes.drop_last()[i] == palettes[i]);
        assert forall|j: int| 0 <= j < i implies !eq_ignore_ascii_case(#[trigger] palettes.drop_last()[j], trim(name)) by {
            assert(palettes.drop_last()[j] == palettes[j]);
        }
        lemma_first_match(palettes.drop_last(), name, fallback, i);
    }
}

/// With no match anywhere, resolution falls back.
proof fn lemma_no_match(palettes: Seq<Seq<char>>, name: Seq<char>, fallback: usize)
    requires
        forall|j: int| 0 <= j < palettes.len() ==> !eq_ignore_ascii_case(#[trigger] palettes[j], trim(name)),
    ensures
        resolve_palette_spec(palettes, name, fallback) == fallback,
    decreases palettes.len(),
{
    if palettes.len() > 0 {
        assert forall|j: int| 0 <= j < palettes.len() - 1 implies !eq_ignore_ascii_case(#[trigger] palettes.drop_last()[j], trim(name)) by {
            assert(palettes.drop_last()[j] == palettes[j]);
        }
        lemma_no_match(palettes.drop_last(), name, fallback);
    }
}

} // verus!
