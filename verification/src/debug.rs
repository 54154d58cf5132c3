//! Whether the debug switch is on.
use vstd::prelude::*;
use crate::text::chars_of;

verus! {

broadcast use vstd::string::group_string_axioms;

/// The environment variable that opens a terminal and starts logging.
pub const ENV_VAR: &'static str = "JUMPPAD_DEBUG";

/// Whether `c` has the Unicode `White_Space` property, which is what
/// `char::is_whitespace` tests.
pub open spec fn is_white_space(c: char) -> bool {
    let v = c as u32;
    (0x09 <= v <= 0x0d) || v == 0x20 || v == 0x85 || v == 0xa0 || v == 0x1680
        || (0x2000 <= v <= 0x200a) || v == 0x2028 || v == 0x2029 || v == 0x202f
        || v == 0x205f || v == 0x3000
}

/// `s` without leading white space.
pub open spec fn trim_start(s: Seq<char>) -> Seq<char>
    decreases s.len(),
{
    if s.len() > 0 && is_white_space(s[0]) {
        trim_start(s.drop_first())
    } else {
        s
    }
}

/// `s` without trailing white space.
pub open spec fn trim_end(s: Seq<char>) -> Seq<char>
    decreases s.len(),
{
    if s.len() > 0 && is_white_space(s.last()) {
        trim_end(s.drop_last())
    } else {
        s
    }
}

/// `s` without leading and trailing white space, as `str::trim` gives it.
pub open spec fn trim(s: Seq<char>) -> Seq<char> {
    trim_end(trim_start(s))
}

/// `c` with ASCII capitals lowered, as `char::to_ascii_lowercase` gives it.
pub open spec fn ascii_lower(c: char) -> char {
    if 'A' <= c <= 'Z' {
        ((c as u32) + 32) as char
    } else {
        c
    }
}

/// `s` with ASCII capitals lowered.
pub open spec fn ascii_lower_seq(s: Seq<char>) -> Seq<char> {
    s.map_values(|c: char| ascii_lower(c))
}

/// Whether a value of the debug variable means yes: after trimming and
/// lowering ASCII capitals, one of "1", "true", "yes" or "on".
pub open spec fn is_true_spec(value: Seq<char>) -> bool {
    let t = ascii_lower_seq(trim(value));
    t == "1"@ || t == "true"@ || t == "yes"@ || t == "on"@
}

/// Whether `v` is white space.
fn white_space(c: char) -> (ws: bool)
    ensures
        ws == is_white_space(c),
{
    let v = c as u32;
    (0x09 <= v && v <= 0x0d) || v == 0x20 || v == 0x85 || v == 0xa0 || v == 0x1680
        || (0x2000 <= v && v <= 0x200a) || v == 0x2028 || v == 0x2029 || v == 0x202f
        || v == 0x205f || v == 0x3000
}

/// Whether two character lists are equal.
pub fn same_chars(a: &Vec<char>, b: &Vec<char>) -> (same: bool)
    ensures
        same == (a@ == b@),
{
    if a.len() != b.len() {
        return false;
    }
    let mut i: usize = 0;
    while i < a.len()
        invariant
            0 <= i <= a@.len(),
            a@.len() == b@.len(),
            forall|j: int| 0 <= j < i ==> a@[j] == b@[j],
        decreases a@.len() - i,
    {
        if a[i] != b[i] {
            return false;
        }
        i = i + 1;
    }
    assert(a@ =~= b@);
    true
}

/// The trimmed, ASCII-lowered characters of `value`.
#[verifier::loop_isolation(false)]
pub fn trimmed_lower(value: &str) -> (out: Vec<char>)
    ensures
        out@ == ascii_lower_seq(trim(value@)),
{
    let chars = chars_of(value);
    let n = chars.len();
    let mut i: usize = 0;
    assert(chars@.skip(0) =~= chars@);
    while i < n && white_space(chars[i])
        invariant
            0 <= i <= n,
            n == chars@.len(),
            trim_start(chars@) == trim_start(chars@.skip(i as int)),
        decreases n - i,
    {
        assert(chars@.skip(i as int).drop_first() =~= chars@.skip(i + 1));
        i = i + 1;
    }
    let ghost t = chars@.skip(i as int);
    assert(trim_start(chars@) == t);
    let mut j: usize = n;
    assert(t.take((n - i) as int) =~= t);
    while j > i && white_space(chars[j - 1])
        invariant
            i <= j <= n,
            trim_end(t) == trim_end(t.take(j - i)),
        decreases j,
    {
        assert(t.take(j - i).drop_last() =~= t.take(j - 1 - i));
        j = j - 1;
    }
    assert(trim_end(t) == t.take(j - i));
    let mut out: Vec<char> = Vec::new();
    let mut k: usize = i;
    while k < j
        invariant
            i <= k <= j,
            out@ == ascii_lower_seq(t.take(k - i)),
        decreases j - k,
    {
        let c = chars[k];
        let lowered = if 'A' <= c && c <= 'Z' { ascii_char(c as u32 + 32) } else { c };
        out.push(lowered);
        assert(t.take(k + 1 - i) =~= t.take(k - i).push(c));
        assert(out@ =~= ascii_lower_seq(t.take(k + 1 - i)));
        k = k + 1;
    }
    out
}

/// The character with an ASCII code.
pub fn ascii_char(v: u32) -> (c: char)
    requires
        v < 128,
    ensures
        c as u32 == v,
{
    (v as u8) as char
}

/// Whether `value` means yes: spelling-tolerant on purpose, since it gets
/// typed at a prompt by hand. Anything outside the list reads as off.
pub fn is_true(value: &str) -> (yes: bool)
    ensures
        yes == is_true_spec(value@),
{
    let t = trimmed_lower(value);
    let one = chars_of("1");
    let word_true = chars_of("true");
    let word_yes = chars_of("yes");
    let word_on = chars_of("on");
    same_chars(&t, &one) || same_chars(&t, &word_true) || same_chars(&t, &word_yes) || same_chars(&t, &word_on)
}

/// Gives the process a console to log to when debugging is on. Outside
/// Windows a process launched from a shell already inherited its stdio, and
/// one launched from a desktop has nothing to attach to: nothing to do.
pub fn attach() {
}

/// Attaches to the launching process's console, reporting whether stdout
/// lands somewhere a person can read. Outside Windows it always does.
pub fn attach_to_parent() -> (readable: bool)
    ensures
        readable,
{
    true
}

} // verus!
