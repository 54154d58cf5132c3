//! Editor-level pieces that do not depend on the widget: the commands a
//! key override can name, what a key press binds to, and where each line
//! of a text starts.
use vstd::prelude::*;
use vstd::utf8::encode_utf8;
use crate::text::{chars_of, lemma_size_prefix, lemma_size_push, utf8_size};
use crate::find::FindMatch;
use crate::paths::same_text;

verus! {

broadcast use vstd::string::group_string_axioms, vstd::slice::group_slice_axioms;

/// A named editor-level action a `keybinds.toml` override can target: the
/// commands with logic of their own beyond the stock editor defaults.
#[derive(Debug, Clone, Copy, PartialEq, Eq, Structural)]
pub enum EditorCommand {
    WordDeleteBackward,
    WordDeleteForward,
    DocumentStart,
    SelectDocumentStart,
    DocumentEnd,
    SelectDocumentEnd,
    Undo,
    Redo,
}

/// The command an override names, by its canonical `keybinds.toml` name.
pub open spec fn command_named(name: Seq<char>) -> Option<EditorCommand> {
    if name == "word_delete_backward"@ {
        Some(EditorCommand::WordDeleteBackward)
    } else if name == "word_delete_forward"@ {
        Some(EditorCommand::WordDeleteForward)
    } else if name == "document_start"@ {
        Some(EditorCommand::DocumentStart)
    } else if name == "select_document_start"@ {
        Some(EditorCommand::SelectDocumentStart)
    } else if name == "document_end"@ {
        Some(EditorCommand::DocumentEnd)
    } else if name == "select_document_end"@ {
        Some(EditorCommand::SelectDocumentEnd)
    } else if name == "undo"@ {
        Some(EditorCommand::Undo)
    } else if name == "redo"@ {
        Some(EditorCommand::Redo)
    } else {
        None
    }
}

/// Looks up the command an override names; `None` for a name that is not
/// one of them.
pub fn editor_command_named(name: &str) -> (command: Option<EditorCommand>)
    ensures
        command == command_named(name@),
{
    if same_text(name, "word_delete_backward") {
        Some(EditorCommand::WordDeleteBackward)
    } else if same_text(name, "word_delete_forward") {
        Some(EditorCommand::WordDeleteForward)
    } else if same_text(name, "document_start") {
        Some(EditorCommand::DocumentStart)
    } else if same_text(name, "select_document_start") {
        Some(EditorCommand::SelectDocumentStart)
    } else if same_text(name, "document_end") {
        Some(EditorCommand::DocumentEnd)
    } else if same_text(name, "select_document_end") {
        Some(EditorCommand::SelectDocumentEnd)
    } else if same_text(name, "undo") {
        Some(EditorCommand::Undo)
    } else if same_text(name, "redo") {
        Some(EditorCommand::Redo)
    } else {
        None
    }
}

/// The key a press produced, as far as the key map tells keys apart.
#[derive(Debug, Clone, Copy, PartialEq, Eq, Structural)]
pub enum PressedKey {
    Backspace,
    Delete,
    ArrowUp,
    ArrowDown,
    Other,
}

/// One key press reaching a focused or unfocused editor, as plain values.
/// `modifiers` is the exact set held, as the override table keys it; the
/// three flags read it the platform's way: `command` is Cmd on macOS and
/// Ctrl elsewhere, `jump` (word-wise motion) is Option on macOS and Ctrl
/// elsewhere.
#[derive(Debug, Clone, Copy, PartialEq, Eq, Structural)]
pub struct KeyPressModel {
    pub focused: bool,
    pub modifiers: u32,
    pub shift: bool,
    pub command: bool,
    pub jump: bool,
    /// The physical key's code, when the platform reported one.
    pub code: Option<u32>,
    /// The key with modifiers applied.
    pub key: PressedKey,
    /// The Latin letter the key stands for, whatever the layout.
    pub latin: Option<char>,
}

/// What a key press does to the editor: one of its own commands, or the
/// stock text-editor binding for the key (with a typed character dropped
/// when `drop_insert`, since Cmd held on macOS still produces one).
#[derive(Debug, Clone, Copy, PartialEq, Eq, Structural)]
pub enum EditorBinding {
    Command(EditorCommand),
    Stock { drop_insert: bool },
}

/// The command the first override keyed `(modifiers, code)` names.
pub open spec fn override_for(overrides: Seq<((u32, u32), EditorCommand)>, key: (u32, u32)) -> Option<EditorCommand>
    decreases overrides.len(),
{
    if overrides.len() == 0 {
        None
    } else if overrides[0].0 == key {
        Some(overrides[0].1)
    } else {
        override_for(overrides.drop_first(), key)
    }
}

/// The built-in command for a press, if any: word deletes with the jump
/// modifier, document start and end with the command modifier (selecting
/// with Shift), and undo and redo.
pub open spec fn builtin_command(press: KeyPressModel) -> Option<EditorCommand> {
    if press.jump && press.key == PressedKey::Backspace {
        Some(EditorCommand::WordDeleteBackward)
    } else if press.jump && press.key == PressedKey::Delete {
        Some(EditorCommand::WordDeleteForward)
    } else if press.command && press.key == PressedKey::ArrowUp {
        Some(if press.shift { EditorCommand::SelectDocumentStart } else { EditorCommand::DocumentStart })
    } else if press.command && press.key == PressedKey::ArrowDown {
        Some(if press.shift { EditorCommand::SelectDocumentEnd } else { EditorCommand::DocumentEnd })
    } else if press.command && press.latin == Some('z') {
        Some(if press.shift { EditorCommand::Redo } else { EditorCommand::Undo })
    } else if press.command && press.latin == Some('y') {
        Some(EditorCommand::Redo)
    } else {
        None
    }
}

/// What a press binds to: nothing unless the editor has focus; else a
/// user override for its exact modifiers and physical key, then a built-in
/// command, then the stock binding.
pub open spec fn editor_binding_spec(press: KeyPressModel, overrides: Seq<((u32, u32), EditorCommand)>) -> Option<EditorBinding> {
    if !press.focused {
        None
    } else {
        let overridden = match press.code {
            Some(code) => override_for(overrides, (press.modifiers, code)),
            None => None,
        };
        match overridden {
            Some(command) => Some(EditorBinding::Command(command)),
            None => match builtin_command(press) {
                Some(command) => Some(EditorBinding::Command(command)),
                None => Some(EditorBinding::Stock { drop_insert: press.command }),
            },
        }
    }
}

/// With the command modifier held and no override for the press, Up goes
/// to the document's start and Down to its end: with Shift held the
/// binding selects to there, without it just moves, so Shift alone
/// decides between selecting and moving.
pub proof fn lemma_document_ends_select_with_shift(press: KeyPressModel, overrides: Seq<((u32, u32), EditorCommand)>)
    requires
        press.focused,
        press.command,
        press.code matches Some(code) ==> override_for(overrides, (press.modifiers, code)) is None,
    ensures
        press.key == PressedKey::ArrowUp && press.shift
            ==> editor_binding_spec(press, overrides) == Some(EditorBinding::Command(EditorCommand::SelectDocumentStart)),
        press.key == PressedKey::ArrowUp && !press.shift
            ==> editor_binding_spec(press, overrides) == Some(EditorBinding::Command(EditorCommand::DocumentStart)),
        press.key == PressedKey::ArrowDown && press.shift
            ==> editor_binding_spec(press, overrides) == Some(EditorBinding::Command(EditorCommand::SelectDocumentEnd)),
        press.key == PressedKey::ArrowDown && !press.shift
            ==> editor_binding_spec(press, overrides) == Some(EditorBinding::Command(EditorCommand::DocumentEnd)),
        press.key == PressedKey::ArrowUp ==> editor_binding_spec(press, overrides)
            != editor_binding_spec(KeyPressModel { shift: !press.shift, ..press }, overrides),
        press.key == PressedKey::ArrowDown ==> editor_binding_spec(press, overrides)
            != editor_binding_spec(KeyPressModel { shift: !press.shift, ..press }, overrides),
{
}

/// With no override for the press: the word-jump modifier with Backspace
/// deletes the word before the cursor and with Delete the word after it;
/// the command modifier with Z undoes, with Shift and Z or with Y redoes;
/// and a press the editor has no command for falls to the stock binding,
/// which drops typed text exactly when the command modifier is held.
pub proof fn lemma_builtin_shortcuts(press: KeyPressModel, overrides: Seq<((u32, u32), EditorCommand)>)
    requires
        press.focused,
        press.code matches Some(code) ==> override_for(overrides, (press.modifiers, code)) is None,
    ensures
        press.jump && press.key == PressedKey::Backspace
            ==> editor_binding_spec(press, overrides) == Some(EditorBinding::Command(EditorCommand::WordDeleteBackward)),
        press.jump && press.key == PressedKey::Delete
            ==> editor_binding_spec(press, overrides) == Some(EditorBinding::Command(EditorCommand::WordDeleteForward)),
        press.command && press.key == PressedKey::Other && press.latin == Some('z') && !press.shift
            ==> editor_binding_spec(press, overrides) == Some(EditorBinding::Command(EditorCommand::Undo)),
        press.command && press.key == PressedKey::Other && press.latin == Some('z') && press.shift
            ==> editor_binding_spec(press, overrides) == Some(EditorBinding::Command(EditorCommand::Redo)),
        press.command && press.key == PressedKey::Other && press.latin == Some('y')
            ==> editor_binding_spec(press, overrides) == Some(EditorBinding::Command(EditorCommand::Redo)),
        !press.command && !press.jump ==> editor_binding_spec(press, overrides)
            == Some(EditorBinding::Stock { drop_insert: false }),
        press.command && press.key == PressedKey::Other && press.latin != Some('z') && press.latin != Some('y')
            ==> editor_binding_spec(press, overrides) == Some(EditorBinding::Stock { drop_insert: true }),
{
}

/// An override for a press's exact modifiers and physical key wins over
/// everything built in, and an unfocused editor binds nothing at all.
pub proof fn lemma_override_wins(press: KeyPressModel, overrides: Seq<((u32, u32), EditorCommand)>, i: int)
    requires
        0 <= i < overrides.len(),
        press.code matches Some(code) && overrides[i].0 == (press.modifiers, code),
        forall|j: int| 0 <= j < i ==> #[trigger] overrides[j].0 != overrides[i].0,
    ensures
        press.focused ==> editor_binding_spec(press, overrides) == Some(EditorBinding::Command(overrides[i].1)),
        !press.focused ==> editor_binding_spec(press, overrides) is None,
    decreases i,
{
    if i > 0 {
        let rest = overrides.drop_first();
        assert(overrides[0].0 != overrides[i].0);
        assert forall|j: int| 0 <= j < i - 1 implies #[trigger] rest[j].0 != rest[i - 1].0 by {
            assert(rest[j] == overrides[j + 1]);
            assert(rest[i - 1] == overrides[i]);
        }
        lemma_override_wins(press, rest, i - 1);
    }
}

/// Looks up the override keyed `key`.
fn find_override(overrides: &Vec<((u32, u32), EditorCommand)>, key: (u32, u32)) -> (found: Option<EditorCommand>)
    ensures
        found == override_for(overrides@, key),
{
    let mut i: usize = 0;
    assert(overrides@.skip(0) =~= overrides@);
    while i < overrides.len()
        invariant
            i <= overrides@.len(),
            override_for(overrides@, key) == override_for(overrides@.skip(i as int), key),
        decreases overrides@.len() - i,
    {
        assert(overrides@.skip(i as int).drop_first() =~= overrides@.skip(i + 1));
        if overrides[i].0.0 == key.0 && overrides[i].0.1 == key.1 {
            return Some(overrides[i].1);
        }
        i = i + 1;
    }
    None
}

/// The binding for a key press, given the user's overrides keyed by exact
/// modifiers and physical key code.
pub fn editor_binding(press: KeyPressModel, overrides: &Vec<((u32, u32), EditorCommand)>) -> (binding: Option<EditorBinding>)
    ensures
        binding == editor_binding_spec(press, overrides@),
{
    if !press.focused {
        return None;
    }
    if let Some(code) = press.code {
        if let Some(command) = find_override(overrides, (press.modifiers, code)) {
            return Some(EditorBinding::Command(command));
        }
    }
    let shift = press.shift;
    let builtin = if press.jump && press.key == PressedKey::Backspace {
        Some(EditorCommand::WordDeleteBackward)
    } else if press.jump && press.key == PressedKey::Delete {
        Some(EditorCommand::WordDeleteForward)
    } else if press.command && press.key == PressedKey::ArrowUp {
        Some(if shift { EditorCommand::SelectDocumentStart } else { EditorCommand::DocumentStart })
    } else if press.command && press.key == PressedKey::ArrowDown {
        Some(if shift { EditorCommand::SelectDocumentEnd } else { EditorCommand::DocumentEnd })
    } else if press.command && press.latin == Some('z') {
        Some(if shift { EditorCommand::Redo } else { EditorCommand::Undo })
    } else if press.command && press.latin == Some('y') {
        Some(EditorCommand::Redo)
    } else {
        None
    };
    match builtin {
        Some(command) => Some(EditorBinding::Command(command)),
        None => Some(EditorBinding::Stock { drop_insert: press.command }),
    }
}

/// The byte offset where each line of text with UTF-8 encoding `bytes`
/// starts: 0, then just past every newline.
pub open spec fn line_starts_spec(bytes: Seq<u8>) -> Seq<usize>
    decreases bytes.len(),
{
    if bytes.len() == 0 {
        seq![0usize]
    } else {
        let rest = line_starts_spec(bytes.drop_last());
        if bytes.last() == 10u8 {
            rest.push(bytes.len() as usize)
        } else {
            rest
        }
    }
}

/// The byte offset where each line of `source` starts.
pub fn line_starts(source: &str) -> (starts: Vec<usize>)
    ensures
        starts@ == line_starts_spec(encode_utf8(source@)),
{
    let bytes = source.as_bytes();
    let mut starts: Vec<usize> = Vec::new();
    starts.push(0);
    let mut i: usize = 0;
    assert(bytes@.take(0) =~= Seq::<u8>::empty());
    while i < bytes.len()
        invariant
            0 <= i <= bytes@.len(),
            bytes@ == encode_utf8(source@),
            starts@ == line_starts_spec(bytes@.take(i as int)),
        decreases bytes@.len() - i,
    {
        assert(bytes@.take(i + 1).drop_last() =~= bytes@.take(i as int));
        if bytes[i] == 10u8 {
            starts.push(i + 1);
        }
        i = i + 1;
    }
    assert(bytes@.take(bytes@.len() as int) =~= bytes@);
    starts
}

/// Whether byte offset `column` is the last character boundary of `text`
/// at or before byte `limit`: the size of a prefix of `text` no larger than
/// `limit`, whose next character (if any) would go past it.
pub open spec fn last_boundary_at_or_before(text: Seq<char>, limit: nat, column: nat) -> bool {
    exists|k: int| 0 <= k <= text.len() && #[trigger] utf8_size(text.take(k)) == column && column <= limit
        && (k == text.len() || utf8_size(text.take(k + 1)) > limit)
}

/// The line a saved position lands on in a document of `count` lines:
/// clamped to the last one.
pub open spec fn clamped_line(count: nat, line: usize) -> int {
    let last = if count == 0 { 0 } else { count - 1 };
    if line < last { line as int } else { last }
}

/// Clamps a saved `(line, column)` to the nearest valid position in a
/// document whose lines are `lines`, in case it has since got shorter: the
/// line to the last one, the column (a byte offset) to the line's length,
/// backed up to a character boundary.
#[verifier::loop_isolation(false)]
pub fn clamp_position(lines: &Vec<String>, position: (usize, usize)) -> (clamped: (usize, usize))
    ensures
        clamped.0 == clamped_line(lines@.len(), position.0),
        ({
            let text = if clamped.0 < lines@.len() { lines@[clamped.0 as int]@ } else { Seq::<char>::empty() };
            let limit = if position.1 < utf8_size(text) { position.1 as nat } else { utf8_size(text) };
            last_boundary_at_or_before(text, limit, clamped.1 as nat)
        }),
{
    let last: usize = if lines.len() == 0 { 0 } else { lines.len() - 1 };
    let line = if position.0 < last { position.0 } else { last };
    let (chars, total) = if line < lines.len() {
        let bytes = lines[line].as_str().as_bytes().len();
        (chars_of(lines[line].as_str()), bytes)
    } else {
        proof {
            assert(utf8_size(Seq::<char>::empty()) == 0);
        }
        (Vec::new(), 0)
    };
    let ghost text = chars@;
    assert(total == utf8_size(text));
    let limit = if position.1 < total { position.1 } else { total };
    let mut column: usize = 0;
    let mut i: usize = 0;
    assert(text.take(0) =~= Seq::<char>::empty());
    while i < chars.len()
        invariant
            0 <= i <= chars@.len(),
            text == chars@,
            limit <= utf8_size(text),
            utf8_size(text) <= usize::MAX,
            column == utf8_size(text.take(i as int)),
            column <= limit,
        decreases chars@.len() - i,
    {
        let width = crate::text::char_width(chars[i]);
        proof {
            assert(text.take(i + 1) =~= text.take(i as int).push(text[i as int]));
            lemma_size_push(text.take(i as int), text[i as int]);
            lemma_size_prefix(text, i + 1);
        }
        if column + width > limit {
            assert(last_boundary_at_or_before(text, limit as nat, column as nat));
            return (line, column);
        }
        column = column + width;
        i = i + 1;
    }
    assert(text.take(i as int) =~= text);
    assert(last_boundary_at_or_before(text, limit as nat, column as nat));
    (line, column)
}

/// A run of syntax highlighting over document bytes `start..end`; the
/// category is the highlighter's index for it.
#[derive(Debug, Clone, Copy, PartialEq, Eq, Structural)]
pub struct SyntaxSpan {
    pub start: usize,
    pub end: usize,
    pub category: u32,
}

/// How a range of a line is colored.
#[derive(Debug, Clone, Copy, PartialEq, Eq, Structural)]
pub enum Highlight {
    Syntax(u32),
    Match,
    CurrentMatch,
}

/// The syntax coloring of the line spanning document bytes
/// `start..end`: every span overlapping it, cut to it and made
/// line-relative, in span order.
pub open spec fn syntax_ranges(spans: Seq<SyntaxSpan>, start: int, end: int) -> Seq<(usize, usize, Highlight)>
    decreases spans.len(),
{
    if spans.len() == 0 {
        Seq::empty()
    } else {
        let rest = syntax_ranges(spans.drop_last(), start, end);
        let span = spans.last();
        if span.start < end && span.end > start {
            let from = if span.start > start { span.start as int } else { start };
            let to = if span.end < end { span.end as int } else { end };
            rest.push(((from - start) as usize, (to - start) as usize, Highlight::Syntax(span.category)))
        } else {
            rest
        }
    }
}

/// The match coloring of line `line`: every match on it, in order, the
/// current one (by index into all matches) set apart.
pub open spec fn match_ranges(matches: Seq<FindMatch>, line: usize, current: Option<usize>) -> Seq<(usize, usize, Highlight)>
    decreases matches.len(),
{
    if matches.len() == 0 {
        Seq::empty()
    } else {
        let rest = match_ranges(matches.drop_last(), line, current);
        let found = matches.last();
        if found.line == line {
            let kind = if current == Some((matches.len() - 1) as usize) { Highlight::CurrentMatch } else { Highlight::Match };
            rest.push((found.start, found.end, kind))
        } else {
            rest
        }
    }
}

/// The colored ranges of line `line_index`, `line_len` bytes long, of a
/// document whose lines start at `line_starts`: syntax first, then the
/// find matches, which come last so they win where the two overlap. A
/// line past the known starts gets none.
pub fn highlight_ranges(
    spans: &Vec<SyntaxSpan>,
    line_starts: &Vec<usize>,
    line_index: usize,
    line_len: usize,
    matches: &Vec<FindMatch>,
    current: Option<usize>,
) -> (ranges: Vec<(usize, usize, Highlight)>)
    requires
        line_index < line_starts@.len() ==> line_starts@[line_index as int] + line_len <= usize::MAX,
    ensures
        line_index >= line_starts@.len() ==> ranges@.len() == 0,
        line_index < line_starts@.len() ==> ranges@ == syntax_ranges(spans@, line_starts@[line_index as int] as int,
            line_starts@[line_index as int] + line_len) + match_ranges(matches@, line_index, current),
{
    let mut ranges: Vec<(usize, usize, Highlight)> = Vec::new();
    if line_index >= line_starts.len() {
        return ranges;
    }
    let start = line_starts[line_index];
    let end = start + line_len;
    let mut i: usize = 0;
    assert(spans@.take(0) =~= Seq::<SyntaxSpan>::empty());
    while i < spans.len()
        invariant
            0 <= i <= spans@.len(),
            start <= end,
            ranges@ == syntax_ranges(spans@.take(i as int), start as int, end as int),
        decreases spans@.len() - i,
    {
        let span = spans[i];
        assert(spans@.take(i + 1).drop_last() =~= spans@.take(i as int));
        if span.start < end && span.end > start {
            let from = if span.start > start { span.start } else { start };
            let to = if span.end < end { span.end } else { end };
            ranges.push((from - start, to - start, Highlight::Syntax(span.category)));
        }
        i = i + 1;
    }
    assert(spans@.take(spans@.len() as int) =~= spans@);
    let ghost syntax = ranges@;
    let mut j: usize = 0;
    assert(matches@.take(0) =~= Seq::<FindMatch>::empty());
    assert(syntax + Seq::<(usize, usize, Highlight)>::empty() =~= syntax);
    while j < matches.len()
        invariant
            0 <= j <= matches@.len(),
            ranges@ == syntax + match_ranges(matches@.take(j as int), line_index, current),
        decreases matches@.len() - j,
    {
        let found = matches[j];
        assert(matches@.take(j + 1).drop_last() =~= matches@.take(j as int));
        if found.line == line_index {
            let kind = match current {
                Some(c) => if c == j { Highlight::CurrentMatch } else { Highlight::Match },
                None => Highlight::Match,
            };
            let ghost before = ranges@;
            ranges.push((found.start, found.end, kind));
            assert(ranges@ =~= syntax + match_ranges(matches@.take(j + 1), line_index, current));
        } else {
            assert(ranges@ =~= syntax + match_ranges(matches@.take(j + 1), line_index, current));
        }
        j = j + 1;
    }
    assert(matches@.take(matches@.len() as int) =~= matches@);
    ranges
}

} // verus!
