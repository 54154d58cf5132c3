# jumppad

The core of a small plaintext editor, verified with Verus: the tab strip and
its dialogs, undo history, case-insensitive find and the find palettes,
watching open documents and config files for changes, the session manifest
and draft files that survive a restart, the command line, and the editor
state that ties the strip, the find palettes and the watches together.

- `src/` is the verified library. Points in time are `u64` nanoseconds on the
  monotonic clock, from an origin the caller picks; paths are UTF-8 strings.
- `tests/` exercises the library on concrete values.
- `app/` is the shell: file-system reads and writes, watchers, the command
  line and the session on disk. It draws no window: it restores the session,
  opens the files named on the command line, watches them for a moment and
  saves the session again. Invoked as `build_grammars`, it builds the
  syntax grammars instead. The window toolkit the editor is meant to be drawn
  with (iced) is not linked here.
