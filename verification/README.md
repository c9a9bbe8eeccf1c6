# poet

A text editor with multiple selections, selection modes (character, word,
line), an undo history shared between windows, and dialogues that complete
what is typed (actions, files, buffers, languages).

The editing core is a library whose behaviour is stated in `requires` /
`ensures` contracts and proved with Verus:

- `src/filebuffer/` — the text, its tokens and its history of actions, with
  undo and redo.
- `src/textbuffer/` — a window onto a file buffer: selections, motions,
  editing, search, scrolling, replaying the history after other windows
  changed the buffer, and the lines a window shows.
- `src/combobox.rs`, `src/textbox.rs`, `src/filebox.rs`, `src/editor/` —
  the fields and lists dialogues are built from; `src/dialogues/` the
  dialogues themselves.
- `src/action.rs`, `src/bindings.rs`, `src/context.rs`, `src/instance.rs` —
  actions and their names, key bindings, settings, and what the editor does
  with the actions its windows hand on.

`app/` is the program around the library: the window, key and text events,
files and directories, and drawing with SFML. It is ordinary Rust that Verus
does not read.
