# komori

A lightweight terminal file explorer with vim-style keys, a sandbox that
keeps navigation at or below the starting directory, search by file name,
and a syntax-highlighted file preview.

- `src/` is the verified core: directory listings (`directory.rs`, sorted by
  `order.rs`), search and name comparison (`text.rs`), the preview state
  (`preview.rs`) and its syntax highlighting with syntect (`highlight.rs`),
  key bindings and action execution (`app.rs`), command-line
  and configuration resolution (`config.rs`), and properties that span
  several operations (`laws.rs`).
- `app/` is the program around it: terminal setup, the event loop, reading
  directories and files, copying a pasted file, loading the config file and
  drawing the screen. After each action the core returns an `Effect` that
  names the file-system work still to do; `app/fs.rs` performs it and hands
  the result back.

Paths are held as their components below the root (`/home/a` is
`["home", "a"]`).
