# ptywright-repl

An interactive client for a terminal-automation server, split in two.

- `src/` is the library. It holds everything the client decides: the grammar
  of commands and meta commands, the requests they make and what the replies
  change, the bindings that Lua code calls, completion, highlighting, history,
  message framing, and the layout and painting of pictures of terminals. Each
  function states in its contract what it gives back, and Verus proves it.
  The laws that span several functions are the public proof functions at the
  end of each module.
- `app/` connects the library to the world: sockets and child processes,
  threads, the Lua virtual machine, the line editor and the full-screen
  interface.
- `tests/` runs the library on concrete values.

A command that needs the server is a chain of steps. A function of the library
takes the state and says which request to make; `app/` makes it and hands the
reply to the next function, which says what it changes and what comes next.

What is taken on trust is small and marked in the source: what is claimed of
`serde_json`, `mlua`, `nu-ansi-term` and `tui-input`, and of the few functions
of `std` in `src/text.rs` and `src/duration.rs` that build strings, read
numbers and UTF-8 and print with `{:?}`. A comment at each says what the claim
is.
