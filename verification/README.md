# daltui

A terminal workspace: an agent, git and a shell side by side, one window per
worktree of a repository.

`src/` is the library, verified with Verus. It holds everything the program
decides:

- `text`, `paths`: text as sequences of characters, and paths as text.
- `git`: what git prints, read into worktrees, branches and side-by-side diffs.
- `keys`, `config`: key presses, the bytes they stand for, and key bindings.
- `app`, `events`: the state of the program, and what keys and resizes do to it.
  What is left to do outside is handed back as an `Action`.
- `screen`: the screens of terminal sessions, kept by the `vt100` emulator.
- `ui`: what is drawn where, as a list of drawing instructions. Areas are divided
  by `ratatui`'s layout.
- `util`: what programs printed.
- `laws`, `git::laws`, `git::listing_laws`, `ui::laws`: properties of the whole, as proof functions.

`app/` is the program around it: it starts sessions, runs git, reads the
configuration file and the terminal's events, and carries out the drawing
instructions.
