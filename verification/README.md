# capscr

The logic of a screen-capture tool, written and proved in Verus, with an
ordinary program around it.

- `src/` is the library. Every function states in its contract what it returns
  or changes, and Verus proves it.
  - `capture/`: where pixels come from on each desktop, how frames are read,
    turned, cut and put together, and how HDR pictures are checked and written.
  - `clipboard.rs`: what goes on the clipboard or into a file, and under which
    name.
  - `commands/`: the capture pipeline, what is done with a capture, uploads,
    history, recordings, text recognition, plugins and windows.
  - `config/`: the settings, their rules, and how secrets are sealed.
  - `hotkeys/`: keys and their names, and who handles a key that was pressed.
  - `setup/`: the installer's package, pages and drawing.
  - `text.rs`, `paths.rs`, `order.rs`, `jumplist.rs`: what the others share.
- `app/` is the program: arguments, files, the network, the desktop, and the
  arithmetic of tone mapping, which is in floating point.
- `tests/` runs the library on concrete values.

Work that waits for the outside world is written as a machine: the library
says what to do next, the program does it and hands back what came of it.
Calls into other crates stand behind small functions whose contracts are
trusted; the comment above each says what is taken on trust.
