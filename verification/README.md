# ages

How old the people you care about are, in the terminal: a table or JSON listing, and an
interactive view with a per-second age counter and their avatars.

- `src/` is the library, verified with Verus: calendar arithmetic and ages across time
  zones (`calendar`, `zone`, `age`), sorting (`order`), the texts and the aligned table
  (`i18n`, `output`, `table`), reading dates (`dates`), the people store and its rules
  (`model`, `store`), the command-line commands' decisions (`cli`, `commands`), avatars
  and pixel art (`avatar`, `pixelart`), and the interactive view's state machine, form
  and screen texts (`tui`).
- `app/` is the program around it: argument parsing, the TOML file, image and avatar
  files, the terminal and its drawing.
- `tests/` runs the library on concrete values.
