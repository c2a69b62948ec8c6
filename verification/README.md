# fugu

A small interactive command shell with a completion list in the style of
helm: while a command name is typed, the programs on the search path that
match the current word (as a regular expression) are listed under the
prompt and can be picked with the arrow keys.

- `src/` is the shell's core, proved with Verus: the line editor
  (`editor`, `point`), the incremental command-line parser (`parser`,
  `exec`), command lookup and built-ins (`exec`, `builtin`, `common`), the
  completion search (`fugu_env`, `pattern`), the candidate list
  (`selector`, `fugu_screen`), the prompt text (`settings`), line
  continuation (`read_line`) and what the interactive loop does on each key
  (`shell`).  `strings` holds byte-offset reasoning about UTF-8 strings and
  the contracts of the `String` operations used.
- `app/` is the program around it: terminal input and drawing, walking the
  search path, starting processes, changing directory, logging and
  command-line options.
- `tests/` exercises the library on concrete inputs.
