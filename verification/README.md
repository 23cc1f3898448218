# dr_script

An interpreter for Dr Script, a small scripting language with integers and
strings, `var`/`ver` variables, functions, `if`/`while`/`for`, modules loaded
with `use`, and builtins such as `print`, `input`, `len` and `random`.

The library under `src/` is written in Verus and verified:

- `lexer` turns source text into positioned tokens; `parse_spec` and `parser`
  turn tokens into statements (`basic_parser` reads a smaller statement form).
- `interp_spec` states what running a program means, as functions over a
  history of the surroundings (`io::Trace`); `interpreter` and `frame` run
  programs and are proved to follow it; `builtins` holds the builtin functions.
- `values`, `intparse`, `text` and `report` hold values, number reading and
  the texts of values and errors; `laws` states properties that hold of every
  program and value.
- `program::execute_dr_code` runs a source text from start to end.

`app/` is the command-line program (`--file program.dr`), the terminal
surroundings and the functions exported for a host application.

## Notes on the design

- Variables, functions and builtins are kept in `table::Table`, a vector of
  `(String, value)` entries with at most one entry per name, whose contract
  states it as a map from names to values. A std `HashMap` keyed by `String`
  would do the same work at run time, but what vstd states of such a map is
  not enough to prove what a lookup after an insert gives; the table states it
  exactly, and the interpreter's contracts rest on that.
- Token columns follow the scanner of the language as it has always counted
  them: blanks and comments do not move the column, an unknown character moves
  it by one, and the first token after a line break starts at column 2.
  Error reports point at these columns.
