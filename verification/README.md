# fzt

A fuzzy test finder: it lists the tests of a Python, Java or Rust project, lets the user pick
tests, files or directories with fzf (or take the last pick, or one from a history), and runs
them with pytest, Gradle, cargo or nextest.

- `src/` is the library, verified with Verus. It holds the rules: which files are test files,
  how the cached test lists are brought up to date, the selection histories, the failed tests
  of the last run, the command lines of the runtimes, and the reading of their output.
- `app/` is the program around it: argument parsing, the disk walk, files under `~/.fzt`,
  running processes and fzf, and printing.
- `tests/` runs the library on concrete values.
