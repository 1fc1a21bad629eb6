# GitHub Dashboard

A desktop window on a local git repository and its GitHub remote: the commit graph, the changed
files with their diffs and hunks, pull requests, workflow runs and comments, and the commands to
commit, push and revert.

- `src/` is the library. It reads what `git` and `gh` print, decides what each key and button does
  and which program to run next, and makes the texts and tones that are shown. Verus proves the
  contract of every function but those that only call an outside one: the four wrappers
  `find_pattern`, `capture_group`, `format_moment` and `text_of_bytes`, and the specifications of
  `String::push` and `str::to_uppercase`. What these claim is believed, and stands above each.
- `app/` is the program around it: it draws the window, runs the programs that a job asks for and
  hands their answers back.
- `tests/` runs the library on examples.

A command becomes a `Job` that waits for an answer. The program performs the `Request`, hands the
`Reply` back and goes on until the job is done:

1. `jobs::start` carries a command out as far as it goes without an answer.
2. `Job::request` says what is to be run, and `Job::step` goes on with the answer.
3. `Next::Done` says that nothing is left to do.
