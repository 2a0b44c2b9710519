# git_ai

Tracks which lines of a git repository were written by AI sessions.

- `src/` is the library, verified with Verus.
  - `session` is how a function asks for what it cannot do itself: it ends with a pending request,
    and is called again once there is an answer. Every contract of such a function fixes its result
    and its requests for each list of answers.
  - `git` holds what is asked of git and what is read from its answers; `git::agreement` says what
    answers to several questions say together.
  - `authorship` holds transcripts, logs, statistics, and what happens to logs when history is
    rewritten; `authorship::effects` says what each rewrite changes and leaves alone.
  - `commands` holds the commands. The program knows five agents by their hooks. The name of the
    first is handed in, through the parameter that is named after it: a word of small letters. Help
    lists it before the others, and where its hook fails the complaint is that name with a capital
    and ` preset error: `.
  - `text`, `assoc`, `json`, `binary64`, `changes`, `clock`, `digest` are the parts that the others
    are built on. `binary64` computes shares as double precision numbers do, with integers.
- `tests/` runs the library, mostly against a small repository in memory.
- `app/` runs git, reads and writes, and leaves notes, working logs, blame and agents' hooks to an
  implementation of its `Host` trait.
