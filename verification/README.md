# ghreview

A library for reviewing GitHub pull requests through the `gh` command-line
tool, verified with Verus.

`src/` is the verified library:

- `text` — character-level helpers on strings (decimal numbers, trimming,
  searching, splitting, string order), each specified over `Seq<char>`.
- `model` — pull request locators and the parsing of pull request
  arguments (`owner/repo#N`, pull request URLs, bare numbers).
- `command` — what a finished `gh`/`git` run means: its output or the error.
- `merge` — merge readiness as GitHub reports it and the head-guarded merge
  command.
- `preview` — patch and file fetching: API paths, blob cache keys, and the
  meaning of each answer.
- `review` — review comments and reviews.
- `search` — pull request lists and the merge of the authored and
  review-requested searches.
- `selector`, `dialog` — the state machines of the pull request selector and
  the merge dialog, and what they show.
- `session` — which leftover preview directories belong to other processes.
- `laws` — properties that span several operations, proved over the same
  spec functions the operations' contracts use.

Calls into `sha2`, `fuzzy-matcher` and a few `std` string functions stand
behind small trusted wrappers whose contracts state what those functions
document.

`app/` is the unverified shell: it runs `gh` and `git`, decodes their JSON
with `serde`, manages cache and preview directories, and hands the library
plain values. `tests/` exercises the library on concrete values.
