# Codex Meter

Codex Meter is a local service that answers two questions from the logs that Codex leaves on a
machine: how many tokens a day, a minute, a model or a session has used, and how much of a
subscription's weekly quota that is. Logs are the primary source; the Codex app server adds the
account and its official percentages, and `ccusage` is run for comparison only. A price or a model
that is not known is shown as unknown, never as zero.

## Layout

- `src/` is the verified library. Every function states what it returns and is proved by Verus.
  - `pipelines::source` reads log lines, replies of the app server and runs of `ccusage` into
    facts; `db` says how a fact is stored over an earlier one with its key.
  - `pipelines::result::materialize` makes days, minutes, windows and sessions of the facts.
  - `pricing` and `config` hold the price catalogs and price a request by them.
  - `collectors` is the watcher of the logs, with its cursors and its queue of changed paths.
  - `minimal` is a smaller service with seven tables and a report of its own.
  - `domain`, `calendar`, `json`, `text`, `path`, `digest`, `ordered`, `num`, `double` and `privacy`
    are what the others stand on.
- `tests/` runs the library.
- `app/` is the program around it: the database, the processes, the files, the routes, and the rest of
  the floating-point arithmetic.

## How numbers are held

The library computes with integers. Amounts of money and credit are in millionths. The multiplier of
a fast tier is held by the bits of its floating-point number, and the product with it is reckoned as
floating-point hardware rounds it. A percentage is held by its place in the order of floating-point
numbers, which is enough to compare it; a share, a coverage or a rise is held by its parts, and the
program divides or adds them when it shows them.

## What is trusted

The proofs rest on the contracts of a few calls that are not verified here: SHA-256 and its
hexadecimal text, HMAC, the calendar, its range and the RFC 3339 time stamps of `time`, the quoting
of JSON strings by `serde_json`, and lower case and `push` of standard strings. Each stands in a
function of its own with a comment that says what is claimed of it.
