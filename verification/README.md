# in_web

A private drive over the web: folders and files of one's own, shared by link or
by name, with a trash, uploads in pieces, a settings page and a machine API.

- `src/` is the verified library. Every decision the drive takes stands there as
  a function from plain values to plain values, with its contract: who may see,
  download, move or destroy what; which bytes a range asks for; what a page
  shows, in which order and in which language; where a form sends the browser
  and what it says there; how a long conversation with the store or with the
  identity service goes on.
- `app/` is the program around it: the router and its templates, the store, the
  client of the identity service, and the tasks that run beside the pages. Where
  a decision takes several lookups, the library says what to look up next and
  `app/` hands the reply back, until the library answers.
- `extras/client/` holds the scripts the pages carry.
- `tests/` drives the library the way a browser drives the pages.

The rows and the bytes live in memory in this program. Public laws of the
library are the proof functions whose names begin with `law_`.
