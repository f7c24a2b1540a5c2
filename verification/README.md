# xtg

A relay that watches X (Twitter) accounts and forwards their new posts to
Telegram chats from a user account, with optional translation into Chinese.

- `src/` is the library, written in Verus and verified: text handling, the
  X API v2 request and response logic, choosing and ordering new posts, the
  per-account cursor store, the layout of Telegram messages and media, the
  settings and their migration, the sign-in flow, and two state machines:
  one polling round (`round`) and the answer to the "最新" group command
  (`latest`). Public proof functions named `law_*` state properties that
  span several operations.
- `tests/` runs the library on concrete values.
- `app/` is the web server around the library: HTTP, Telegram (grammers),
  files and timers. It performs the actions the state machines ask for and
  reports back what happened.

Calls into chrono, urlencoding and ab_glyph stand behind small trusted
wrappers in `src/`, each with a doc comment saying what its contract claims.
