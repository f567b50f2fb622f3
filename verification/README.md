# recro

The backend of a music player: accounts, library sync, listening history,
search across several catalogues and audio streaming. The rules and
algorithms live in a library verified with Verus (`src/`); the HTTP server,
the database, the extractor processes and the mail transport are ordinary
Rust around it (`app/`).

## Layout

- `src/` — the verified library, one module per concern:
  - `auth`, `accounts`, `access`, `google`: user names, passwords, session
    tokens (HS256 through `jsonwebtoken`), password hashes (`bcrypt`),
    login lockouts, Google sign-in and user-name generation;
  - `throttle`, `requests`, `security`: rate limiting, request limits per
    endpoint, SSRF refusal and the client address;
  - `search`, `tracks`, `title`, `links`, `extractor`, `stream`,
    `playback`, `extraction`: search merging, track records, title
    cleaning, links, extractor arguments, and the streaming and extraction
    strategies as state machines (the caller performs each action and
    reports its outcome);
  - `library`, `stats`, `mail`, `config`, `cover`: library rows, the
    listening personality, mail routing and texts, configuration, cover
    proxying;
  - `text`, `numbers`, `status`: string, number and status helpers.
- `tests/` — tests of the library.
- `app/` — the server: routes, database, processes, HTTP clients, mail,
  and the floating-point statistics.

## Notes on the design

- Outside calls that only compute (bcrypt, `jsonwebtoken`, `fastrand`,
  URL parsing, URL encoding, JSON string lists) are made from `src/`
  through small trusted wrappers whose contracts state what the outside
  source shows; where a result takes pages to state it is given a name.
- The rate-limit table (`throttle::AttemptTable`) is a `Vec` of records
  with a ghost `Map` as its view and the invariant that no key occurs
  twice. A std `HashMap` keyed by `String` gets no usable specification
  from Verus (not even the length after one insert can be proved), so the
  table is kept in a form whose every operation is proved against the map.
- Times reach the library as milliseconds of a monotonic clock chosen by
  the caller; windows are judged in whole milliseconds.
- Title cleaning removes noise words found in the lower-cased title at the
  same byte positions in the title itself; where lower-casing changes a
  character's width those positions differ, and a title whose cut would
  fall inside a character is refused by `clean_music_title_checked`.
