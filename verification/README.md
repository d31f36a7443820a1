# manga_sources

Reading manga sites, and fetching their pages past challenge pages.

- `src/` is the library, verified with Verus. It decides what is requested and what an answer means.
  - `networking/` holds the client that goes to a site directly while that works and through a
    challenge solver when it does not, image fetches that follow wrapper pages, cookies, and the
    rate limiter. Each is a state machine that is told what happened and says what to do next.
  - `weebcentral`, `wpmangareader`, `guyalib` and `mangalife` read the pages of their sites.
  - `dom`, `urls` and `dates` are where other crates are called, each behind a small contract;
    `text` is what the rest needs of strings.
  - Functions named `law_` state what holds of the library as a whole.
- `tests/` runs the library on examples.
- `app/` is the running side: HTTP, clocks, the environment, JSON, and the plugin traits.
