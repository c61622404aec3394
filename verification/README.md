# net-stalker

A web application that scrapes a few web sites that publish no feed and
serves their news as RSS, at `http://localhost:3000/<name>`.

- `src/` is the library, verified with Verus: the feed builder of each site
  (`src/sites/`), the model of a page's selected elements and of an RSS
  channel (`page.rs`, `feed.rs`), the digests and digit encodings the feeds
  use (`digest.rs`, `text.rs`), and the service that decides what each
  request is answered and caches each feed for an hour (`service.rs`).
- `app/` is the server around it: HTTP routing with axum, downloading pages
  with reqwest, the clock, logging and shutdown.

Served names: `kouan`, `hmc`, `jspp_hiroba`, `idwr`, `aist_shisan`, `jamstec`.
