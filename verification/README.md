# mdbook-bookshelf

`mdbook-bookshelf` builds multi-book documentation sites on top of stock
mdBook: every book is loaded and rendered by mdBook, and this project adds
the multi-book routing, navigation, search and bookshelf UI around it.

## Layout

- `src/` is the library, written in Verus: every function carries a
  `requires`/`ensures` contract over mathematical models (`Seq`, `Map`,
  spec functions and views) and is proved by Verus. It holds the
  configuration checks, the catalog of books, site-root link rewriting,
  the site and navigation models, the sidebar, the renderers, the search
  index composition and the decisions of the development server.
- `src/shelf/` holds the `book` command's part of the library: the
  `[bookshelf]` configuration, the catalog, the Bookshelf page, the
  documentation index, the runtime assets, the link map and the shared
  search payload.
- `app/` is the `book` command: argument handling with clap, reading
  `bookshelf.toml` with toml, driving mdBook and its preprocessors, file
  and network I/O, and the live-reload server with axum and tokio. It hands
  the library plain values and acts on what comes back.
- `tests/` runs the library on concrete inputs.

Laws that relate several functions stand in `src/` as public proof
functions named `lemma_*`, each with a doc comment that states the law.
