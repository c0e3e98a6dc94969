# buoy

The verified core of buoy, a music client for Subsonic servers: the play queue, the
navigation history of the browser, the filters and searches of the list views, the labels
shown, and the decisions taken on the commands of the player. Its behaviour is stated in
`requires` / `ensures` contracts and proved with Verus.

## Layout

- `src/` — the library, verified by Verus.
  - `queue.rs` — the play queue: what plays next and before (in order, repeated, shuffled),
    inserting, removing and moving rows, with the laws they keep.
  - `browser.rs` — the history of the pages shown, the search bar, the batches in which
    long playlists are sent to the server, and what follows the server's answers.
  - `player.rs` — the decisions on player commands, the play controls, favorites and
    scrobbles, and what the list views hand to the queue.
  - `sequence.rs` — the repeat and shuffle modes and their buttons.
  - `filter_row.rs`, `categories.rs` — filter rows, filter boxes, categories and sort orders.
  - `common.rs`, `text.rs`, `info.rs`, `play_info.rs`, `download.rs` — time labels,
    searching, the texts of summaries, and the files a download writes.
  - `selection.rs`, `ranking.rs`, `random.rs`, `shown.rs` — which albums and songs a page
    lists, and what a list view counts.
  - `cache.rs`, `css.rs`, `pages.rs`, `widgets.rs`, `elements.rs`, `login.rs`,
    `playlists.rs`, `i18n.rs` — the cover cache, drop marks, page names, small widgets, the
    album and artist elements, the login form and the playlists view with the steps by
    which its edits reach the server.
- `tests/` — tests of the library on concrete values.
- `app/` — the edge around the library: files on disk, the Subsonic client, and the widget
  parts that work with fractions.
