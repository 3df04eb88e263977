# gatherers

Gathers the media of the accounts a user subscribes to on content sites, and
downloads them into one folder per site, account and kind of content.

The crate has two parts:

- `src/` is a library verified with Verus. It holds the logic: cookie
  parsing and writing, paths and download locations, the byte ranges of
  chunked downloads, the planning of gatherer runs, the site's endpoints and
  the decisions of its paged calls, the selection and conversion of the
  site's records into media to download, the small parsers of the command
  line, and the tally of a download run. Every public function states its
  result in its contract; the laws that tie functions together are public
  proof functions (`law_*`).
- `app/` is the program around it: argument parsing, configuration files,
  logging, HTTP calls, JSON reading and the download workers. It hands the
  library plain values and acts on what the library returns.

Tests of the library are under `tests/`.
