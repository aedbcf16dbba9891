# velocity_engine

The engine of a desktop download manager, written as a Verus library: every function in
`src/` carries a contract, and Verus proves all of them but those of the trusted wrappers
around outside crates named below.

What the library holds:

- **Downloads and the queue** (`download`, `download_ops`, `queue_ops`, `operations`,
  `registry`, `snapshots`): records, queue order and renumbering, adding, pausing, resuming,
  restarting, removing, scheduling and reordering downloads, and duplicate detection.
- **Planning transfers** (`segmentation`, `scheduler`, `download_plan`, `host_planner`,
  `host_telemetry`, `probe_cache`, `runtime_dispatch`, `runtime_ramp`): segment layout,
  idle-slot refill and work stealing, per-host connection targets, telemetry, the dispatch of
  queued downloads and live ramping of connections.
- **Probing** (`probe`, `probe_stage`, `probe_flow`, `probe_result`, `html`, `html_links`,
  `html_app`, `html_app_cache`, `html_app_resolver`, `filename`, `urls`, `patterns`): reading probe responses,
  the links and forms of wrapper pages, the app resolver of wrapper pages (its link choice,
  website token, guest-token cache and one step per API reply), the probe rounds over them, file names and the
  report of a probe.
- **Running transfers** (`bootstrap_merge`, `runtime_transfer`, `segment_worker`, `stream_worker`,
  `runtime_race`, `runtime_recovery`, `progress`, `progress_sync`, `disk_pool`,
  `persist_queue`, `integrity`): whether a transfer probes before it starts and how
  that probe is merged into the download, the decisions of segment and single-stream workers, shared
  segment controls, races, recovery, progress events, disk pressure, snapshot persistence
  bookkeeping and checksum verification.
- **The capture bridge** (`capture_bridge`, `http_request`, `http_pool`, `hex`): the local
  HTTP bridge a browser extension talks to, with request authentication and pending captures.

Calls into outside crates (url, regex, semver, sha2, hmac, getrandom) and into std where vstd
gives no specification go through small trusted wrappers whose contracts say what the outside
documentation promises.

`app/` is the program around the library: the capture bridge's network server, checksum
hashing of files, free-space queries, the floating-point rate limiter, the HTTP requests of
the probe rounds and of the wrapper-page app resolver, and the serde copies of the types sent over the wire.
`tests/` holds the tests.
