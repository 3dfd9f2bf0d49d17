# fleet_warden

The decision logic of Fleet Warden, a disk cleanup daemon for development
machines, written in Verus and proved against its contracts.

`src/` is the verified library:

- `circuit_breaker` — the Closed → Open → HalfOpen breaker that guards
  cleanups, with a mathematical model (`BreakerModel`) and proofs of its
  thresholds, its rejections and its counters.
- `state` — the persistent state: last cleanup per category, total recovered
  bytes, and the newest 30 disk-usage samples; the state and log paths, kept
  as the bytes of the paths.
- `budget` — reading `df` output, the growth of disk usage between the
  oldest and the newest sample (the caller divides it into a daily rate),
  and the days until the disk is full.
- `scanner` — the scan report and the rules a scan applies (large files,
  skipped directories, active toolchain, stale sessions).
- `cleaner` — which categories a cleanup run touches, in which order, and how
  the recovered bytes are accounted for.
- `watcher` — the steps of a watch cycle as a state machine.
- `history` — which cleanup-log entries a listing shows.
- `anomaly` — the sliding window of measurements and the merging of outlier
  indices.
- `text` — words, lines, unsigned numbers and substring search
  over characters, and path joining over bytes.

`app/` is the `fleet-warden` command line around it: argument parsing, file
system walks and deletions, running `df`, `pip`, `npm` and `rustup`, reading
and writing JSON, printing, and the floating-point arithmetic (the daily
growth rate, the disk-usage percentage, anomaly detection and adaptive
throttling).
