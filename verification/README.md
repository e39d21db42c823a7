# plato_config

Configuration management for Plato agents and rooms, written in Verus.

- `src/` is the verified library: the agent `Config` with its defaults and
  named profiles (`config`, `profile`), layered loading and merging
  (`loader`), change reports between two configurations (`diff`), the
  consistency rules (`validator`), the reload decision of a file watcher
  (`watcher`), the room and fleet rules and keyed merging (`room`), and text
  helpers (`text`). Contracts are stated over the configurations' views;
  the laws (merging is associative with the defaults as identity, a change
  report is empty exactly for equal configurations, presets are idempotent,
  the defaults are valid, merged rooms never repeat a sensor id, ...) are
  proof functions beside the code they speak of.
- `app/` holds what Verus does not check: serde copies of the types, file
  and environment reading, the watcher's polling thread, and the room and
  fleet types whose sensors carry floating-point values.
