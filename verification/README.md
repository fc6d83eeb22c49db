# musicindex_live_publisher

MusicIndex live publishing for Podcasting 2.0 live value blocks, with its
rules verified by Verus.

Two programs share this library:

- `musicindex-live-publisher` watches a drop directory for
  `musicindex.nowplaying/1` JSON files, turns each into a live value payload,
  holds it for the target's stream delay, and publishes it to a MusicIndex
  live relay. Removing the drop file publishes the target's fallback block.
- `mixxx-now-playing` polls the Mixxx play history, writes the now-playing
  line, and writes metadata (text, or a drop file) for tracks under the V4V
  music root, asking the MusicIndex API for their payment routes.

## Layout

- `src/` is the verified library. Each module states its rules as contracts
  over spec functions and views, and the properties that span several calls
  as public proof functions named `law_*`.
  - `dropfile`, `livevalue`: the drop-file contract and payload assembly.
  - `watcher`: drop-directory events, block identity and fallbacks.
  - `schedule`: stream-delay holding and release.
  - `config`: publisher configuration rules and `[[target]]` stanza editing.
  - `relay`: publish preparation, relay outcomes and the publish worker's
    retry state machine.
  - `now_playing`: the Mixxx producer's rules (history gate, tags, routes,
    rendering, expiry, output files, settings, V4V classification).
  - `time`, `text`, `keyed`, `paths`: shared models and helpers.
- `app/` is the programs: argument handling, files, the network, signals,
  threads, and the serde copies of the library's data types.
- `tests/` exercises the library on concrete values.
