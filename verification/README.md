# win-etw-manifest

Reads Windows instrumentation manifests (XML ETW provider manifests) into
Rust structures: the provider with its keywords, tasks, events and payload
templates.

- `src/` is the library, verified with Verus. The document is tokenized by
  the `xml-rs` reader (`xml_stream.rs`); every parser then works on the event
  stream and states in its contract what it reads, as a function of the
  events (`reading.rs`, `keyword.rs`, `task.rs`, `event.rs`, `template.rs`,
  `provider.rs`, `manifest.rs`). GUIDs are read by `uuid`.
- `tests/` holds the tests.
- `app/` generates Rust items from a directory of manifests with
  `proc-macro2` and `quote`.
