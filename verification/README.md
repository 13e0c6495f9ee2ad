# KeyForge

A global key and mouse remapper for Windows, with its decision logic
written and proved in Verus.

- `src/` is the verified library: the settings model and its validation,
  schema migration, the save and load decisions of the settings file, the
  rule compiler and the runtime engine, key names and input plans, key
  capture and the capture guard, the keyboard inventory, Plug and Play
  property decoding, connected-keyboard profile activation, the startup
  registration plans, the results the service records, and the tray
  decisions. `src/laws.rs` states and proves the properties that span
  several functions; `src/key_laws.rs` holds the proof that every key name
  the hook reports reads back as an injectable key.
- `tests/` runs the library on concrete values.
- `app/` is the daemon around the library: files, the registry, Raw Input,
  SetupAPI and the low-level hooks, and the JSON forms of the settings.
