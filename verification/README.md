# kfc_tools

The logic of a command line tool that unpacks, repacks and converts kfc archives,
written in Rust and verified with Verus.

- `src/` is the library. Every function states what it returns, and Verus proves it.
  What is taken from other crates without proof stands in `value.rs` (the map of
  fields from `indexmap`), `image_file.rs` (the encoder of `png`), `records.rs`
  (strings of `serde_json`) and `text.rs` (parts of the standard library).
- `tests/` runs the library.
- `app/` is the tool around it: the command line, files, threads and progress bars.
  Archives, types, decoders and programs come from the `kfc` crate.

| Module | What it decides |
| --- | --- |
| `wrapper` | the header that some content is wrapped in |
| `value`, `metadata`, `scan`, `content_map` | what resources say of content |
| `debug_names` | the names that resources go by |
| `pixel_format`, `levels`, `image_file`, `convert` | the files that come of content |
| `filter` | what a filter chooses |
| `extract`, `names` | what is extracted, and where it goes |
| `unpack`, `records`, `repack`, `import`, `jobs` | how each item of a command ends |
| `game_dir`, `types`, `impact` | files, backups, reflection data and programs |
| `text`, `error` | texts |
