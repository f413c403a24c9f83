# ssmgr

A sample library manager: a server that scans directories of audio files and
serves them with a JSON API and a Strudel sample map, and a terminal client
that browses, filters, tags and plays the samples.

- `src/` is the verified library (Verus): the data model, filtering, category
  edits, merging a rescan into the known samples, the server's answers, the
  client's URLs and cache, the interface's key handling and the texts it draws,
  and an audio file's metadata and length from what its container reports. Its
  laws are in `src/laws.rs`.
- `app/` is the program around it: the command line (`ssmgr server` runs the
  server, `ssmgr` the client), HTTP with axum and reqwest, the directory walk,
  the terminal with ratatui and crossterm, sound output with rodio, probing
  audio files with symphonia, the tempo estimate (floating point) and the JSON
  forms of the library's types.
- `tests/` runs the library on concrete values.
