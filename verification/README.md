# gunita

A household memory bank and player: an HTTP server that browses the photos
and videos of the devices on a media mesh, renders thumbnails and previews,
and keeps memories (dated sets of media and notes) and collections of them.

- `src/` is the verified library: file classification, ordering, paging and
  month indexing of directory listings, joining listings with the media
  catalog, the catalog cache, byte ranges of streamed files, the layout of
  cached renderings, configuration, and memory playback. Each public function
  states its result in its contract; `src/laws.rs` proves the properties that
  hold across operations.
- `app/` is the server around it: command line, configuration file, SQLite
  storage, the media mesh client, image decoding and the HTTP routes.
- `tests/` runs the library on concrete inputs.
