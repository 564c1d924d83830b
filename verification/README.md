# audiocontrol helpers

The helper library of an audio control daemon: cover art providers and their
grading, the artist image store, the image cache and its thumbnail ladder, the
attribute cache, MusicBrainz name handling, FanArt.tv and Last.fm request
building, configured external cover art endpoints, favourites, genre cleanup,
MPRIS and BlueZ property interpretation, and the small text and codec helpers
they share.

- `src/` is the library, written in Verus. Its functions carry contracts
  over mathematical models (`Seq`, `Map`, `Set`, spec functions and
  views), and the laws that relate several functions are public proof
  functions whose names start with `law_`. Calls into outside crates (image
  decoding, hashing, base64, LRU caching, MAC addresses, transliteration)
  go through small trusted wrappers, each with a doc comment saying what it
  claims of the crate. The library's own service traits (the attribute
  store, an endpoint's backend, an image source, a favourite provider)
  name what a service may answer through relations whose default is
  "anything"; the contracts fix what is asked of the service and what is
  made of each answer.
- `app/` is the I/O around it: files, SQLite, HTTP, D-Bus, threads and the
  process-wide singletons. It performs what the library decides and hands
  the results back as plain values.
- `tests/` exercises the library from outside, with the real outside crates
  linked.
