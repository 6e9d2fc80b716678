# hitrelease

The logic behind a music-guessing card game: song catalogues prepared from a
song list (ids hashed from the songs' URLs, downloads tallied), an in-memory
song store, the printed game cards (QR codes and Typst card text), the player
pages' audio links, and the checks behind song uploads.

- `src/` is the library, verified with Verus.
- `tests/` runs the library on concrete values.
- `app/` is the command-line program and the two web servers around it:
  file and network I/O, process spawning and the async request handlers.
