# gavin

A vinyl catalog service: records with their album metadata, looked up on MusicBrainz,
recognised from cover photos, and administered behind OpenID Connect or a development login.

## Layout

- `src/` is the verified library. Each module states its rules as Verus contracts:
  - `db`: vinyl records, how they are created, updated and enriched, and search patterns;
  - `catalog`: the update a metadata lookup stores and the album details shown to visitors;
  - `album_metadata`, `search_terms`, `retail`, `musicbrainz`: candidate scoring and ranking,
    search terms and queries, reading MusicBrainz replies and retail pages;
  - `recognition`: the requests and replies of the cover recognition providers, and the
    retry policy;
  - `cover`: cache keys, cache file names and accepted image types;
  - `admin`: uploads, admin-chosen candidates and the cleanup of unreferenced images;
  - `auth`, `config`: the session login rules and the configuration read from the environment;
  - `text`, `normalize`, `sort`: character and string helpers, Unicode folding and a
    stable sort. The current time and new identifiers are read in `app/` and passed in.
  Laws that relate several functions are public proof functions beside them.
- `tests/` runs the library on concrete values.
- `app/` is the web server around it: HTTP routes, the SQLite store, sessions, the OpenID
  Connect client, the outgoing HTTP calls, the clock and the random identifiers.
