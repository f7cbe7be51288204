# broken-antler

A GraphQL server over a catalogue of concerts (venues, songs, shows, sets and
song performances), loaded from an event store, together with the tools that
prepare and load its seed data.

The library in `src/` is written in Verus and verified:

- `types` – the records, and their conversions to and from plain dates.
- `event` – insert events, and the type names under which they are stored.
- `database` – the catalogue collected from a stream of events, with its
  indexes from ids to positions.
- `columns` – the answers to the query engine's requests for columns.
- `populators` – the type and id of each search result.
- `search` – reading show dates out of a free-text search query.
- `seed_files` – where the seed files lie, grouping song performances by
  show and set, and the sets and events made from them.
- `seed_parts` – which numbered parts of a seed file are joined, in which
  order.
- `seed_json` – the edits the seed tools make to JSON documents: taking out
  a wrapped list, joining lists, giving records and songs fresh ids; and the
  text of each seed file they write, read and printed with `serde_json`.
- `regexes` – the regular expressions the library runs, with `regex`.
- `text` – small facts about text: decimal digits, equality, order.

`app/` holds the program around it: the command line, the HTTP server and its
schema, reading and writing files, and the connections to the event store.
