# bybe_db

Reads the Foundry VTT source data of Pathfinder 2e and Starfinder 2e
(creatures, hazards, items, weapons, armours, shields and conditions) and
shapes it into the records of the BYBE database.

The library under `src/` is written in Verus: each parser states in its
contract the record it builds from a JSON document, and the data-set readers
state which records they keep. The program under `app/` downloads the data
set, reads its files, and writes the records to PostgreSQL.

Layout of `src/`:

- `json.rs`: the JSON document model that the parsers read.
- `text.rs`, `assoc.rs`, `model.rs`: strings, small maps and sequence helpers.
- `localize.rs` and `localize/trait_table.rs`: dotted-path lookups in the
  language files and the table of trait texts.
- `game_system.rs`: Pathfinder or Starfinder, and the one in effect.
- `schema/`: the source layouts (`source_schema/`) and the stored records
  (`bybe_*`).
- `collect.rs`: the readers of whole data sets.
