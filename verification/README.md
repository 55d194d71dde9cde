# allium_deck

Candidate-pool builder for a deck recommender: it takes the game's
masterdata and a player's cards, applies a request's cultivation presets,
filters and trims the cards, and produces the dense pool and the context a
deck search runs on. Its functions are verified with Verus against
contracts stated over mathematical models, except one trusted boundary:
`json::parse_json` and its conversion helper, which hand a text to
`serde_json` and convert the parsed tree. Their contracts claim only that
the tree is a function of the text; everything that reads the tree is
verified.

Layout:

- `src/` — the verified library.
  - `types`, `data`, `error`: vocabulary, masterdata and player rows, request
    parameters, errors.
  - `text`: token normalisation and the code vocabularies.
  - `masterdata`, `owned`: raw file rows and their assembly into tables
    (card parameters, skills, area items, deck bonuses, song rows).
  - `validate`, `card_config`: request checks and cultivation presets.
  - `index`, `power`, `skill`, `event_bonus`, `music`, `support`: per-card
    power, skill, event and support bonuses.
  - `filter`, `prune`, `order`, `gather`, `capacity`: candidate filtering,
    dominance trimming, stable ordering and the compact pool.
  - `pipeline`: the build entry points.
  - `json`, `request`: the parsed JSON tree (read with `serde_json`) and the
    readers of the request parameters and the player data.
  - `properties`: laws that relate several functions.
- `tests/` — tests on concrete values.
- `app/` — the command-line front end: file reading, the masterdata rows'
  decoding, the decimal-to-integer scaling of masterdata rates, and the JSON
  report.
