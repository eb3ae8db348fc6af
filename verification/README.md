# Through the Ages probe library

The counting, parsing and classification logic behind a set of analysis
probes for a Through the Ages engine and a corpus of human game journals,
written in Verus with every function's behaviour stated as a contract and
proved.

## Layout

- `src/` — the verified library, one module per concern:
  - `text`, `num` — character-level helpers: `str::find`/`trim`/`split`
    shaped functions, digit-run normalisation, journal-line columns, and
    decimal parsing and printing.
  - `journal`, `cards` — the game vocabulary the probes read (colours,
    ages, action classes, card types, moves) and the classification of moves
    into decision and build kinds.
  - `opener`, `opener_args` — the opening probe's tallies and command line.
  - `take_probe`, `take_probe_args`, `take_characterise` — the Mine-take and
    Farm-build probe's tallies and command line, and the take-rejection
    names.
  - `replay_stats`, `replay_census`, `keyed_tally` — histogram keys for the
    replay census, the test that recognises a journal's own arithmetic slip,
    and the census itself: what each game's replay found, folded into
    counters, score checks and first-example histograms, each ranked by
    count for the report.
  - `census`, `card_fate`, `opening_walk`, `stats`, `winners`,
    `winner_pass`, `winner_tallies`, `human_data` — human-corpus tallies:
    each player's opening, the fate of every civil card taken, order
    statistics of samples, reading running totals out of score lines, the
    colour-by-colour record of a game read off its journal, the
    winner-versus-loser comparison of one player count built from those
    records, and the dataset extraction's counts.
  - `seating`, `force_open`, `order_probe`, `mult_check`, `strength_relab`,
    `phi_dump`, `self_play_args`, `neural_eval_args`, `kind_match_args`,
    `harness_args`, `args` — the experiment drivers' command lines, seat
    rotation and game numbering. Where a flag's value names something only
    the engine knows (a bot kind, a bot spec, a difficulty), the library
    reads the flags and lists those names, and the engine side resolves
    them.
  - `tallies`, `human_paired`, `human_train`, `rank_data` — small per-game
    tallies summed across games.
  - `sums` — sums over finite maps, used to state that running totals agree
    with the tallies they summarise.
- `tests/` — tests of the library's public functions on concrete values.
- `app/` — the report side: means, rates and shares, which are
  floating-point quotients, and the lines printed with them.

Means and rates are never computed in the library: it reports exact sums and
sample sizes, and takes the caller's rendering of the quotient as text.

The engine itself (replaying a game, the corpus reader, the bots) is not part
of this library: where a tally needs what only the engine can say of a move or
a journal line, that comes in as plain facts, and the library does the rest.
