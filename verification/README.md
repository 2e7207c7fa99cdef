# drysua

A Shadow Fiend bot for a two-sided lane game, as a library whose rules are stated as contracts
and proved with Verus.

- `src/` is the verified library.
  - Actions: `world`, `tracker`, `candidates`, `points`, `passability`, `shop`, `masks`, `space`,
    and `construction` turn one tracked snapshot into the legal structured actions of a seat.
  - Features: `scalar`, `map_context`, `walking`, the `*_features` modules, `observation`,
    `encoder`, and `assembly` turn a snapshot into the exact numbers behind a feature frame.
    The `*_feature` modules name the columns.
  - Imitation: `behavioral_target`, `packing`, `sample`, `pool`, `coverage`, `evaluation`,
    `promotion`, `training`, and `training_checkpoint`.
  - Checkpoints: `manifest`, `checkpoint`, `checkpoint_codec`, `mastery`, `archive`, `digest`,
    `artifact`, `cuts`, `sources`, `descriptions`, and `storage`.
  - Leagues, arenas, and laning probes: `league`, `arena`, `laning`, `laning_observer`.
- `tests/` runs the library.
- `app/` holds the command line, the files on disk, and floating-point arithmetic.

Numbers that are floating point elsewhere are kept as their IEEE bits in `src/`. The public proof
functions state what holds across several calls, such as that a saved checkpoint loads again.
