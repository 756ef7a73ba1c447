# grusindeks

Grusindeks is a score from 0 to 100 for how good it is to ride gravel: a
weighted mean of temperature, wind, precipitation (amount and probability) and
the state of the ground, from the forecasts and observations of MET Norway.

## Layout

- `src/` is the library, verified with Verus. It holds the score and its curves
  (`score`, `felt_temp`, `drying`), days and best windows (`daily`, `windows`),
  the runs over several sample points (`run`, `aggregate`, `rain_history`), the
  rules of talking to the services (`client`, `cache`, `frost`,
  `locationforecast`, `nowcast`, `metalerts`), the command line (`command`) and
  the reports (`output`, `theme`). What holds of a module as a whole stands in
  its `laws`; of the reports also in `output::plain` and `output::marks`.
- `tests/` runs the library.
- `app/` is the `grusindeks` program: arguments, files, the network, the local
  clock, and the floating-point formulas whose results it hands to the library.

## Conventions

- An instant is a number of nanoseconds since 1970-01-01T00:00:00Z (`i128`); a
  date is a day number. Local time goes through a `LocalClock`.
- A measured quantity is a `Reading`: the integer that orders like the
  floating-point number. The library compares readings and never computes with
  them. Where a report prints a quantity, it comes as a `Measured`, with its
  text.
- Whether the terminal takes colour is a flag; without it every text is plain.
