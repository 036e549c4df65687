# monte_carlo

Monte Carlo price-path simulation for single tickers and portfolios.

* `src/` — the verified library (Verus): barrier detection and hit
  statistics (`barriers`), portfolio membership and validation (`portfolio`),
  configuration construction and validation (`config`), price models
  (`model`), seeds, antithetic pairing and bootstrap resampling indices
  (`sampling`), profit-and-loss counts and ordering (`pnl`). Real numbers are
  carried as order keys (`keys`), `i64` values ordered as the numbers are.
* `app/` — the floating-point and I/O side: conversion to and from order
  keys, JSON configuration files, path generation, statistics and charts.
* `tests/` — tests of the library.
