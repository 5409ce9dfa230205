# pricing

A verified core of a Monte Carlo pricing engine for equity derivatives with cash
dividends: prices, pathwise risk and plan identities under constant, local,
Bergomi, rough and leverage-calibrated volatility, with deterministic or
Hull--White rates.

- `src/` is the library. It is generic over the number type: `Scalar` gives the
  operations, `Math` the elementary functions, and every contract is an exact
  expression over them. What a plan obtains from its surroundings (markets,
  random numbers, payoffs, calibrations) stands behind traits, each of which has
  an implementation made of functions that are supplied one by one. Laws that
  rounding breaks are stated for numbers that are added and multiplied exactly;
  `affine_laws.rs` shows that way that the adjoints of dividends that are paid out
  of the spot are the transpose of how the spots move.
- `tests/` runs the library in double precision.
- `app/` binds the library to `f64`. That the operators of `f64` and the functions
  supplied there meet the laws of `Scalar` and `Math`, such as that a zero is lost
  in a sum, is not proved: it is taken on trust, as is the digest of `blake3` that
  identifies plans.
