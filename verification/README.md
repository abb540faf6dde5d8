# rainflow

Conceptual rainfall-runoff models, verified with Verus: GR4J and HBV-light
(lumped and over elevation bands), Muskingum routing through river networks,
goodness-of-fit metrics and the decisions around calibration.

## Layout

- `src/number.rs`: the number types that the models compute with. Contracts are
  formulas over the operations of such a type, so they hold whatever its rounding.
- `src/gr4j.rs`, `src/hbv.rs`, `src/bands.rs`, `src/uh.rs`: the models.
- `src/routing.rs`: reaches, river networks, unit conversions.
- `src/metrics.rs`: NSE, KGE, log NSE, percent bias.
- `src/calibrate.rs`: bounds, settings, and what a candidate is worth. The search
  itself is done by an engine that the caller hands in.
- `src/forcing.rs`, `src/session.rs`: forcing tables, runs and calibrations over
  one.
- `src/exact.rs`, `src/laws/`: the same formulas over the real numbers, and what
  they promise there: water is conserved, stores keep within their capacities,
  ordinates and weights sum to one, a perfect simulation scores one.
- `app/`: the command line, CSV files, floating-point numbers, the optimization
  engine and Python bindings.

## What the proofs rest on

- A number type is brought by the caller. Its methods (`Scalar`) are taken to
  compute the operations that they name (`Arith`); no algebra is asked of them.
- The laws take `tanh`, powers and square roots from a supply of elementary
  functions (`Elementary`) and say in `lawful` which textbook facts they use.
- Forcing files are parsed by the csv crate (`forcing::header_row`,
  `forcing::record_rows`). What it reads from a text is named, not spelled out.
- Names of columns and settings are lowercased by the standard library
  (`text::lowercase`).
