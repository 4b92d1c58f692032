# unit_ranged

A fixed-point number in `[0, 1)` held in 32 bits: the raw value `n` stands for
`n / 2^32`.

- `src/` is the verified library (Verus): the type, its operators, ordering,
  checked / wrapping / saturating arithmetic, integer and byte conversions, and
  the conversions from and to the bit patterns of `f32` and `f64`, each with a
  contract over the raw numerator, plus the laws that hold across them
  (`src/laws.rs`, and the `law_*` proof functions in the other modules).
- `app/` is the float-facing interface: constants, conversions that take and
  give `f32` / `f64`, the FPU-based conversions, `Display` / `Debug`, and the
  `num_traits` and `serde` impls, all delegating to the library.
- `tests/` runs the library on concrete values.
