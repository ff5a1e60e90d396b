# smart_big_rational

A big rational number type, `SmartBigRational<D>`, optimized for addition,
subtraction and multiplication: denominators are kept decomposed over small
primes (`DenomArray`, a fixed array of exponents; `DenomSparseU16`, a sparse
list of `(prime, exponent)` pairs), so that sums only multiply by what their
denominators lack, and products are never reduced.

Conversions give a denominator in canonical form: each basis prime is
divided out of the remainder as long as its exponent doesn't saturate.
Division and reduction keep that form, and the common multiple of two
denominators takes the larger exponent of each prime and the least common
multiple of the remainders.

Layout:

- `src/` — the library, verified with Verus. `ratio.rs` holds the model
  (fractions as pairs of integers) and the laws of their arithmetic;
  `bignum.rs` the big naturals and integers, computed by `num-bigint`;
  `primes.rs`, `prime_gaps.rs`, `prime_dividers.rs` and `util.rs` the table
  of primes below 2^16, the multipliers that divide by them (each checked
  against its definition before use) and the division by constants;
  `denom*.rs` the denominators; `order.rs` the comparison of values.
- `tests/` — tests run against the compiled library.
- `app/` — conversions to and from the types of `num-bigint` and
  `num-rational`, and formatting.
