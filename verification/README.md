# blendbar

The logic of the Blend Bar stand-intake service as a Verus library, with the
I/O around it kept apart.

- `src/` — the library. Every function carries a `requires`/`ensures` contract
  that Verus proves. Calls into outside crates (`chrono`, `hmac`/`sha2`,
  `base64`, `qrcode`, `str` case mapping) sit behind small trusted
  wrappers whose contracts are stated over named results.
- `tests/` — ordinary Rust tests against the compiled library.
- `app/` — the HTTP clients for Square and Squarespace, the mocks behind the
  same interfaces, environment configuration, and conversions between
  `serde_json` / `rust_decimal` / `chrono` values and the library's types.

Amounts cross the library as `Amount` (sign, mantissa, scale — the parts of a
`rust_decimal::Decimal`) and as `i64` cents; ids as `u128`; instants as
microseconds since the Unix epoch.
