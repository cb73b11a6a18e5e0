# bn254_prepared_syscall

A verified BN254 (`alt_bn128`) pairing over prepared G2 points.

- `src/encoding.rs` — the plain-limb encodings (`PodG1`, `PodG2`, `PodPreparedG2`, `PodGt`).
- `src/curve.rs` — the arkworks field and curve operations the library relies on, each behind a
  trusted wrapper whose contract names or states its result.
- `src/pairing.rs` — the model of the Miller loop (`pairing_prepared_spec`), the verified
  `prepare_g2` and `alt_bn128_pairing_prepared`, and the identity-pair law.
- `app/lib.rs` — `bytemuck::Pod` copies of the encodings, the `thiserror` error type, and entry
  points that take arkworks points.
