# engine_gpu

The host side of a GPU proof-of-work miner, verified with Verus.

- `src/` is the library. It selects and ranks adapters (`adapter`, `selection`), decides how many
  workgroups suit a device (`tiers`, `tuning`), lays out batches and reads their results (`batch`,
  `device_memory`), and steers the search of a nonce range (`search`, `engine`). Numbers of 512 bits
  come from `primitive_types`, byte views of words from `bytemuck`; the functions that call them
  (`uint512`, `device_memory`) are trusted to do what their contracts say, as is the lower-casing of
  names by the standard library (`text`).
- `app/` drives real devices through `wgpu`. It needs the mining kernel as WGSL source, and the
  crates `engine_cpu` and `pow_core` of the mining service.
- `tests/` runs the library on concrete values.

Public proof functions named `law_..` state what holds across functions.
