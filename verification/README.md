# wgvb

Deterministic, effectively unbounded procedural hex-world generator:

```text
Tile = F(seed, coordinate, algorithm version, configuration)
```

with no dependency on generation order, cache contents, or stored state.

## Layout

- `src/` — the verified library (Verus): domain-separated hashing, canonical
  wrapped coordinates on a hexagon of radius 32767 (normalization, neighbors,
  rotation, cell addressing), region enumeration, the classification
  vocabulary (elevation, heat, moisture, terrain) with its rules, and the
  integer configuration checks. `src/topology.rs` holds the laws of the
  wrapped world as proof functions.
- `tests/` — tests of the library, run against the compiled crate.
- `app/` — the floating-point half: noise, the field graph, region blending,
  the elevation and climate composites, the configuration with its serde form,
  and the `Generator` that assembles tiles. It calls the library for every
  hash, coordinate, and classification rule.
