# lau-shell-kernel

The bare shell kernel: a shell has an identity, a universe (its directory
layout), a store of tiles with a multi-way index, communication ports, API
allowances, a conservation budget charged for every tile, and child shells.

Layout:

- `src/` — the verified library. `strmap` is the string-keyed map used for
  ports, allowances, tiles, tile metadata and index lists; `tile`, `filter`,
  `index` and `store` hold tiles and answer queries over them; `lexical`
  compares paths component by component; `kernel` ties a shell together;
  `laws` states the properties that span several operations.
- `app/` — the disk and JSON side: creating and inspecting universes,
  persisting tiles, bootstrapping and spawning shells, serialisable records of
  the library's types.
- `tests/` — tests of the library.

Fractional quantities (budgets, costs, deadband bounds, tolerances) are whole
numbers of milli-units: `1000` is one unit, and a tile costs `10`.
