# pien

The rules of an open-world pirate sandbox, as a library whose behaviour is
stated in contracts and proved with Verus, plus the Bevy program around it.

- `src/` — the library: biomes and their tables (`world`), chunk streaming
  (`chunks`), creature archetypes, rivalries, spawn picks and brain decisions
  (`creatures`), environmental damage and affinities (`combat`), buried caches
  and loot (`treasure`), the player's hold (`player`), terrain mesh indices
  (`render`) and random draws (`dice`).
- `app/` — the game: plugins, systems, physics, weather, noise sampling and
  rendering, which work in floating point and call the library for the rules.
- `tests/` — tests of the library on concrete values.

Decimal tuning values are held as exact integers (hundredths for weights,
affinities, aggression and odds; tenths of a world unit for body extents), and a
random roll `r` stands for the fraction `r / 2^24`.
