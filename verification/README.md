# AstroParrot

A galaxy simulation built on the `common-game` crate: a defensive planet, a
few autonomous explorers, and an orchestrator that drives them, with the
decisions of each proved correct by Verus.

## Layout

```
src/                 the verified library
  resource.rs          resource kinds, tallies and sets
  planet/              the planet AI (sunrays, asteroids, explorer requests)
                       and the calls into common-game's planet state
  explorer/            the explorers' decision logic
    ai_explorer/         goal-driven explorer: knowledge, routes, goals
    marco_explorer/      bag and recipe book
    mock_explorer.rs     the Miner
    smart_explorer.rs    the planner that values deeper recipes higher
    thomas_explorer/     the Diamond collector
    timed_ai_explorer.rs the explorer that mines and crafts at a fixed pace
    travel.rs            choosing where to go next
  game/orchestrator/   galaxy topology, rosters, events and bookkeeping
tests/               tests of the library, some through a real common-game planet
app/                 the program: window (macroquad), actor threads and
                     channels (crossbeam-channel), conversions to common-game
```

The library decides; `app/` sends the messages, waits for the answers and
hands them back to the library.
