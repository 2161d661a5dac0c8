# solar_sim

The verified core of a solar-system n-body simulation, written in Verus.

`src/` holds the logic that decides things with integers, flags and text,
each function with a contract that Verus proves:

- `scenario` plans which bodies of a scenario file are spawned, with their
  kind by depth, and the body count shown while loading;
- `save` collects the star / planet / moon hierarchy to write back to a file,
  with a proof that saving a freshly spawned scenario writes every star, planet
  and moon back; bodies orbiting a moon are spawned but not saved;
- `loading`, `asset` track loading progress and SPICE kernel files;
- `integration`, `input`, `selection`, `ui`, `menu`, `state`, `reset`,
  `editor` hold the simulation's state machines and settings;
- `body`, `text` hold model paths and the string helpers they need.

`app/` is a headless runner: it reads a scenario file, spawns the bodies into
an ECS world, does the floating-point physics and prints the saved scenario.
