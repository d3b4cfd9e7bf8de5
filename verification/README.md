# mud_domain

The domain of a text adventure server (a MUD), as a verified library.

- `src/` holds the library, checked by Verus: the container of game objects and its
  repositories (labels, locations, items, mobs, rooms, players, hires, behaviours, ...), the
  actions on them (look, move, go out, map, pick up, drop, equip, hire, buy), the connection
  controller and its views (login, game, admin), loading and writing down objects from their
  configuration data, and the checks on that data.
- `tests/` exercises the library.
- `app/` is the program around it: reading and writing configuration files and snapshots
  (HOCON, JSON), the `read_config` tool that lists a configuration, the decimal numbers
  (weights, distances, times) and the admin commands that print data.
