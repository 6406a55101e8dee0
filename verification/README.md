# Skills manager: where the library lives

The skills manager keeps its library of skills in one directory. The user may ask for
another place; the request is stored, and the next launch moves the data there. This
project holds the rules behind that, proved with Verus, and a thin layer that carries
them out.

- `src/` decides. Paths are lists of components; what was seen on disk comes in as plain
  values; what is to be done comes out as a value.
  - `paths`, `text`: reading, writing, comparing and normalizing paths.
  - `os_text`, `places`: names that need not be Unicode, and paths that keep their spelling.
  - `central_repo`: the requested path, the live location, and changing the former.
  - `target`: what a candidate destination holds, and what counts as debris.
  - `migration`, `startup`: a pending move and the whole of startup, as state machines.
  - `relocation_repair`: re-pointing links into a library that moved, as a state machine.
  - `external`: a home for the state of skills that are kept elsewhere.
  - `file_manager`: the command that shows a path.
  - `state`, `environment`: what a session remembers, and what the system says of the user.
  - the modules that end in `laws`: what holds of these functions together.
- `app/` observes and acts: files, links, the database, processes.
- `tests/` runs the rules on concrete values.
