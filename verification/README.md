# rivets

An issue tracker's domain and command logic, written in Verus and proved
against its contracts.

## Layout

- `src/` — the verified library:
  - `text` — character-level helpers (trimming, UTF-8 lengths, decimal
    digits, string order) with their specifications;
  - `domain`, `label`, `relationship`, `resource`, `issue`, `update` — the
    issue model: identifiers, statuses and kinds, labels, relationship values,
    associated resources with their stable identifier sequence, notes and
    field updates;
  - `query`, `id_generation`, `sorting` — query values, hash and hierarchical
    issue identifiers, and the stable ordering used by listings;
  - `error`, `init`, `config`, `validators`, `reporting` — configuration and
    workspace layout, input validation, errors and their messages, workspace
    statistics;
  - `output`, `tree`, `render` — the terminal rendering of issues, lists,
    dependency trees and reports;
  - `cli`, `commands` — the command-line vocabulary and the decisions the
    commands make around storage;
  - `outside` — declarations of outside error types the library carries.
- `tests/` — tests of the library on concrete values.
- `app/` — the `rivets` program: argument parsing, prompts, the file system
  and the terminal around the library.
