# honoko

A command palette: shell commands kept in a JSON file, grouped by name, picked
interactively and run.

- `src/` is the verified library (Verus):
  - `model.rs`: stored commands, commands tagged with their group, and their models;
  - `config.rs`: the configuration (ungrouped commands and groups sorted by
    name), listing, adding and removing commands, the starter configuration;
  - `present.rs`: selection labels, command previews, what to start to run a command;
  - `cli.rs`: command-line dispatch, the configuration path, execution settings
    from flags or answers;
  - `flow.rs`: the command picker and the removal as state machines;
  - `permissions.rs`: the owner-only permission check;
  - `text.rs`: character-level text helpers (trimming, name order);
  - `shell.rs`: the calls into `shell-words`;
  - `laws.rs`: properties relating the operations.
- `app/` is the program: argument parsing, prompts, JSON files, running commands.
- `tests/` exercises the library.
