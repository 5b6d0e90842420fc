# pollip

A mod manager for Hollow Knight: Silksong, with its logic verified by Verus.

- `src/` is the library. It parses BepInEx configuration files and Steam's
  `localconfig.vdf` and `libraryfolders.vdf`, plans BepInEx installs from
  the pack's ZIP listing, lists and orders installed mods, plans profile
  switches and keeps their journal, reads Thunderstore and Nexus Mods
  catalogues and `nxm://` links, and holds the state machines behind the
  panels. Every function states its behaviour in `requires`/`ensures` and
  is proved; the few calls into `zip` and std that Verus cannot read stand
  behind small trusted wrappers whose contracts are documented where they
  are declared. Public proof functions (`lemma_*`) state the library's laws,
  such as configuration text reading back after it is written, slugs being
  their own slugs, and launch options reading back after they are written.
- `tests/` runs the library on concrete values.
- `app/` is the command-line program around the library: it reads and
  writes files, talks to the network, runs processes, and hands plain
  values to the library, which decides what they mean. Run it without
  arguments to see its commands.
