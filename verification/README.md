# vortex-rust-launcher

The logic of the Vortex Minecraft launcher as a library verified with Verus,
and a command-line program around it.

`src/` holds the verified library:

- `config.rs`: the `vortex_launcher.conf` settings format and the quoting of
  argument lists; `config_roundtrip.rs` proves that written settings read back
  unchanged.
- `minecraft.rs`, `command.rs`: version metadata (rules, inheritance, libraries,
  Java requirements) and the Java command line that starts the game.
- `download.rs`, `plan.rs`, `sha1.rs`: download jobs from metadata, duplicate
  removal, retries, integrity checks and SHA-1.
- `natives.rs`: which natives archives are unpacked and where their entries go.
- `launch.rs`, `ui.rs`, `cli.rs`, `platform.rs`: launch options, the state behind
  the launcher's windows, the command line, and per-platform paths and sizes.
- `text.rs`: character-sequence helpers.

`app/` is the program: file, network and process work, JSON reading with serde,
zip extraction, and the command-line entry point. `tests/` exercises the library.
