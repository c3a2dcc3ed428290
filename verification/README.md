# chipsmith

A declarative FPGA build system for Intel Quartus: a `chipsmith.toml`
Manifest describes a Project completely, and chipsmith acquires the
Toolchain, writes the Quartus project files, runs the build and the
Project's Testbenches, and reports whether the design meets timing.

## Layout

- `src/` is the library, verified with Verus. Everything that decides or
  computes lives here, each public function with a contract:
  - `manifest` — the rules a Manifest obeys (`[toolchain]` names exactly one
    Backend, every clock and I/O standard override names a pinned signal,
    frequencies are written with a Hz/kHz/MHz/GHz unit), and source patterns.
  - `qsf`, `plan` — the Settings and Project Files, and the Build Plan: every
    file, every Build Step, every artifact path, decided without I/O.
  - `product`, `toolchain`, `install`, `download`, `runner` — the Products
    and their Versions, install locations, CDN URLs, the exact command line of
    every tool and installer invocation, and the steps of installing: whether
    an installer is sandboxed or patched on NixOS, which directories are
    patched afterwards, and what happens to each Device Support package.
  - `nixos` — the Nix Compat layer: the `nix eval` that resolves store paths,
    the library path, the bubblewrap sandbox and script patching.
  - `sim`, `ghdl` — Testbench runs: what GHDL is asked to do, and a step-by-step
    execution whose outcomes become Test Verdicts.
  - `scaffold`, `timing`, `process`, `error`, `strmap`, `text`, `path` — new
    Projects, the Timing Summary's corners, process specifications, error
    messages, and the string and map helpers the rest is specified with.
- `app/` is the `chipsmith` command: argument parsing, reading the TOML file,
  spawning processes, the network, the filesystem, and the floating-point
  clock periods and Slack. Where an operation alternates outside work and
  decisions (installing, Device Support, running Testbenches), `app/` carries
  out the steps the library hands it and feeds back what happened.
- `tests/` exercises the library on concrete values.

Each `law_*` proof function in `src/` states a property that spans several
calls, such as what a Testbench run's Verdicts are, given the outcome of
every step it spawned.
