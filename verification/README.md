# pax

A verified library for package-tooling detection and command planning across
JavaScript, Python, Rust and container projects, with a thin command-line
program around it.

- `src/` is the library, written in Verus. Detection (`detect`, `components`,
  `cargo`, `manifests`, `manager`), command resolution (`operations`, `plan`,
  `dispatch`), reports (`output`, `observe`) and command-line parsing (`cli`)
  are executable functions whose contracts state their results exactly over
  spec functions; `text`, `order`, `maps`, `seqs`, `paths` and `json` hold the
  text, ordering and JSON models they are stated with.
- `app/` reads the project from disk, runs `cargo metadata` and the native
  commands, and serializes reports to JSON.
- `tests/` exercises the library on concrete projects.
