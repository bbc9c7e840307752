# ferris_unzip

An archive extractor (ZIP, 7Z, TAR, TAR.GZ, TAR.BZ2, TAR.XZ, GZ, BZ2, XZ,
RAR) whose decisions are written in Verus and proved against their contracts.

## Layout

- `src/` — the verified library.
  - `lib.rs`: archive types, the extraction configuration, request checks
    (`extract_archive`, `extract_archive_with_config`).
  - `config.rs`: configuration builders, validation, thread clamping.
  - `utils.rs`: format detection from file names, buffer sizing, memory
    mapping.
  - `paths.rs`, `text.rs`: the suggested extraction folder, path
    components, parents and joins (exactly, for paths without `\` or `:`),
    file names, extensions, stems, and character-level string helpers.
  - `security.rs`: archive, password, entry-name and size checks, path
    sanitising, and the step function of the bounded decompression loop.
  - `zip_plan.rs`: ordering and chunking ZIP entries for parallel
    extraction, and the bookkeeping of one extraction run.
  - `interface.rs`, `shell.rs`: launch-mode and status decisions of the
    program, and the contents of the shell integration entries.
  - `safe_ops.rs`: size arithmetic that reports overflow.
- `tests/` — tests of the library on concrete values.
- `app/` — the program around the library: reading archives through the
  compression crates, writing files, the command line, the window, and the
  shell integration installers.

Verification: every function under `src/` carries a `requires`/`ensures`
contract; the library-wide properties are stated as public `proof fn`s
(`lemma_*`). The few calls into `std` (`Path::components`, `Path::file_name`) and
`num_cpus` that Verus cannot read stand behind small `#[verifier::external_body]` functions whose doc comments
say what is assumed of them.
