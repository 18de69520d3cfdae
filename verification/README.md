# artsum

A checksum manifest tool: `artsum generate` writes the checksums of the files
of a directory to a manifest, `artsum verify` (or plain `artsum`) checks the
files against it, and `artsum refresh` recomputes the checksums of a manifest.

Manifests come in the artsum format (`<algorithm>;<digest> <path>`, or
`text;<algorithm>;<digest>  <path>` for text-mode checksums) and in the
md5sum, sha1sum, sha256sum, sha512sum and b2sum formats. With no format and no
output given, `generate` writes an artsum manifest to `sfv.toml` in the
directory, with SHA-256 checksums unless another algorithm is asked for.
`verify` reports invalid and missing files and still ends successfully; `refresh`
reads each artifact inside the directory it is given.

## Layout

- `src/` is the library, written in Verus and verified:
  - `text.rs`: lines and words of text, as `str::lines` and
    `str::split_whitespace` give them;
  - `checksum.rs`: algorithms, modes, the checksum notation and the checksum
    of a file's contents;
  - `digest.rs`: the hashing crates and the hexadecimal notation, behind
    trusted wrappers;
  - `manifest.rs`: the formats, the artifact map, reading and writing
    manifests, and finding the manifest a path stands for;
  - `path.rs`: file names, joining paths, regular expressions;
  - `common.rs`, `generate.rs`, `verify.rs`, `refresh.rs`, `cli.rs`: the
    decisions, counters and display lines of the commands.
- `app/` is the program around it: argument parsing, file access, workers,
  logging and the terminal display.
- `tests/` runs the library on concrete values.
