# nibble

`nibble` is the command-line tool and package manager for the Mysz language.
This crate holds its logic as a library verified with Verus, and the command
line around it.

- `src/` — the verified library:
  - `text` — character-sequence operations (prefixes, trimming, splitting,
    replacing, decimal numbers), each proved against a short definition;
  - `manifest`, `manifest_parse` — `manifest.nibble`: the plain model of its
    KDL document and the rules that turn it into a manifest;
  - `kdl_doc` — the calls into the `kdl` crate;
  - `packages` — loading the manifest, recording a dependency, listing;
  - `recording` — what recording a dependency does to the manifest, proved
    over the document model;
  - `fetch` — archive URLs of dependencies and the checks on a fetched package;
  - `linker` — runtime versions and archives, linker command lines;
  - `paths`, `project`, `defaultfilename`, `out` — where things go and what a
    build is made of.
- `app/` — the `nibble` executable: argument parsing, files, network,
  running the compiler and the linker.
- `tests/` — tests of the library on concrete inputs.
