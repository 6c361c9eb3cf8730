# nous

`nous` keeps a project description (a `.nous` JSON file at the root of a
repository) that lists the resources a project is made of: local files,
repositories, other project files, and where each is fetched to.

Layout:

- `src/` — the verified library. `path` holds Unix path arithmetic (joining,
  file names, stems, parents) proved against component-level specifications;
  `address` classifies a resource string as a URL or a local path; `digest`
  checksums file contents; `resource` and `project` model the project file;
  `repo` and `add` decide what `nous init` and `nous add` do, given what the
  file system says, and prove how these decisions fit together.
- `app/` — the `nous` command: argument parsing, file-system probing, JSON
  reading and writing, symlinks, clones and downloads.
- `tests/` — tests of the library, including comparisons with `std::path`.
