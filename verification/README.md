# boulder

The verified core of a package build tool: it reads stone recipes and macro files,
evaluates build scripts, plans where builds and upstream sources live, matches file
patterns, compiles system triggers, and writes EROFS meta-only images of file trees.

Every function under `src/` is checked by Verus against its `requires`/`ensures`
contract; calls into outside crates (`serde_yaml`, `url`, `crc`, `sha2`) go through a
handful of small trusted wrappers whose contracts name their results: a recipe read
from YAML text is stated over the value that `serde_yaml` parses the text into.

Layout:

- `src/stone_recipe/` — YAML documents, recipes, upstream entries and macro files.
- `src/stone_script/` — the `%(macro)` / `%action` script language and its evaluation.
- `src/builder/` — build phases and the script each runs, script bundles, the prepare
  script, the builtins of a build, its tuning requests and compiler flags, and the
  git refs to pin to commits.
- `src/erofs/` — inodes of a tree, their placement in an image, and the image bytes,
  with the laws that every image fills the blocks its superblock counts and that each
  inode stands where its number points.
- `src/fnmatch/`, `src/triggers/` — path patterns with captures, and trigger handlers.
- `src/package.rs` — which files go into packages, and what they provide.
- `src/cli.rs` — argument aliases, the repository flags, and the repository listing.
- `src/paths.rs`, `src/upstream/`, `src/util.rs`, `src/vfs/` — build directories,
  upstream storage paths, URL names, plain-string paths.
- `tests/` — tests of the library as a user sees it.
- `app/` — the command line and file-system side: reading files, creating directories,
  walking an install tree for the package analysis, moving built packages into a
  repository and re-indexing it, and progress events.
