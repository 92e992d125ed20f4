# pypackage

The decision logic of a small Python package manager, verified with Verus, and a thin command
line program around it.

- `src/` is the library. It reads and writes `pyproject.toml`, finds out which Python to use and
  where its environment lies, tells which packages are installed, picks the release of a package
  that suits the system, and drives the synchronisation of installed packages with what a
  project requires. Each function states what it returns; the laws that relate them stand beside
  them as proof functions.
- `tests/` runs the library on concrete values.
- `app/` is the program: arguments, files, processes. How versions and requirements are written
  is up to the program; it hands the library functions that read and write them.

Some of what the program needs of the world around it, `app/host.rs` does not offer in this
build. It reaches no package index, so it cannot resolve requirements or look up the releases of
a package, and a project that requires anything cannot be synchronised. It does not read a
release's `requires_python` or Python tag, nor compare a version with a written constraint. It
does not edit the requirements in `pyproject.toml`, read the files of other package managers, or
build and publish a package. Where a command comes to one of these, the program reports
a problem and leaves.

The regular expressions are matched by the `regex` crate. What is taken for granted of them is
stated in `src/pattern.rs`, and of lower case in `src/text.rs`.
