# wasabi

The verified core of the Wasabi OS tooling: the build and test runner, the
Wasabi file system's block bookkeeping, and the shared kernel utilities,
written in Verus so that their behaviour is stated in contracts and proved.

## Layout

- `src/` — the library, verified by Verus.
  - `math`, `types`, `text`, `iter` — numbers with wrapping groups, core ids,
    tsc timestamps and durations, decimal text, traversals with positions.
  - `staticvec` — a vector and a UTF-8 string of fixed capacity.
  - `sync` — the decisions of a processor barrier and its timeout.
  - `testing` — the vocabulary of kernel tests and the parsers of the test
    attributes' arguments.
  - `wfs` — the file system: block addresses and groups, the free-list
    allocator and how it is stored and loaded, strings and file writes laid
    out on blocks, mounting and closing, detection of existing file systems.
  - `runner` — the runner's options, the cargo and qemu command lines, the
    test protocol with the kernel and the state machines of a test run.
- `tests/` — tests of the library on concrete values.
- `app/` — the command line runner: argument parsing, running cargo and
  qemu, talking to the test kernel over tcp. It hands the library plain
  values and acts on what the library decides.
