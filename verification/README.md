# NeoHook

A library for hooking functions of a running Windows process, written in
[Verus](https://github.com/verus-lang/verus) and proved correct.

NeoHook redirects calls in five ways: by patching the first instructions of a
function, by exchanging an entry of an import table, of an export table or of a
virtual table, and by giving one object a table of its own. Hooks are installed in
transactions: all of them, or none. Breakpoint and debug-register hooks, hooks in
the middle of a function, delayed hooks, signature scanning, module inspection and
a watchdog for patched bytes come with it.

## Layout

- `src/` decides: it takes memory, threads and modules as plain values, and returns
  what is to be written, in which order, and what the outcome means. Everything in
  it is verified. Where work has to be done in between, such as changing a page's
  protection or inspecting a thread, a function returns the next step and takes
  back how it went.
- `app/` acts: it reads the memory of the process, suspends threads and performs the
  writes through `windows-sys`, and offers the Rust and C interfaces.
- `tests/` runs the library on images, threads and memory made up for the purpose.

## What is trusted

Instructions are decoded and re-encoded by `iced-x86`. Its results enter the proofs
as named functions of their inputs (`src/disasm.rs`). Apart from that, four
functions of the standard library are taken at their documented word: encoding a
character as UTF-8 (`src/scan.rs`), decoding UTF-8 (`src/pe.rs`) and UTF-16
(`src/introspect.rs`), and lower-casing ASCII (`src/delay.rs`).
