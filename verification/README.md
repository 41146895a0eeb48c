# PDF reader core

The decision logic of a desktop PDF reader, written in Verus and proved
against its contracts.

- `src/` is the verified library. Rendering, windows, timers, workers and the
  extension runtime belong to the host; the library's handlers take plain
  values (what the host observed) and return plain values (what the host does
  next). The rules it holds about text editing, search, the table of contents,
  comments, tiling, QA instrumentation and, of the capability bridge, its
  document generations, page handles, snapshot revisions and pending
  navigation are checked by Verus.
- `tests/` exercises the library on concrete values.
- `app/` holds the host-side adapters that read the environment, probe the
  platform and count allocations for the library's QA decisions.
