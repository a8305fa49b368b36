# mmtk_dummyvm

A dummy virtual-machine binding for the MMTk memory manager, with its logic
verified by Verus.

- `src/` is the verified library:
  - `object_model`: where an object's storage starts relative to its reference;
  - `slots`: the slot encodings (plain, compressed, offset, tagged), what a word
    read from a slot decodes to and what word a store writes, and the iteration
    over a memory slice;
  - `scanning`: the search for the object an interior pointer points into: word
    by word down from the pointer, never below the heap start nor past the
    interior limit, reading each word's valid-object bit (counted from the heap
    start); a step function, with the laws of the whole search;
  - `collection`: the run state of the mutator that a collection stops and resumes;
  - `active_plan`, `word`: small pieces the others use.
- `app/` implements MMTk's binding traits around the library: it reads and writes
  memory through raw pointers, keeps the global state behind a mutex, and spawns
  the collector threads.
- `tests/` runs the library on concrete values.
