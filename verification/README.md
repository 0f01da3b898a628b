# static_alloc

Verified bump allocators, and buffers that types of one layout use in turn.

A bump allocator hands out blocks of a fixed storage from its start to its end. It keeps a count of
the bytes that are taken, gives no single block back, and is reset as a whole. A `SameVec` keeps the
allocation of a vector, so that vectors of other element types with the same layout can use it.

- `src/` is the library. Its functions work on addresses, sizes and contents, and Verus proves
  their contracts. `src/arena.rs` holds the model of a bump allocator and the laws that hold of it.
- `tests/` runs the library on concrete values.
- `app/` holds real memory. It turns the addresses that the library decides on into pointers, and
  implements the `Allocator` trait of `allocator-api2`.

Four things are worth knowing:

- An allocator is used by one owner at a time, so that its methods take `&mut self`. A `BumpSlice`
  borrows memory, and its state lies in that memory: when it is no longer used, the memory is there
  again with all that was written to it.
- What an allocator hands out can be used until the allocator is borrowed anew. `reset` ends the use
  of a `BumpSlice`.
- Where a new allocator or buffer lies is decided by the memory that it gets. `BumpSlice::from_mem`
  takes the address of the memory that it is given.
- A temporary vector takes the allocation out of its buffer, and `finish` gives back the one that it
  has by then. If it is leaked the buffer is left with no room. In `app/` dropping a view finishes it.
