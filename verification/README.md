# xabe_cuda

The host side of a CUDA inference library for speech and language models:
convolutions, matrix products over full-precision, half-precision and packed
weights, fused attention, key-value caches, normalisations and the pointwise
rest.

The library decides. For each operation it checks the request, sizes what has
to be allocated, picks the kernel, fills its argument list and chooses its grid.
A `Gpu` records those decisions as a queue of commands, and the contracts say
what the queue is: which kernel runs, over which grid, with which arguments in
which order, or exactly which error comes back instead.

- `src/` is the verified library. `queue.rs` is the queue, `launch.rs` the
  launch geometry, `names.rs` the kernels by name, `error.rs` the refusals.
  `gemm.rs`, `gemv.rs`, `decode.rs`, `cache.rs`, `pack.rs` and the others hold
  one family of operations each. Their public proof functions state what holds
  across operations: that grids cover their outputs, that re-packing a weight
  loses nothing, that a decode attention, a placed row, a growing cache or a
  weight read from a later row stays inside its buffers wherever it is accepted,
  its scratch with them. An append stays inside a cache of the shape it names;
  that the destination is one is for the caller to see to, as no length of it is
  asked for. That a cache gives back what was appended to it, keeps it when it
  grows and leaves the rest alone is proved of `appended` and `runs_copied`, and
  where a mat-vec's row lands of `row_stored` and `row_placed`: they describe the
  stores of the device kernels, which are not themselves verified.
- Functions that end in `_fits` test at run time what the operation of that name
  asks of its caller: that the sizes it computes are numbers of this machine.
- `tests/` runs the library on concrete shapes.
- `app/` owns the driver. It opens a device, moves data to and from it and plays
  the library's queue back on one stream. `app/source.rs` is the device code,
  compiled at run time. The benchmarks are there too.
