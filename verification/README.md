# goldy

The bookkeeping of a GPU runtime with two back ends, Direct3D 12 and CUDA, proved
with Verus.

The library decides and plans; it calls no driver. Drivers' objects appear in it as
integers, and what has to be done appears as values: lists of calls, steps of a
submission, descriptors to write. The contracts say which calls come out for which
commands and tables, how the tables change, and when a request is refused.

* `src/dx12` holds buffers and their views, the ring of frame-table rows, submission
  contexts, retained command lists, the recording of command streams and graphs,
  barriers, acceleration structures, and the tables of devices and surfaces.
* `src/cuda` holds streams of operations and their partition into graphs, the timeline
  of a device, retained graphs, textures, surfaces and presents, and render passes on
  a companion device.
* `src/text.rs` has the text functions that settings and traces need.
* `tests` runs the library on concrete values.
* `app` carries out what the library plans: the process environment, files, windows,
  Direct3D 12 and the CUDA driver. Its Direct3D part is built on Windows only.

State machines (`cuda::submit::SubmitRun`, `cuda::raster_run::PassRun`,
`dx12::frame_table_init::TableInit`) alternate with their caller: an action says what to
do, and what became of it is handed back.
