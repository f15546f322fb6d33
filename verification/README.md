# nlbn

A converter that turns LCSC/EasyEDA components into KiCad library assets
(symbols, footprints, 3D models), written so that its library logic is
proved with Verus.

`src/` is the verified library:

- `cli`, `export_options`, `fill_color`: the command line as plain values,
  its validation, and the conversion request it asks for.
- `checkpoint`: the `.checkpoint` record of completed components, read
  from and written to text; a batch resumes from it.
- `library`, `paths`, `symbol_library`: where assets go, when an existing
  file or symbol is kept, and how the text of a symbol library is extended
  or edited.
- `runner`, `model_converter`: which components still need work, how
  results are tallied, and what is reported.
- `pattern`: the calls into the `regex` crate, with their contracts.
- `text`, `error`: character-sequence helpers and the error type.

`app/` is the program around it: argument parsing, logging, files, the
asynchronous batch run, and the console reporter. The component catalogue
client and the KiCad exporters plug in through its `ComponentBackend` trait.
