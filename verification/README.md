# euphony

Building blocks of a music composition environment, written in Verus: the
library in `src/` is verified, and its contracts state what its functions
return and change.

- `midi`: fixed-width and variable-length MIDI integers and their byte
  encodings, the chunk headers of standard MIDI files, and a table of the
  notes that are on.
- `osc`: OSC argument encodings, messages and bundles.
- `sc`: SuperCollider server commands as OSC messages, the synth definition
  file format (reading and writing, with a proof that a file reads back),
  the values and description of compiled synth definitions, multichannel
  expansion of unit generator inputs, the pass that removes unused unit
  generators, a synth definition drawn as a Graphviz graph, buffers,
  envelope curves and operator codes.
- `nrt`: score files for rendering without real time, and the arguments of
  the server for a render.
- `pattern`: patterns that hold a value or rest, and the random numbers of a
  pattern expansion.
- `player`: the playhead of a timeline and the mute and solo switches of a
  project's tracks, kept by name across a reload.
- `runtime`: random numbers and choices drawn from a seeded scope.
- `node`: the kinds of samples a sink receives, and the generated source
  file that dispatches on a processor's id.

`app/` holds what Verus does not check: floating-point conversions, files
and processes, thread-local state, futures, and the float labels of a graph.
`tests/` exercises the library on concrete values.
