# resonix

An audio-graph library whose structural core is verified with Verus.

`src/` is the verified library:

- `units`: `NumChannels` and `SampleRate`, with their arithmetic and conversions.
- `lazy_cached`: a value computed on first use and kept until invalidated.
- `grain`, `granular`: grains and the granular synthesizer's scheduling of them
  (which grain starts when, which part of the buffer each channel plays).
- `node`, `nodes`, `connection`: what the graph knows of nodes and connections.
- `graph`, `paths`: the `petgraph` graph behind the processor, and reachability.
- `processor`: adding nodes, refusing connections that would close a cycle or
  do not fit, and the order in which nodes are visited.
- `messages`, `requests`: requests to the processor and how they are answered.
- `context`: a simpler context that names its nodes by uuid.
- `dac_config`: the audio device configuration used in tests.

`app/` is the runtime around it: nodes that process `f32` samples, the
processor that runs them, granular synthesis over a sample buffer, and the
audio context with its audio thread.
