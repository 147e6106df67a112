# raytracer

A Monte-Carlo path tracer (spheres, rectangles, boxes, volumes, instances,
importance sampling of lights, Perlin noise textures) that prints its image
in plain PPM.

- `src/` is the verified library: everything the renderer decides with
  integers, strings and permutations. It holds the Perlin lattice (random
  permutations of the byte values, shuffled by `rand`, and the hashing of
  cell corners), the
  per-pixel seeds and the PPM text of the sampler, the parsing of the
  renderer name, the bounce budget of a light path, the split decisions of
  the bounding volume hierarchy and the leaves they make, the loading of
  texture images (the decoding itself is the `image` crate's, called
  through one trusted wrapper) and the reading of their pixels, the choice
  of material of the small spheres of the first book's final scene, a hit
  counter, `clamp`, the axes, and the marker types that carry no geometry.
- `app/` is the program around it: command-line parsing, reading image
  files, the floating-point geometry, materials, textures, densities,
  camera, scenes and the parallel sampling loop.
- `tests/` exercises the library on concrete values.
