# mlx_rs

The front end of MLX's fused operations (attention, normalizations, rotary embeddings and the
SmolLM and PaddleOCR-VL kernels), written and proved in Verus.

- `src/` is the verified library. It decides what is handed to MLX's C interface and how the
  answer is read, which form the results are documented to have, and what the native build is
  told. Nothing in it touches the machine.
- `app/` carries the calls out: the foreign functions, the commands and files of the build.
- `tests/` runs the library on concrete values.

Floating-point numbers pass through the library as bit patterns, and what MLX's kernels compute
is not part of it. `rope_2d` models which elements of the inputs meet in which element of the
result; its statements hold for any arithmetic on them.

What is taken on trust, each with its contract: `str::from_utf8`, `str::trim`,
`String::from_utf8_lossy` and `String::push` of the standard library.
