# spafe

Audio feature extraction (filter banks, spectrograms, cepstral features,
spectral descriptors, pitch tracking, cochleagrams and SVG plots), split in two:

- `src/` is the library checked by Verus: the integer, index and text logic of
  the feature extractors. It parses option names, frames signals, lays out ERB
  filter banks and their two-sided mirror images, checks cochleagram requests,
  computes convolution padding and downsampling geometry, builds Toeplitz
  systems and delta taps, picks DCT variants, searches YIN difference functions
  for the pitch period, and escapes and colors SVG text. Each public function
  states its result in `ensures`, and the laws that tie functions together are
  public proof functions beside them.
- `app/` holds the floating-point signal processing around it (ndarray
  matrices, rustfft transforms, complex arithmetic), the error type with its
  `Display`, and the Python bindings. It calls the library for every decision
  listed above.

`tests/` exercises the library on concrete values.

Verify with `verus` on `src/lib.rs`.
