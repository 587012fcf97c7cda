# shashin

A keyboard-driven image viewer with a gallery, an EXIF overlay and a slideshow.

- `src/` is the verified library: gallery state (scanning, sorting, filtering,
  grid navigation, marks), key bindings and the handling of actions, image
  navigation and rotation, image and thumbnail decoding, EXIF reading, file sizes,
  timestamps and EXIF values as shown, the status bar and info overlay texts, colour
  parsing, and the file listing of the tool server. Every function carries a
  contract. Verus proves each one, except for the few small wrappers marked
  `external_body` that call std, `image` and `exif`: their contracts are believed,
  and their doc comments say what they claim. The laws of the library are public
  proof functions next to the code they speak of.
- `app/` is the program around it: the command line, configuration files,
  reading directories and files, GPS degrees (floating point), the GPU renderer,
  scripting and the tool server. It reads and draws; the decisions come from the
  library.
- `tests/` runs the library on concrete values.

## Image formats

Images decode as JPEG, PNG, GIF, WebP, TIFF, BMP and ICO. AVIF files are listed by
the gallery but do not decode: the `image` crate decodes AVIF only through its
`avif-native` feature, which links the system `dav1d` library, a dependency that this
project does not take.
