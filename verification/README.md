# john_wick_parse

A verified library for reading Unreal Engine game archives and assets, and a
command line tool around it.

- `src/` is the library, verified with Verus: the byte reader, `.pak` footers,
  indexes and entries (with AES-256 and Zlib through trusted wrappers), the IO
  Store table of contents and container stream, package headers and the
  exports of a package (objects with their unversioned properties, textures,
  data tables), property mappings and usmap files, localization resources,
  build manifests, texture decoding to PNG (the DXT decoder and PNG encoder
  of `image` through trusted wrappers), material textures, and a Rijndael
  decryptor. Floating point
  values are kept as their bits.
- `tests/` runs the library on hand-built inputs.
- `app/` is the program: file access, the Oodle shared library, JSON mapping
  files, writing exports out as JSON, the BC5 pixels (floating point), and the
  commands
  `serialize`, `filelist`, `idlist`, `extract`, `texture`, `locale`, `debug`,
  `dispatch` and `read_header`.
