# goldsrc_assets

Readers for the asset formats of the GoldSrc engine (Half-Life), with their
behaviour stated as Verus contracts and proved:

- `bsp`, `bsp_records`, `entities`: version 30 map files, their lumps and
  records, the texture lump, and the entity text.
- `wad3`, `wad_entries`, `palette`, `image_buf`: WAD3 texture archives and
  the decoding of mipmapped textures, decals, plain images and fonts into
  RGBA images.
- `mdl`: MDL model files: textures, body parts, models, meshes with their
  triangle strips and fans, bones and run-length encoded animations.
- `gltf`: a glTF 2.0 text writer: the binary buffer with its views and
  accessors, materials, nodes, skins, animations and the whole document.
- `export`: the conversion of a map's visibility tree into an indexed
  triangle model, the textures it uses, and a report of its contents.
- `logic`, `rendering`: entity values and kinds, boxes and pyramids for
  debugging, and which brush models a map draws.
- `bytes`, `text`: little-endian decoding and text helpers.

Single-precision values are carried as their bit patterns (`F32Bits`); the
arithmetic on them lives in `app/`, the command-line program, which reads and
writes the files and exports maps as glTF documents.
