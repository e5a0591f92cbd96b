# bedrock

Reading Minecraft saves and the game's texture data, with every rule that
decides what is read proved against its contract by Verus.

- `src/` is the verified library: little-endian NBT, Java chunk palettes and
  their bit-packed indices, region files, `.mcstructure` files, Bedrock
  subchunks and the chunks assembled from them, block-name and texture-name
  rules, vanilla blockstate/model texture resolution, texture atlases (tile
  placement, biome tints, image decoding behind named wrappers), Mineways
  swatch lookup and face tiles, texture animations and their `.mcmeta` JSON,
  the client JAR's entries (through `zip`), launcher profiles, Java NBT
  (through `fastnbt`),
  version ordering, settings values, dates for the world browser and the
  output log buffer. Public `law_*` proof functions state properties that
  span several calls.
- `tests/` runs the library on concrete inputs.
- `app/` is the unverified shell: file and network access, TOML settings,
  serde reads of level.dat and block models into records, and the parts that compute in floating
  point (UV rectangles, procedural tiles, display colours, byte sizes).
