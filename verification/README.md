# terrain_tiles

A verified library for tile-map terrain: a list of named tiles with lookup by
name, a grid of tiles, the sprite-sheet position of each tile, and the
rendering of a grid as an RGB raster of sprites.

- `src/tile.rs`: `Tile`, `Tilelist` and lookup by name.
- `src/tilemap.rs`: `Tilemap`, a grid of tiles.
- `src/catalog.rs`: the standard list of tiles.
- `src/sprite.rs`: where a tile's sprite lies in the sheet.
- `src/raster.rs`: RGB rasters and the two `image` operations used on them.
- `src/render.rs`: rendering a tile map from a sprite sheet.
- `src/terrain.rs`: the integer rules of the island generator.
- `app/main.rs`: the generator itself: random heightmaps (floating point),
  file input and output, and the calls into the library.
