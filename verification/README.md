# pix

Pixel formats and rasters for image conversion and compositing, verified
with Verus.

- `src/` is the verified library: 8- and 16-bit channels (`chan`), pixel
  formats and conversions between them (`el`, `model` and one module per
  color model), Porter-Duff compositing (`ops`), rasters, regions and their
  iterators (`raster`), and color palettes (`palette`).  Every public
  function states its result over spec functions of channel values, pixel
  channel sequences and raster pixel sequences; the laws of the library
  (bit depth round trips, write-then-read on rasters, byte buffer round
  trips, palette lookups, ...) are public proof functions.
- `app/` holds what works in floating point: the 32-bit channel, the sRGB
  curve for channels without a look-up table, and the color models whose
  RGBA conversion is computed in floating point (HSV, HSL, HWB, YCbCr,
  Oklab, XYZ and gray luminance).
- `tests/` runs the library on concrete values.
