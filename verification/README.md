# pi_hal

Verified core of a text and vector-graphics rendering layer built on signed
distance fields.

- `src/` — the library, verified with Verus:
  - `font::text_split` — splitting text into newline, whitespace and word units,
    and reordering of text around Arabic words;
  - `font::text_pack` — shelf packing of glyphs in a texture atlas, with the proof
    that placed rectangles never overlap;
  - `font::font` — identifiers, render modes, glyph images and font family lists;
  - `font::glyph_table` — the glyphs placed in an atlas, by id;
  - `font::sdf_table`, `font::static_sdf_font`, `font::sdf2_table` — finding or
    making the glyph of a character (cache, fallback characters, atlas cells,
    waiting lists), grouping glyph requests by family, and drawing glyph bitmaps
    into blocks and square textures;
  - `texture` — texture formats and dimensions of (compressed) images;
  - `image_res` — decoding of images and their memory size;
  - `image_texture_load` — reading KTX 1 compressed textures (header, levels,
    format and dimensions) and the upload layout of decoded images;
  - `hal` — arguments and waiters of load requests to the host;
  - `svg` — path command codes.
- `app/` — what is not verified: floating-point blurring, host callbacks and
  their futures, the file store, image files, fetching texture files, and
  serialisable copies of library types.
- `tests/` — tests of the library.
