# Squeeze

Compresses gameplay clips to a size that Discord will accept. Drop clips onto
the window and pick a size limit; each one is re-encoded to fit under it and
saved next to its source, so that `clip.mp4` becomes `clip_discord.mp4`.

The library in `src/` decides, and is verified with Verus: the
bitrate, frame and frame rate of a clip (`plan`), the loop that encodes again
until the file fits (`session`), the choice of an encoder (`encoder`), the
streams, filters and order of work of one pass (`streams`, `filters`,
`pipeline`), and the list of clips with its words (`jobs`, `text`, `timer`,
`paths`, `theme`). What holds of every clip is stated and proved in the functions
whose names begin with `law`.

Quantities are integers: sizes in bytes, rates in bits per second, lengths in
microseconds, margins in parts per million and progress in parts per billion.

The program in `app/` opens files, calls FFmpeg through `rsmpeg`, and draws the
window with `eframe`. It needs the FFmpeg 8 libraries, and looks for an `assets`
directory with the pictures and typefaces beside itself.
