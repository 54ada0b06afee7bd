# fxp_videoclipper

A tool that turns videos into frames and frames into video clips: it exports
the frames of a video, samples frames, applies GMIC commands or a colour
lookup table to numbered images, blends two directories of images, and
assembles numbered frames and an audio track into a clip.

The library under `src/` is written in Verus. It holds the rules of the tool,
each function with a contract that Verus proves:

- `text`, `paths`: decimal numbers and path decomposition.
- `filename_parts`, `filename_handling`: splitting image names into prefix
  and frame number, bringing them into a common shape, and mapping images by
  number.
- `output`, `random`: where each mode writes, and fresh names.
- `ordered`: walking numbered images in increasing order.
- `exporter`, `sampler`, `gmicer`, `clutter`, `merger`, `clipper`: the plans
  of the modes: which frames, which commands, which files.
- `audio`, `settings`, `duration`, `cli`: where settings and the audio file
  come from, and the decisions of the command line.
- `logs`: which old log files are deleted.

The program under `app/` reads the command line, the configuration and the
file system, runs `ffmpeg`, `ffprobe`, `gmic` and `convert`, blends images,
and carries out the plans the library makes.
