# screenshot

A screen-capture and annotation tool. The library under `src/` holds its logic,
verified with Verus:

- `capture`: captured RGBA frames, cropping a region out of a frame (through the
  `image` crate), the conversion to egui images (plain and dimmed), and the steps
  of grabbing the primary monitor;
- `shade`: dimming premultiplied pixels to 40% for the selection backdrop;
- `selection`: the region selection dragged over the full-screen frame;
- `canvas`: the annotations of a cropped capture (generic over the point and
  style types), how each stroke places and reshapes them, undo
  and redo, and the status line, with the laws that relate them;
- `tools`: the toolbar's tools and the file name offered when saving.

`app/` is the program around it: the window, the GPU renderer, the egui
widgets, the floating-point geometry of annotations, and the calls into the
screen-capture and file-dialog crates.
