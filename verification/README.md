# megaremove

A small desktop tool that reads an fclones dry-run listing of `mv` commands and
writes, beside it, a script of `mega-rm` commands that remove the moved files
from MEGA (`<listing>__tmp3`), with a progress bar that follows the conversion line by line.

- `src/` is the library, verified with Verus: line classification, the pass over
  the listing, the check, the conversion, progress messages and the window state.
- `app/` is the iced window around it: file dialog, file reading and writing,
  the progress channel and timer, and drawing.
- `tests/` runs the library on concrete listings.
