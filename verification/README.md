# PinWall

PinWall takes screenshots across several displays, lets the user annotate them
on the spot, and pins them to the screen. F1 starts a selection, Enter copies the
result, Shift-Enter leaves it on the screen, F3 pins the image on the clipboard.

What the program decides and computes is a library whose functions carry
contracts that Verus proves. What only the system can do stays around it.

## Layout

- `src/` is the library.
  - `fixed`, `wide`, `geom`, `screen`: numbers, points, rectangles, displays.
    Lengths, scale factors and colours are fixed point numbers.
  - `selection`, `capture`, `compose`, `image`, `encode`, `bitmap`: from a drag
    with the pointer to the pixels of an image and to a file.
  - `annotation`, `editor`, `tools`, `draw`: the annotations, their editing with
    undo and redo, and how they are painted.
  - `input`, `effect`, `overlay`, `toolbar`, `pin_view`, `pin_window`,
    `platform`: what the windows are told and what is asked of them. A request
    to the windowing system is a value of `effect::Effect`.
  - `pin`, `session`, `hotkeys`, `file_name`: one pin, all pins, the shortcuts
    and the names of files.
  - `prototypes`: the logic of the small programs.
- `tests/` runs the library.
- `app/` is the program: windows, captures, the clipboard, files. It carries out
  the effects and hands events back.

## Conventions

- The origin is the top left corner of the primary display and `y` grows
  downwards. Only `platform`, `overlay` and the painting functions know the
  coordinates of the system, whose `y` grows upwards.
- Images are BGRA with eight bits per channel and rows without padding.
- A type `T` with an invariant has a spec function `wf`, and a view that contracts
  speak of.
- Public proof functions whose names start with `law_` state what holds of
  several functions together.

## What is taken on trust

- `encode::write_png` calls the `png` crate, `hotkeys::hotkey_id` calls
  `global-hotkey`. Each says in its comment what is claimed of the call.
- `capture::Capturer` is implemented by whoever takes the pictures.
