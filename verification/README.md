# crosshair_compositor

A small compositor for the bare hardware. It paints a greeting and a crosshair
cursor on every connected display and follows devices as they come and go.

`src/` is the library, verified with Verus: what is painted and what is decided.

- `pixels`, `crosshair`, `text`: images, the cursor, a line of text
- `face`, `font`: which font files are read, and from characters to glyphs
- `layout`: where the pictures stand on a display
- `connectors`, `connector_laws`: which connector gets which controller and mode
- `compositor`: the devices, their displays and the frames to paint
- `painting`: how one frame gets onto its display
- `startup`: which devices and nodes to start with

`app/` is the program around it: session, devices, input and rendering. It needs
libseat, libudev, libinput, libgbm and libxkbcommon, and does not start without
`DejaVuSans.ttf` in the working directory.

`tests/` runs the library.
