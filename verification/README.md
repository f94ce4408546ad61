# overlay_rects

A click-through screen overlay that scatters labelled target rectangles
(a letter and a digit each) over the screen, draws a yellow dot in each, and,
when the user clicks a rectangle, moves the real mouse to that dot and clicks
it. Ctrl toggles the overlay, Ctrl+F12 quits, and a timer captures the screen
every ten seconds.

- `src/` is the verified library: colour packing, rectangle geometry, the
  xorshift generator, rectangle placement (with its model in `layout.rs`),
  the rectangle cache and hit testing, the window-message decisions, and the
  conversion of a screen capture into an RGBA image.
- `app/` is the Windows program around it: window creation, the message loop,
  painting, mouse input, screen capture and logging.
