# quantum_atom_viz

The host side of a real-time viewer for hydrogen orbitals that draws with Vulkan on
Windows. The rules are a library whose behaviour is stated in contracts and proved with
Verus; a thin program around it talks to the window system and to the device.

## Layout

- `src/`: the library.
  - `win32`, `utf16`, `controls`: window messages, wide strings, what keys and mouse do.
  - `device`, `gpu`, `swapchain`: which adapter, queues, memory and swapchain to use.
  - `numbers`, `resources`, `pipeline`, `shader`: what the objects on the device are made
    with.
  - `lifetime`, `upload`: the order in which they come up, are filled and go down.
  - `renderer`, `commands`, `frame`: the viewer's state, and the work that a frame comes to.
  - `presets`, `waves`, `icosphere`: the orbitals to choose from and the spreading shells.
  - `floats`: the bit patterns by which floats are carried.
  - `text`, `font`, `overlay`: the font file, its texture and the text over the picture.
- `tests/`: the library on concrete values.
- `app/`: the program. It keeps what is in floating point (camera, matrices, the
  positions of vertices), opens the window, and carries out the library's plans.

The program reads compiled shaders and `font.hex` from a directory `shaders`.

## What is proved, in short

- Every frame uses each image in the layout that it is in, on one queue or two and in
  every setting of the switches, and leaves it as the next frame expects it.
- Where a second queue computes, every stage that reads its results waits for them.
- Every press of a key is handed out exactly once.
- What is created on the device is destroyed, once, and nothing goes before what rests
  on it, or before the device is idle.
- Every place of every descriptor set is filled once, with something made for it, and
  the pool is large enough.
- The wave shell is a closed surface at every depth of splitting.
- The font atlas shows the glyphs of the font file, and the text shows the atlas.

The functions named `law_...` state these and the other properties.
