# Libreland

The decision core of a Wayland compositor, verified with Verus, and the program
around it.

- `src/` is the library. It computes on plain values only: surfaces are numbers,
  time is in milliseconds, and what clients have to be told is put in an outbox.
  Every function states what it returns, and Verus proves it.
- `app/` is the program: it reads devices, files and sockets, asks the library
  what to do and does it. Easing curves stay here, for they are floats.
- `tests/` runs the library.

## Where things are

| Module | What it decides |
| --- | --- |
| `geometry`, `text`, `paths`, `lists` | points, rectangles, text and paths |
| `window`, `tree`, `desktop`, `layout` | where windows go and what they are told |
| `hotplug`, `drm`, `hdr` | which outputs there are and how they are driven |
| `frame`, `redraw` | what a frame shows and when one is due |
| `layers`, `popups`, `pointer` | what lies under the pointer and who gets it |
| `keyboard`, `bindings`, `config`, `idle` | keys, commands, settings and idling |
| `clipboard`, `cursor`, `icon`, `media` | selections and pictures |
| `screenshot`, `copycapture`, `color_management` | captures and colours |
| `ipc`, `server`, `client` | the control socket, from both ends |
| `laws`, `conserve` | what holds of the desktop whatever is done to it |

`desktop` says what each operation makes of the desktop, and `layout` carries the
operations out. The laws are public proof functions: among others that no
operation loses a window, that tiles never overlap and never leave their output,
and that laying out twice changes nothing.

## What is believed

Three small functions call code that is not verified, and each says what it
claims of it: the PNG decoder in `icon`, the cursor file parser in `cursor`, and
the making of a `String` out of characters in `text`.
