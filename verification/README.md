# musesp

The user-interface core of the MuseSP rhythm game, verified with Verus.

- `src/` is the library: a component tree with constraint layout, pointer and
  keyboard event dispatch, scroll lists, a clipped draw list, a page router,
  and the logic of the home, music list, gameplay and pause-menu pages
  (song list and difficulty parsing, the settings and song metadata read
  from TOML text through `toml`, difficulty ordering, camera-control
  decisions, snapshot packing). Every public function carries a contract,
  and the `law_*` proof functions state properties that span calls.
- `app/` is the program around it: the window and event loop (winit), GPU
  presentation and text shaping (wgpu, glyphon), picture decoding (image,
  usvg, resvg, tiny-skia), reading and writing the configuration file and the
  floating point numbers in it, and the floating point camera and sphere
  geometry of the gameplay page.
- `tests/` exercises the library on concrete inputs.
