# usagi

The core of Usagi, a rapid 2D game prototyping engine scripted in Lua,
written in Verus: the code in `src/` is verified by Verus, and its public
functions carry contracts saying what they return.

- `src/` is the verified library: project naming, script-path and
  launcher resolution, configuration parsing and precedence, input
  bindings and remapping (keyboard and gamepad, with their JSON files),
  export planning and the PE subsystem patch, the refresh walk, the
  Love2D port checks and LuaJIT feature scan, shader source selection
  and generation, font atlas baking and loading metadata, GIF capture
  quantization and naming, pixel reads, the synth's event ring, the
  pause menu's state machine, the Lua API's constant tables, and the
  diagnostics snapshot. Calls into outside crates (`freetype`, `png`,
  `serde_json`, `time`) and into `std::path` sit behind small trusted
  wrappers. Where the outside result is a pure function of its inputs
  (FreeType's faces and glyphs, PNG text chunks, JSON parsing) the
  wrapper's contract names it, and the library's contracts are stated
  over those names; where it depends on the disk or the clock, the
  library states what holds for every answer and a verified function
  takes the answers as arguments.
- `tests/` exercises the library from outside.
- `app/` is the command-line front end and the float-valued runtime
  pieces (effect timers, capture timing, settings volumes, banner
  wrapping), plus file I/O.
