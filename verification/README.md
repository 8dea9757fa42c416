# asoby

A terminal front end for libretro cores: it loads a core and a ROM, draws
the frames in the terminal (kitty graphics, half blocks or ASCII), maps the
keyboard and gamepads to the joypad, and keeps save states and a rewind
buffer.

## Layout

- `src/` is the library, verified with Verus: configuration and its
  editing, core detection and installation plans, the save-state formats
  and their files, the rewind buffer, the input state machine, the
  renderers' screen assembly, and the decisions of a play session (frame
  timing, per-frame actions, terminal restore).
- `app/` is the program around it: the command line, files and network,
  the terminal, audio output, gamepads, and the libretro core itself
  through its C interface. It hands the library plain values and acts on
  what comes back.
- `tests/` exercises the library.

## Save-state listing

`state list` reports a file in a game's state directory as malformed when
its name does not follow the naming scheme, names another game, or is
larger than 256 MiB. A state file holds only the core's serialized state
(the RASTATE container, possibly zlib-compressed), with no timestamp, core
or ROM name inside, so the listing can compare only the file's name with
the directories it sits in.
