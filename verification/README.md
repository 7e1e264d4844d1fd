# redumper_gui

A desktop front end for [redumper](https://github.com/superg/redumper), the disc
dumping tool, whose decision-making core is a library verified with Verus.

## Layout

- `src/` — the verified library. Its functions carry `requires`/`ensures`
  contracts over spec functions, and the properties that span functions are
  stated as public proof functions (`lemma_*`). The one call into the `image`
  crate (decoding the bundled pictures) is trusted for the size of what it returns
  only: four bytes per pixel.
  - `text` — character-level string operations with specs in terms of `str`.
  - `profile` — disc profile and Redump system detection from log lines.
  - `progress` — the sector map and how redumper's progress lines update it.
  - `stream` — what a chunk of redumper output does to the shared dump state
    (log, sector map, hash progress, profile, system, detected scripts).
  - `dump_files` — the redumper command line, which dump files exist and what
    can be done with them, state-file decoding and the sector count of a log.
  - `sector_view` — the boxes of the sector map panel and the sector counts.
  - `options` — disc name and drive speed input, drive reselection.
  - `session` — the window's bookkeeping when a dump starts or ends and when the
    disc name or the drive changes.
  - `cleanup` — which files are deleted, compressed and archived after a dump.
  - `drives` — reading what the system tools report about optical drives, and
    which device stands for a drive.
  - `script` — Japanese, Chinese and Korean text detection and font loading order.
  - `theme` — the color themes.
- `app/` — the program: the egui window, subprocess handling, file system
  access, and the floating-point drawing and disc-spinning code; the decisions on
  text, files and dump state are the library's.
- `tests/` — tests of the library on concrete values.

The program expects the `redumper` executable next to it or on `PATH`, and reads
its fonts, icon and disc profile images from an `assets` folder next to it.
