# Tidy Cleaner

A Linux system cleaner and dashboard: it finds caches, trash and other
removable data and deletes only what is safe to delete, lists installed
applications from several package managers, manages autostart entries, and
shows processor, memory, disk and temperature readings.

The library under `src/` holds the logic and is verified with Verus: every
public function states what it returns or changes in its `requires` /
`ensures` contract, and the proof functions state the laws that hold across
calls (a generated autostart entry reads back as written, toggling a
selection twice restores it, the pages of a listing partition it, dangerous
items are never deleted, the safety check refuses system paths and paths
outside the home and temporary directories).

- `src/cleanup`: rules, scanning, selection, cleanup plans and summaries.
- `src/applications`: package listings, desktop entries, icons, commands.
  Debian packages are removed with `apt-get remove -y` and described with
  `dpkg -s`; installed dpkg packages are not listed.
- `src/startup`: autostart entries, their text format and its read-back laws.
- `src/filesystem`: path safety, user directories, the file picker.
- `src/localization`: the built-in English and Russian texts and their loader.
- `src/system`, `src/theme`, `src/settings`, `src/app`: dashboard texts,
  themes, preferences and page state.

`app/` is the program around the library: it reads the environment, runs
the package managers and other tools, walks and deletes files, samples the
hardware, stores the preferences as JSON and prints the pages on the
terminal.
