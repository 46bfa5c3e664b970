# ssh_bookmarker

The library behind SSH Bookmarker, a menu-bar launcher for SSH connections,
written in Verus with its behaviour stated in contracts and proved.

- `src/` is the verified library: the `ssh` command line of a bookmark and
  its shell quoting (`launcher`, `shell`), the OpenClaw maintenance command,
  the self-deleting launch script, the known terminals and the detection of
  the one that opens shell scripts (`terminals`), where the settings file and
  the database live (`settings`, `paths`), the tray menu and what its clicks
  ask for (`tray`), how stored rows become bookmarks (`bookmark`), and the
  text and number handling these rest on (`text`, `decimal`).
- `app/` is the desktop shell around it: the Tauri commands, the libSQL
  store, file and process I/O, and the serializable copies of the library's
  types.
- `tests/` exercises the library on concrete values.
