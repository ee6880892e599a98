# openlogi_onboard

Onboard profile memory of HID++ devices: reading, editing, backing up and safely writing the
profiles that a mouse stores, with every rule verified by Verus.

- `src/` is the library. Nothing in it performs I/O: an operation on a device is a machine that
  names its outstanding query, takes the answer, and says in its contract where each answer leads.
  - Memory: `bytes`, `checksum`, `description`, `sector`, `assignment`, `edit`, `report_rate`, `led`.
  - Device operations: `protocol`, `query`, `sector_read`, `write`, `rate`, `led_read`, `snapshot`,
    `session`. The module `flash` states what writes and restorations do to a device that keeps its
    promises.
  - Agent: `agent`, `apply`, `backup`, `route`, `onboard_profile`.
  - Editor: `panel`, `panel::workspace`, `canvas`, `metadata`, `registry`.
  - Diagnostics: `cli`, `listing`, `round_trip`, `report`.
  - Shared: `text`, `order`.
- `app/` runs the machines: it talks to devices, keeps backups in a directory, parses the command
  line, computes pixel positions and draws the editor.
- `tests/` runs the library against scripted devices and concrete values.
