# hal9001

The logic of HAL-9001, a terminal system monitor and hardware control hub,
as a Verus library: the panels' data models, the parsers of what the system
tools report, the decision rules (the storage safety lock, the display
hotplug, the update count, the consent gatekeeper of the agent service) and
the state machines of the dialogs, each with a contract that Verus proves.

- `src/` is the verified library. Calls into outside crates (`sha2`,
  `unicode-width`, `vt100`) and into parts of std that vstd does not
  specify go through small trusted wrappers whose contracts are written
  next to them.
- `tests/` runs the library on concrete inputs.
- `app/` is a small command-line program around the library: it reads the
  system (D-Bus, `/proc`, `/sys`, command output), hands plain values to the
  library, and prints or carries out what the library decides. Floating
  point work (rates, volumes, percentages) stays there.
