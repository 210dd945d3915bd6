# irecovery

Recovery-mode discovery for Apple devices, with the logic verified by Verus.

- `src/` is the library. It recognizes recovery-family USB devices, parses the
  iBoot descriptor string, follows hotplug events, opens a device by ECID with
  retries, and frames recovery commands. It performs no USB operation: each
  procedure is a sequence of steps, where a step names the operation that is due
  and takes back what came of it.
- `src/*_laws.rs`, and the `law_` functions beside the code they are about, state
  what holds of the library as a whole.
- `app/` is the command line tool. It performs the USB operations with `nusb`; each
  of them can be waited for or awaited.
- `tests/` runs the library on concrete values.

On Linux the process must be able to open the matching `/dev/bus/usb/*` node.

The bundled device table (`src/db.rs`) holds one device, the iPhone X. A longer
table can be handed to the same resolver, and any other source of names can be
used by implementing `DeviceMetadataResolver`. A device that no resolver knows is
shown as `Unknown Device`.
