# usbip_core

A USB/IP client library, verified with Verus.

- `src/` is the library. Every function carries a contract that Verus
  proves: the USB/IP wire messages (`net`, `device`, `wire`), the USB id
  database (`names`), the Linux vhci driver's status files, free ports and
  sysfs commands (`unix`), the Windows vhci driver's control codes and
  messages (`windows`), and small containers (`containers`).
- `app/` holds what touches the system: files, sockets, udev and the
  driver's sysfs files. It calls the library for every decision.
- `tests/` runs the library on concrete values.
