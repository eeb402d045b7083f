# nova

Virtualization and container management for Linux hosts: GPU passthrough and
its diagnostics, firewall rules, container runtimes (Bolt, Docker), VM
consoles, libvirt networks and Arch Linux network configuration.

- `src/` is the library, written in Verus: every decision the tool makes (what
  a command's output means, which command to run next, how state changes) is a
  function with a contract, proved. Values that only the host can give (the
  output of a command, the contents of `/sys`, the clock) are passed in as
  arguments.
- `app/` is the host side: it runs the commands, reads and writes files, parses
  the TOML configuration and JSON outputs, and hands the results to the library.
- `tests/` exercises the library on concrete inputs.
