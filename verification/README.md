# pc_booster

A Windows service manager and optimizer: it lists services, stops and starts
them, keeps a blacklist of services to stop, watches services so that they stay
stopped, and offers a terminal interface that can restart a stopped service
when the network goes down.

## Layout

- `src/` — the library, verified with Verus:
  - `text.rs`: character-level text handling (decimal notation, comparison,
    search, trimming, splitting, joining).
  - `wide.rs`: UTF-16 wide strings for the Windows APIs, with the round-trip law.
  - `service_manager.rs`: service entries and the decisions taken around each
    service-control call (status words, buffer retries, stop plans).
  - `service_list.rs`: display order of services (stable sort, its uniqueness),
    counting and lookup by name.
  - `system_info.rs`: memory figures read through `sysinfo`, and their display.
  - `config.rs`: the blacklist, a duplicate-free set of names, and its laws.
  - `monitor.rs`: the `--services` list of the monitor and its decisions.
  - `tui.rs`: the state of the terminal interface, key handling, status
    messages and the network protection watch.
- `app/` — the program: command line, Windows service-control calls, network
  probes, the configuration file, and the terminal event loop and drawing.
- `tests/` — tests of the library.
