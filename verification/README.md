# porthole

The verified core of Porthole, a desktop port-forwarding tool built on the
`gost` sidecar. The library in `src/` holds the project's logic, each function
with a contract proved by Verus:

- `rule`, `ip`, `text`, `order`: the rule model, IP address parsing as the
  standard library does it, decimal text, and sorted sets of rule IDs.
- `validator`: the checks before a rule set is saved and before the sidecar
  starts.
- `gost_renderer`: the `gost.yaml` configuration of the active rules.
- `firewall`: the Windows firewall plan, its PowerShell script and commands.
- `gost_process`, `runtime`, `runtime_events`: the runtime state machine of
  the sidecar, its log, the probe URL, and the events the front end hears.
- `store`, `rule_store`, `runtime_state_store`, `pid_file`: what the stores
  and the PID file read and write, and every failure message.
- `paths`, `app_state`, `lifecycle`, `clock`: the file layout, shared state,
  the exit flag and the wall clock.

`app/` is the Tauri application around it: file and process I/O, threads,
the TOML and JSON encodings, and the window.
