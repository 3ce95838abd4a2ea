# FreeYourDisk

Safe disk cleanup, disk health and application management for Linux, macOS
and Windows, with its decision logic proved correct by Verus.

## Layout

- `src/` — the verified library. Its functions carry `requires` / `ensures`
  contracts that Verus checks (a handful of private helpers and trait methods
  need none):
  - `ipc`, `services`, `scan`, `filetypes`, `snapshot`, `state`: what the
    cleanup services surface, rank and remember;
  - `zones`, `routing`, `helper`, `headless`, `elevate`: what may be deleted,
    by whom, and how the privileged helper is reached;
  - `apps`, `winapps`, `actions`: the application inventory and the exact
    commands an uninstall or update runs;
  - `health`, `smartdeps`, `monitor`, `taskmgr`, `settings`, `schedule`,
    `tray`, `toast`: disk telemetry, tooling, alerts, processes and settings;
  - `text`, `paths`, `keyed`, `ranking`: the string, path, table and ordering
    primitives the rest is stated over.
- `app/` — the program around the library: command line, file system walks,
  system tools, JSON, and the floating-point figures (human-readable sizes,
  CPU and memory percentages). The safety decisions (what may be deleted,
  which command runs) are the library's.

## Known gaps

- On Windows the classic (registry) applications are not listed, and their
  uninstall reports "subkey not found": the registry is not read by this
  build. Store (MSIX) applications are handled.
- The task manager's CPU figures come from two samples taken a moment apart
  on each call, not from a sampler kept between calls.
- `tests/` — tests of the library on concrete values.

## Safety model

1. Scans are read-only; a deletion always starts from an exact dry-run plan.
2. Deleted items go to the trash unless permanent deletion is chosen.
3. Every path is validated against the allowed zones before anything happens
   to it; a symlink escaping the zones is refused.
4. A git worktree with uncommitted work is never surfaced.
5. Only the minimal helper runs with administrator rights, and it refuses a
   whole plan if any path of it lies outside its zones.
