# YFP (Your Files Protector)

Overwrites the free space of a Windows drive with dummy files so that
deleted files can no longer be recovered by common undelete tools, then
deletes the dummy files again.

## Layout

- `src/` is the verified library (Verus).
  - `engine/wipe_engine.rs`: the overwrite job as a state machine
    (`WipeRun`). Every decision of a run -- target size, chunking, the
    64 MiB free-space floor (no write is larger than the last reading
    minus the floor), pause/resume/cancel handling, progress and
    final-state reporting -- is made there and proved against its
    transition relation `step_spec`; the `lemma_*` proof functions state
    the run's safety properties.
  - `engine/run_trace.rs`: laws of whole runs, over a recorded trace of
    steps: one byte target for all snapshots, byte accounting, the order
    of what a run publishes, file numbering, and which file a run touches.
  - `engine/control.rs`: shared pause/cancel flags (`WipeControl`).
  - `engine/random_filler.rs`: the pseudo-random generator and the write
    buffers.
  - `engine/cleaner.rs`: dummy-file names, picking dummy files out of a
    listing, scanning sums and purge tallies.
  - `engine/target.rs`: drive roots from the logical-drive mask, drive
    labels, UTF-16 conversion and byte units.
  - `app.rs`: the window's state and UI decisions (`YfpApp`), including
    when each confirmation dialog opens and what its answer does.
  - `tray.rs`, `util/`: tray-menu commands, text formatting.
- `app/` is the Windows program around it: the eframe window, the tray
  icon, Win32 drive queries, file I/O, the lock and condition variable
  that wake a paused worker, and the loop that performs the work a
  `WipeRun` requests, including the clock-based write-speed measurement.
- `tests/` exercises the library, including whole simulated runs.
