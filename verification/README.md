# DiskScry

A read-only disk health monitor for macOS: it lists physical disks, reads
their ATA or NVMe SMART data, and shows a conservative health verdict with
the evidence behind it, in English or Simplified Chinese, as text, JSON or
an interactive terminal interface.

## Layout

- `src/` is the library, verified with Verus:
  - `protocol/` decodes ATA IDENTIFY, ATA SMART data and thresholds, and
    the NVMe Identify Controller and SMART / Health log;
  - `domain/` holds the snapshot types and the health evaluation;
  - `platform/` classifies discovered media into disk records, orders the
    inventory, finds a disk's SMART service and reports each outcome of a
    SMART read;
  - `presentation/` holds the two message catalogs, locale detection, the
    readable SMART projection, the text output and the state of the
    interactive interface;
  - `app.rs` and `cli.rs` collect snapshots, select disks and lay out
    `watch` frames; `text.rs` has the string and number rendering they
    share.
- `app/` is the program around it: argument parsing with clap, JSON with
  serde, drawing with ratatui, figures that need floating point, and the
  IOKit and Disk Arbitration calls.
- `tests/` exercises the library.
