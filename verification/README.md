# tapecpy

A tool for LTO tapes on Linux that reads and writes LTFS without mounting it. The library
under `src/` decides; the program under `app/` talks to drives, files, sockets and the
terminal and hands the library what came back.

Every operation on a drive is a state machine: it names the next command, is told what
came of it, and names the next one, until it has ended. Its contract gives the next state
and the next action for every state and every reply, so that what holds of an operation
can be stated without a drive.

## The library

| Module | What it holds |
|---|---|
| `device` | SCSI answers, log pages, mode pages, density codes, the commands of a tape session, leases |
| `ltfs` | labels, indexes, their XML documents, the memory of a cartridge, the search for an index |
| `app` | inspecting, diagnosing, formatting, erasing, planning, writing, committing, reading, telemetry |
| `job` | orders, states and control of jobs that outlive the program that started them |
| `tui` | keys, events, pages and the device worker of the interface |
| `cli`, `reports` | arguments, and what is told |
| `text`, `paths`, `bytes`, `sort`, `hash` | what the others are built on |

Rates and shares are floating point in the program; the library holds them as bits or as
keys that keep their order, and takes rounded figures as texts.

## What is proved beyond the contracts

Among others: an index and a label are what their documents give back; a scan of a source
tree names every file once, depth first and siblings by name; a planned file is found in
the planned index; a file that was written is found with its extent and its
digest, is read back byte for byte, and passes the check; both copies of a committed index
agree and are read back; the checks before a write change nothing on the tape; a failed
eject does not undo a commit; nothing is destroyed without confirmation; on the overview
and on the pages of the volume, the health and the last error, a drive that a job has
claimed gets no command but the probe of the overview; a write that ends well has
written all that was planned, with one digest for every file, and every planned file is
found in the index that it committed.
