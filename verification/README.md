# dashboard

A terminal system monitor: CPU usage across cores, memory pressure, a process
table sorted by a chosen column, and a sidebar of processes whose CPU usage
moved sharply since the last refresh.

The logic is a Verus-verified library under `src/`:

- `system` — the data of one refresh: process rows and their ordering, the
  activity list (changes of at least 5.00% since the previous refresh, largest
  first, at most eight), the CPU history (the latest 60 samples), memory
  figures (used = total - available).
- `order` — a verified stable insertion sort over any strict weak ordering,
  with a proof that its result is unique.
- `app` — navigation state: arrows, Ctrl+N/Ctrl+P, Page Up/Down, Home/End,
  Ctrl+C, and the refresh timing of the main loop.
- `ui`, `theme` — the text, bar widths, percentages and colours each panel
  shows.
- `text`, `cli` — string helpers (decimal notation, padding, truncation,
  trimming, ordering) and the `--refresh-ms` option.

Usages and load averages travel through the library as integers in hundredths
(of a percent, or of a load unit).

`app/` is the program around it: it reads the operating system with `sysinfo`,
draws with `ratatui` on a `crossterm` terminal, and formats byte sizes with
`human_bytes`.
