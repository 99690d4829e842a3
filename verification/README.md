# Automated Invoice Uploader

A terminal program that finds invoice emails (DTE) in Gmail, lets the user
review them one by one, and saves and uploads the chosen ones to a Google
Drive folder, through the Google Workspace CLI (`gws`).

## Layout

- `src/` is the library, verified with Verus: date ranges, the Gmail search
  (queries, the command arguments, reading what `gws` prints, the
  intersection and ordering of the candidates), the Drive upload, file
  names, reading an invoice from its JSON file, settings, the pages and
  their reaction to keys and the text they show, the review as a state
  machine, and the program state that ties them together.
- `app/` is the program around it: the terminal, the keys, drawing with
  ratatui, running `gws`, the files on disk and the settings file, and
  writing the amounts of an invoice with two decimals (floating point).
- `tests/` runs the library on concrete values, with fake command runners
  in place of `gws`.
