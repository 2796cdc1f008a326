# checklist_manager

A desktop manager for legal case checklists, with its logic verified by Verus.

- `src/` is the verified library:
  - `checklist` — ordered checklists of items and sub-items (kept in an
    `IndexMap`), the default case checklist, and clicking an item at any
    depth, after which each item above it is checked exactly when all of its
    sub-items are; an item whose sub-items are all checked stays checked.
  - `document` — a named checklist with the time it was last modified,
    restamped by every change to it.
  - `store` — the documents, each under its own name.
  - `pdf` — the loaded case PDF, its predefined sections, and the
    placeholder page image drawn for each section.
  - `app` — the state of the manager and what each user action (new
    checklist, select, rename, toggle, load a PDF) does to it, including
    whether the documents need saving.
- `app/` is the egui program around it: the window, the file dialog, reading
  PDF files, and the JSON file `checklist_state.json` that keeps the
  documents between sessions.
- `tests/` runs the library on concrete values.
