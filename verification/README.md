# img2pdf

Turns folders of JPEGs into A4 PDFs, PDFs back into images, and photographed
or scanned books into clean A4 PDFs (`book-scan`), from the command line or a
small GUI.

## Layout

- `src/` — the library, verified with Verus: command-line parsing and usage
  (with the proof that `--name value` and `--name=value` parse alike),
  page ranges and settings validation, the book-scan settings form, progress
  reporting, the LPT page scheduler, blank-page measurement, the 3x3 stroke
  filter and black-ink fringe removal, tone decisions, ScanTailor arguments
  and project reading (the project file's XML read with quick_xml), the
  order in which external programs are looked for, default output paths,
  Real-ESRGAN arguments and dimension checks, the
  direct PDF writer (objects, cross-reference table, trailer; written page
  by page), the Real-ESRGAN output checks and single retry, the PDF
  extraction arguments and fallback, pdf2img's
  Poppler arguments, listings and per-page JPEG extraction plan, and the
  book-scan run plan: when an
  earlier run's files are reused and what comes next.
- `tests/` — tests of the library.
- `app/` — the program around it: `main`, the GUI, running Poppler,
  ScanTailor, Real-ESRGAN and jpegtran, reading and writing files, the saved
  settings and run manifest, and the real-valued image work (resizing,
  paper normalisation, tone boost, page placement on A4).
