# dds_workbench

A verified library for recovering files from NTFS volumes and reporting on
the recovery, written in Verus.

- `src/` is the library. Every function in it carries a contract that Verus
  proves: the NTFS structures (boot sector, update-sequence fixups, MFT
  records, attributes, runlists, index nodes, path resolution, the volume
  reader over a cluster-reading closure), the recovery planning (file-name
  sanitising, output paths, conflict handling, timestamps, progress texts,
  outcome collection) and the reports (HTML escaping, byte and duration
  texts, the customer Word document's content, the customer text lists, the
  CSV and the staff HTML report).
- Calls into outside crates (chrono, csv, docx-rs, sha2) and a few std
  functions stand behind small trusted wrappers. Their contracts are not
  proved; each wrapper's doc comment says what it claims of the call and what
  it leaves unsaid, and those claims were checked by reading the crates'
  sources.
- `app/` holds what Verus cannot check: file and device I/O, threads,
  Windows file-time calls, the console progress reporter and the
  floating-point percentages of the reports.
- `tests/` runs the library with the outside crates linked.
