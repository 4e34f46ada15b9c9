# screenshot

A command-line tool that lists windows and displays and captures one of them to a
PNG or JPEG XR file, built around a library whose behaviour is proved with Verus.

- `src/` — the verified library:
  - `cli.rs`: the command-line values and the decimal window-handle parser;
  - `utf16.rs`: decoding of the NUL-terminated UTF-16 names Windows hands out;
  - `display_info.rs`: the per-device metadata table and the description of each display;
  - `window_query.rs`: window search by title and the search report;
  - `capture.rs`: which window or display to capture, the file format, and the packing
    of mapped texture rows;
  - `output.rs`: the table reports and the framing of JSON output;
  - `text.rs`: decimal rendering, column padding and substring search.
- `app/` — the program: clap parsing, the Windows API calls, serde JSON, and the loop
  that hands what Windows reports to the library.
- `tests/` — tests of the library, several of them against the standard library's own
  parsing, decoding and formatting.
