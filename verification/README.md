# coursegen2

Generates a course's syllabus and index pages from `config.toml` and the Tera
templates of the course directory.

- `src/` is the library, verified with Verus: dates and days of the week
  (`calendar`), the configuration types (`course`), meeting days (`meetings`),
  holidays and exams by date (`breaks`), the schedule table (`schedule`), the
  instructor list (`instructors`), the page fields (`pages`), the rendering of the pages
  with Tera (`render`), the command line (`args`) and text helpers (`text`).
- `app/main.rs` reads the files, parses the TOML and writes the pages.
- `tests/` runs the library on concrete courses.
