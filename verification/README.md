# shanji

The rules of 闪记, an offline-first desktop memo and reminder tool, as a
library whose behaviour is stated in contracts and proved with Verus.

- `src/` — the verified library: input checks, due-time and reminder
  scheduling, the decisions of each scheduler pass, item changes, e-mail
  delivery rules and keys, mail bodies, the Excel report, the Word
  summary and the Word file's archive (reading its body, writing a filled
  copy), the time canvas, startup and recovery checks, the personal data
  repository's merge rules, and the settings update with its rollback.
- `tests/` — tests that run the library on concrete values, whole reminder
  lifecycles among them.
- `app/` — the desktop side around the library: sending mail, writing the
  workbook and the summary document, the scheduler thread, carrying out a
  settings update against the system, finding data files, floating-point
  layout of the canvas, and serialisable views.

Times of day and calendar days are read in the machine's time zone. Where a
result depends on it, the contracts do not fix the instant: they state the
local reading it was computed from (within a day of the instant, since an
offset is less than a day), the rule applied to that reading, and that the
answer lies near the wall-clock reading the rule produced. Packages of the
personal data repository are checked against the hexadecimal SHA-256 digest
of their bytes.
