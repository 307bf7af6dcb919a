# paper_format_checker

Checks the format of a thesis or paper against a school's or journal's
requirements, with the help of a language model.

- `src/` is the verified library (Verus):
  - `text.rs`: byte-level search, splitting, slicing and line reading of
    UTF-8 text, whitespace, word counts, decimal printing.
  - `docx_parser.rs`: a Word file's bytes unzipped (zip crate) into its
    parts (document, styles, core properties), the parts read by text
    scanning, and a formatting summary for the model.
  - `pdf_parser.rs`: a PDF file's bytes loaded by lopdf, its pages and
    information, and a content summary for the model.
  - `llm.rs`: the requests to the model (prompts, endpoints, headers), the
    JSON cut out of its replies, and guideline requirements as text.
  - `format_compare.rs`: requirements read from free text, loose matching of
    font and alignment names, heading levels from style names, the issues
    a comparison reports, and the comparison of measured paragraphs in order.
  - `lib.rs`: the document shape shared by Word, PDF and text files, file
    kinds, and the result of a check.
- `app/` is the application around it: file and network I/O, JSON
  (de)serialisation, the commands the user interface calls, and the
  floating-point measures (heading detection by size, tolerances, the average
  line spacing) that it hands the library's comparison.
- `tests/` exercises the library on concrete inputs.
