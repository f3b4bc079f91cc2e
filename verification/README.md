# lspresso_shot

A verified core for a harness that tests language servers by driving Neovim.

A test names a server, a source file and a request. The harness writes an
`init.lua` that makes Neovim's client send the request, runs Neovim, and reads
the response the script wrote; it then compares the response with the expected
one and, on a mismatch, renders the two side by side.

- `src/` is the library, verified with Verus: test cases and their validation,
  the `init.lua` replacements for every request, the JSON model of responses and
  their comparison and rendering, completion expectations, the looser
  comparisons of definition, token, document-symbol and workspace-symbol
  responses, URI cleaning (locations, symbols, links, hierarchy items and
  calls, workspace edits, diagnostics and diagnostic reports), the decisions of a run (its verdict, its deadline,
  whether a benchmark goes on), and the pure parts of the dummy server used by
  the harness's own tests, with all of its canned responses.
- `app/` runs Neovim and the dummy server, does the file I/O, and converts
  between `lsp_types` and the library's types.
- `tests/` exercises the library on concrete values.
