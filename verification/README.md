# tree-sitter-dynamic

Loads tree-sitter grammars at run time from a directory of grammar packages
(`$TS_GRAMMAR_PATH`) and highlights files with them; `app/` is the
`tree-sitter-cat` program, a `cat` that colours its output.

`src/` is the verified library:

- `text` — `str` operations (lines, trim, split, pattern removal) over
  character sequences, with their meaning as spec functions;
- `modeline` — the `; inherits: …` header of query files, with its laws;
- `paths` — Unix path joining, file names and extensions, and the search
  for a file among subdirectories;
- `grammar` — which `package.json` configuration provides a language or
  handles a file extension, parser and query locations, query assembly;
- `highlight` — the highlight configuration built with
  `tree_sitter_highlight`, recorded with the queries and names it was built
  from, and the recognized capture names;
- `render` — the style sheet and what the terminal front end prints around
  highlights;
- `dl` — the loader error.

`app/` holds what needs the file system, the dynamic loader, serde, the
command line and the terminal.
