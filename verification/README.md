# fileflow

The verified core of FileFlow, a desktop search engine for local files.
Files are read, split into a few overlapping chunks of text, embedded, and
stored in a vector table; a query is embedded and matched against the
chunks, and the matching files are ranked.

`src/` is the library, verified with Verus:

- `text` – characters, joining, truncation, decimal numbers
- `estimate` – the word budget of a token count, `(n as f32 / 1.3) as usize`,
  computed exactly in integers
- `chunker` – words, sliding windows, the first/middle/last chunks
- `paths`, `classifier` – extensions and file categories
- `extractor`, `preview` – which reader or preview a file gets, and the text
  assembled from slides, sheets and documents
- `pipeline` – file identifiers and the records stored for a file
- `search`, `query` – ranking files from chunk hits, store filter expressions
- `watch`, `persist` – the watched directories and their saved form

`app/` is the Tauri application around it: the vector store (LanceDB), the
embedding model, the SQLite retry queue, file system access and the
background tasks. `tests/` exercises the library on concrete values.
