# budget

Tracks the spending on Ziraat Katılım credit cards: it reads the bank's printed
statements, keeps them in a local database, and groups the transactions by
merchant so that each merchant is labelled once.

- `src/` is the library, verified with Verus. `parse` reads statements, `store`
  decides what is asked of the database and makes sense of its answers, `web`
  is what the pages, the settings and the command line compute. The laws on
  whole runs of the store's operations are in `src/store/laws/`.
- `tests/` runs the library, the store on a real database among the rest.
- `app/` is the program around it: the command line, the database connection
  and the pages.
