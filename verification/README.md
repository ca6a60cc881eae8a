# eoka

The verified core of eoka, a small Linux package manager that fetches
packages from its own mirror servers, checks their BLAKE3 digests, unpacks
them and keeps track of installed versions in an SQLite database.

- `src/` is the library, verified with Verus: string helpers (`text`), the
  order of versions (`version`), package records and database
  synchronisation (`package`), mirror selection (`mirror`), integrity checks
  (`integrity`), installation (`install`), removal (`removal`) and the
  command line (`cli`).
- `app/` is the program around it: database access, HTTP downloads,
  archive extraction, scripts and terminal output.
- `tests/` exercises the library on concrete values.
