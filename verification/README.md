# pattern_database

Time series of measurements, the patterns in them, and the events that the patterns go with, kept in
libSQL databases: one set of files per aspect of a subject.

- `src/` is the verified library. It decides what is written, in which statements and in which order,
  what is read out of rows and what is told where a row cannot be read, how measurements are captured,
  batched, leveled and compressed, how dictionaries take patterns in, how ranges of time are cut into
  chunks, and how a catalog, a cache, a transaction and a backup behave. Texts of statements and errors
  are stated exactly.
- `app/` runs it: connections, files, serialization, interpolation, and all floating-point arithmetic.
- `tests/` runs the library, on values and against a real database.

What each function promises stands in its `ensures`. What holds of several together stands in proof
functions whose names begin with `law_`. Functions marked `external_body` hand a single call to another
crate or to the standard library; their comments say what is believed of it.
