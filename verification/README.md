# dcfs

The metadata core of a chunked file store, and the operator's command line for
it, with their behaviour stated as Verus contracts and proved.

- `src/` is the verified library.
  - `model` says what a repository holds and what each request makes of it;
    `repository` is the in-memory repository that does just that. `records`,
    `manifest`, `table` and `sessions` are what it is made of.
  - `cli` holds the decisions of the command line: arguments, the configuration
    check, the judgement of a server's answers, and the upload of a file as a
    machine from events to actions.
  - `laws` states what holds across requests: of the directory tree, of versions
    and chunks, of garbage collection, of sessions, and of uploads.
  - `clock`, `ident` and `cli::encoding` hold the calls into `chrono`, `uuid`
    and `base64`, each behind a contract that is trusted, not proved.
- `app/` is the program around it: it reads the environment, talks HTTP, reads
  files and prints. `app/shared.rs` puts the repository behind a lock and
  asynchronous requests.
- `tests/` runs the library.
