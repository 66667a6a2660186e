# telemost

A desktop client for Yandex Telemost conferences, as a verified Verus library
(`src/`) and the program around it (`app/`).

- `src/text.rs`: reading comma separated lists (split, trim, drop empty),
  joining, and the lexicographic order of texts.
- `src/models.rs`: conferences, the service's replies, the interface state and
  the messages between the interface and the worker.
- `src/listing.rs`: the newest-first order of the conference list (a stable
  sort), with its laws.
- `src/state.rs`: how the interface state changes at start, on the worker's
  answers and on the user's actions, with its laws.
- `src/api.rs`: the requests sent to the service and the meaning of its answers.
- `src/stamp.rs`: the creation time of a conference as `YYYY-MM-DD HH:MM`.
- `src/worker.rs`: the worker's token, the requests it makes for each action,
  and the messages it makes of answers.
- `src/storage.rs`: the token in the system credential store, and the names of
  the files the program keeps.
- `app/`: the egui window, HTTP with ureq, JSON with serde, and the files.
