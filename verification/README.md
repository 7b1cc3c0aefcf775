# clash-android-ffi

Bridge between an Android app and the Clash proxy core, with its logic
verified by Verus.

- `src/` — the verified library: the API records (`model`), the request
  each controller operation sends and the judgement of answer statuses
  (`controller`), the order in which proxies are listed (`proxies`), the
  bookkeeping of subscription downloads (`download`), decimal rendering
  (`text`) and the trusted calls into urlencoding, serde_json and hyper
  (`external`).
- `app/` — the unverified side: the HTTP client over the core's Unix
  socket, the download client and file writing, logger setup, and the
  serde copies of the records.
- `tests/` — scenarios run against the compiled library.
