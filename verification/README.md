# jil_im

The logic of the jil.im link shortener, verified with Verus.

- `src/state`: the links (`store.rs`: a map from shortname to link, its
  ranking for display, bulk loading), the password hash (bcrypt), how a
  link's creation time is written (chrono, timeago), and the sync of counts.
- `src/redirect.rs`: following a shortlink (golink) and counting the visit.
- `src/create`, `src/list`: the creation form and the list page's edit and
  delete buttons, as decisions taken before and after each request to the
  storage API. A link is created or deleted only with an `Approval`, which
  only a matching check of the web password against the state's own hash
  gives; the state's fields are not open to callers.
- `src/api_client`: addresses, headers and answers of the storage API.
- `src/util`: flash-message bookkeeping, the referer redirect, page errors.
- `app/`: the web service around the library (axum, sessions, HTTP requests,
  JSON, pages). Two things there are its own: the pages are written out by
  hand (the page templates are not part of these sources), and the click
  counts are posted to `shortener/sync-stats` on the storage API, a path
  chosen to mirror the service's own route, since the storage API's path for
  that request is not given anywhere in these sources.
