# wilayah_worker

The request-handling core of the wilayah Indonesian village lookup service
(a Cloudflare Worker backed by D1), written in Verus.

- `src/` is the verified library: query-string parameters (`params`, `text`),
  bearer-token authorization (`auth`), cross-origin and caching headers (`cors`),
  JSON error bodies and refusals (`error`), the endpoints' decisions
  (`handlers`), nearest-village ordering (`ranking`) and database batch
  planning (`batch`).
- `app/` is the worker itself: routing, D1 queries, JSON bodies with
  coordinates, and the floating-point geography (coordinate parsing, range
  checks, distances); it calls the library for the other decisions.
- `tests/` exercises the library on concrete requests.
