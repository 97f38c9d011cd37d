# weekly_ad_recipes

A server that finds the weekly grocery deals near a zip code (from Flipp
flyers, the H Mart flyer images, Whole Foods' sales flyer page, or screenshots
of a chain's weekly ad), categorizes them with a language model, and suggests
meals built on what is on sale.

- `src/` is the verified library (Verus): parsing and reading of flyer data
  and model answers, the content of every model request apart from the model name, which is a
  setting,, deal hashing and the
  hash cache, in-flight deduplication, thumbnail cutting, location and error
  rules, settings. Each public function states its result in its `ensures`;
  the laws that span several calls are public proof functions.
- `app/` is the server around it: HTTP endpoints (axum), the SQLite store
  (sqlx), requests to outside services (reqwest, headless Chrome), the request
  loop to the model API, and the zip-code distances, which are floating point.
- `tests/` runs the library on concrete values.

Settings come from the environment: `DATABASE_URL` (default
`sqlite:data.db`), `ANTHROPIC_API_KEY`, `PORT` (default 3001), and the two
model identifiers `SMALL_MODEL` (categorizing, item images) and `LARGE_MODEL`
(flyers, screenshots, meal ideas). The two model identifiers are required:
the server does not start without them.
