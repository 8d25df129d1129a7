# Feed Parrot

Feed Parrot posts the new entries of RSS, Atom and JSON feeds to Mastodon.

- `src/` is the library, verified with Verus: reading settings (the delay
  between posts, services, visibility), the model of feeds and their items,
  the crawler's decisions (conditional requests, the size limit of a body,
  character sets, which feed format a body is in), the composition of a
  status from an item's title or summary, link and hashtags, its content
  shortened when the whole measures more than Mastodon's limit (links and
  mentions counted as Mastodon counts them), the record of posts
  made, and the plan of a run (which feeds, which items, in which order).
- `app/` is the program around it: options, the database (redb), HTTP
  (reqwest), JSON and MessagePack, and the loop of a run.
- `tests/` exercises the library on concrete values.
