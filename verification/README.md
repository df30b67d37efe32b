# laterite_admin

The logic of the Laterite admin panel, written in Verus: every function of the library
states what it returns or changes, and Verus proves it.

- `src/` is the library. It decides; it does no I/O. What it takes from outside crates
  (SQL building, JSON, CSV, hashing, time zones, address ranges, randomness) goes
  through a few trusted items, each with its contract beside the call.
- `tests/` runs the library on concrete values, with the outside crates linked.
- `app/` is ordinary Rust around the library: an axum router, sqlx, and the trait an
  application implements to supply its accounts and its markup.

How the library is laid out:

| Modules | What they hold |
| --- | --- |
| `panel`, `mount`, `resource`, `routes`, `routemap`, `nav`, `assets`, `icons` | booting a panel from what modules contribute, and the routes it serves |
| `guard`, `session`, `cookies`, `signin`, `upload`, `clientip`, `access` | who may do what: sessions, request tokens, sign-in, permissions |
| `list`, `list_query`, `table`, `list_view`, `list_screen`, `list_work`, `cells`, `export`, `bulk` | list screens: sorting, filtering, paging, exporting, deleting |
| `field`, `field_view`, `contributed`, `repeater`, `form`, `attr`, `persist`, `picker`, `descriptor` | forms: reading a submission into a record, and the course of a save |
| `settings`, `store`, `preferences`, `users`, `roles`, `plugins`, `audit` | the built-in screens |
| `text`, `locale`, `zones`, `error`, `html`, `http_cache`, `reply` | text, languages, times and answers |
| `statements`, `sql`, `json`, `order`, `strs`, `nums`, `unicode`, `grouping`, `sources`, `screen`, `bootstrap` | what the others share |

A law of the library is a public proof function whose name begins with `law_`.
