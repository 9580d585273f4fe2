# master

The logic of a Minecraft launcher platform's master server, written in
Verus. Every function in `src/` carries a contract; Verus proves them all
but those of the few `external_body` wrappers around outside crates
(hashing, HMAC, time, URL parsing, randomness), whose contracts are
trusted and say in their doc comments what they claim.

- `store`, `gc`, `digest`: the content-addressed file store (objects under
  `files/{sha1[0..2]}/{sha1[2..4]}/{sha1}`) and the collector that finds
  objects nothing refers to any more.
- `s3`: AWS Signature Version 4 for uploads to S3-compatible storage.
- `manifest`, `servers`: how a build manifest is assembled and what it
  lists, and the entry the launcher shows for each server (loader, entry
  point, players online).
- `schedule`: cron expressions, times of day and intervals of restart
  schedules, and what a due schedule does.
- `rules`, `moderation`: the rulebook with its translations, sanctions,
  punishments, impersonation grants, the blocklist and case verdicts.
- `accounts`, `oauth`: sign-in methods, linked platforms, Minecraft names,
  recovery codes and OAuth applications' return addresses.
- `hierarchy`: parent links of roles and rule categories, and the guard
  that keeps them free of cycles.
- `launcher`, `dotenv`, `migrations`, `web`: launcher builds on GitHub
  Actions, the `.env` file, the migrations directory and CORS.
- `error`: how a refused or failed request is answered (status, code,
  message, the fields of a refused form).
- `text`, `time`: characters, trimming and splitting; UTC instants.

`app/` is a small command line around the library that does the I/O:
the store's garbage collection against the database, the expiry sweep,
the server list, storing and downloading files, issuing recovery codes,
finding a free Minecraft name, assembling a manifest, uploads to S3, the
launcher's release workflow and a pass of the restart scheduler. `tests/`
exercises the library.
