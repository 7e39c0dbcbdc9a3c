# lyrics_status

Shows the synchronised lyrics of the song playing on Spotify as a Discord
custom status, line by line.

`src/` is a library verified with Verus:

- `lrc`: the LRC lyrics format, read into lines ordered by time.
- `status`: the status text (plain form or template with placeholders, at most
  128 characters), the emoji syntax, and the decisions of the status loop
  (which line to send, never the same line twice for one song, the automatic
  offset from send latencies).
- `spotify`: the decisions of the playback poller (token choice, treatment of
  the player's answers, track updates, track-name cleanup).
- `sources`: what each lyrics provider's answer must hold to give lyrics.
- `lyrics_fetcher`: the cache first, then the providers in order; cache files
  named by SHA-256.
- `translation`: what is translated, which answers are kept, and the memory of
  translations.
- `settings`, `models`, `text`: configuration with its defaults, shared data,
  and character-level text operations.

`app/` is the program around it: HTTP requests, files, the settings panel, the
JSON forms of the data, and the asynchronous loops.
