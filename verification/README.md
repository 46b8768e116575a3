# youtube_map

Backend logic for a map of YouTube travel videos: given a channel (by id,
custom URL or user name) it fetches the channel and its latest videos from the
YouTube Data API, stores them in MongoDB, and serves the stored channel while
fewer than eight whole days have passed since it was fetched. Videos without recorded coordinates get them from
a location service that reads the video title.

Layout:

- `src/` — the library, verified with Verus:
  - `model.rs` — channel, video, topic and location records;
  - `text.rs` — character-level helpers (splitting, parsing numbers, hex);
  - `json.rs` — reading response bodies through serde_json;
  - `clock.rs` — current time and whole-day differences (chrono, bson);
  - `request.rs` — the GET requests the library asks to have sent;
  - `youtube_api.rs` — URL checks, map colors, channel requests and responses;
  - `playlist.rs` — the paged loader of a channel's videos;
  - `router.rs` — the refresh policy and the steps of a channel lookup.
- `app/` — the server: configuration, MongoDB, HTTP routes and requests.
- `tests/` — tests of the library.
