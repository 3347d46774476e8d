# jigsaw

The verified core of a Telegram jigsaw puzzle service, written in Verus.

A picture sent to the Telegram bot is cut by the generator into square tiles
whose sides interlock; players solve the puzzle together in a Mini App that
talks to the server over a websocket.

## Layout

- `src/` — the library, verified by Verus:
  - `connections`, `outline`, `layout`: how a picture is cut — which sides of
    neighbouring pieces interlock, the outline of every piece, and the plan of
    every tile.
  - `model`: puzzles, tiles, players, and the requests and events between the
    services.
  - `ids`, `redis_scheme`, `paths`, `storage`: UUIDs and their text, the Redis
    keys, file paths, and where the generator keeps the pictures.
  - `init_data`, `auth`: the validation of Telegram Mini App credentials.
  - `message`, `play`, `session`, `channels`, `server`: the websocket protocol,
    the rules of play, the life of a session and the broadcast channels.
  - `bot`: the bot's answers, links and requests.
- `tests/` — tests of the library.
- `app/` — the three services (`backend`, `generator`, `bot`) around the
  library: I/O, image processing, and the wire formats.
