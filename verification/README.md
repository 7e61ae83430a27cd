# miai

Talks to XiaoAi speakers: has them speak, play, pause or answer, tells their status, watches the
conversations with them for keywords, and serves all of this to WebSocket clients.

- `src/` is the library. It makes the requests, reads the answers and takes the decisions, and all
  of it is verified with Verus. What it has from other crates (JSON text, addresses, cookies,
  digests, random identifiers) stands behind small functions whose contracts are trusted.
- `tests/` runs the library with the crates it rests on.
- `app/` is the program around it: the command line, HTTP, WebSocket, timers and files.

| Module | What it is about |
| --- | --- |
| `login`, `digest`, `cookies` | logging in, and the cookies that hold a login |
| `xiaoai`, `request`, `form`, `links` | requests to the service |
| `response`, `records`, `messages`, `conversations`, `error` | answers of the service |
| `watcher` | keywords in conversations |
| `api`, `connection`, `clients`, `server` | serving WebSocket clients |
| `config` | the configuration of the program |
| `json`, `text`, `pairs`, `util` | what the others rest on |
