# chat_client

A desktop chat client. The library (`src/`, verified with Verus) holds the
client's logic; the program around it (`app/`) draws the window with eframe,
talks to the chat server over TCP and reads and writes `conf.ini`.

- `text` — substring search, decimal notation, cutting a text to a byte limit.
- `model` — users, chat messages and channels, with their mathematical views.
- `protocol` — the line protocol: signal words, line framing, pushed notices.
- `chat` — merging fetched messages into the bounded chat history; dates.
- `client` — the client state: joining and leaving channels, known channels,
  member lists.
- `app_state` — the window's fields and the rules of its controls.
- `config` — the `[User]` and `[Channels]` sections of the configuration,
  kept in an `ini::Ini` value.
- `ident` — random client ids.
- `laws` — properties that hold across operations.
