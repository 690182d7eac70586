# discord_bot

The logic of a Discord bot, with machine-checked proofs of its contracts, and
the runtime that runs it.

- `src/` — the verified library: the slash commands as data and the handler
  each one dispatches to; the decisions of the voice commands and of clearing
  the bot's messages; the registry of live embeds (one per guild or channel)
  and the stepping of their animations; the reader of animation files; the
  rendering of host readings (byte counts, CPU load) and of the embeds.
- `tests/` — tests of the library, including comparisons with the standard
  library's number formatting and line reading.
- `app/` — the bot itself: the serenity client and event handler, songbird
  voice, file and network I/O, and the tokio tasks that edit live embeds.
