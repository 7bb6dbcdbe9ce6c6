# markov_bot

The logic of a Discord bot that learns sentences from a server's messages and
generates new ones with a Markov chain, plays music in voice channels, answers
tags and listeners, and posts memes, verified with Verus.

- `src/` is the verified library. `markov.rs` is the Markov chain (corpus
  tables, adding data, generating); `chain.rs`, `message_filter.rs` and
  `data_set.rs` decide which messages are saved and how; `queue.rs` and
  `voice.rs` hold the music queue and the replies about it; `tags.rs`,
  `blacklist.rs`, `memes.rs`, `download.rs` and `commands.rs` hold the rest of
  the bot's rules. Calls into `regex`, `rand` and `file-format` go through
  small trusted wrappers whose contracts say what those crates document.
- `tests/` runs the library on concrete values.
- `app/` is a command-line front end: it generates a sentence, adds and cleans
  saved messages, rebuilds the stored corpus and downloads the file a link
  points to with `yt-dlp`.
