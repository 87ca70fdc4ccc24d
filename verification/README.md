# gerritbot

A bot that watches Gerrit reviews and tells the owners of changes in Spark about new votes. It is
written in Verus: the contracts state what the bot does, and Verus proves that it does so.

- `src/users.rs`: the users and their filters.
- `src/cache.rs`: the memory of the messages that were sent, a model of an LRU cache.
- `src/gerrit.rs`, `src/spark.rs`: the parts of Gerrit events and of Spark that matter to the bot.
- `src/notify.rs`: who is told about an event, and what.
- `src/pending.rs`: the handling of an event, which pauses for the answers of the script that
  formats messages.
- `src/bot.rs`: the state of the bot and its operations.
- `src/update.rs`: the actions that the bot is asked for, and its answers.
- `src/text.rs`: decimal numerals and joined texts.
- `src/outside.rs`: the calls into `regex`, `lru_time_cache` and the standard library. The contracts of
  this module are trusted.
- `src/laws.rs` and below: what holds of the bot as a whole.
- `app/`: the file that keeps the users, and the run of the script that formats messages.
- `extras/scripts/format.lua`: a formatting script. The bot expects it as `scripts/format.lua` in
  its working directory.
