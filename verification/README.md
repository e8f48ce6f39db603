# rusty_blitzcrank

The logic of a Discord bot, verified with Verus, and the bot around it.

- `src/` is the verified library: link rewriting (`websites`), the countdown
  shown as the bot's activity (`countdown`), word drawing for names and
  passwords (`words`, `commands::name`, `commands::password`), text styling
  (`commands::freaky`), and what each command replies for the answers of the
  web services it calls (`commands::*`). JSON documents are read through the
  library's own `json::Json` model; strings are handled character by
  character in `text`.
- `app/` is the bot itself: the Discord client (poise/serenity), the HTTP
  requests, the files it reads and the schedule it runs. It hands plain values
  to the library and posts what the library returns.
- `tests/` runs the library on concrete values.
