# language_bot

A Discord bot that watches for bad language, greets new members, counts command
use, shows an editable "about" text and lets moderators remove members.

- `src/` is the verified library (Verus): the language filter, the command counter,
  the about text, the "admin" role check, the replies of every command, and the step
  function of `remove_member`.
- `app/main.rs` is the bot: serenity's client and standard framework, the tokio
  runtime, and the locks around shared state. It asks the library what to do.
- `tests/` runs the library on concrete inputs.
