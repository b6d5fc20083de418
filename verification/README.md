# guild_games

The model and the message texts of a Discord bot that keeps, in each guild, a
post listing categories of games, each game with the custom emoji that members
react with. Administrators manage the post with commands (`here`,
`add_category`, `remove_category`, `add_game`, `remove_game`); the bot answers
a command with the wrong number of arguments with a usage text, which any
member can delete with a wastebasket reaction.

- `src/` is the library, verified with Verus: the state and its operations
  (`model`), the laws they obey (`laws`), the text of a post (`post`), the
  commands (`commands`), the decisions on gateway events (`events`), custom
  emojis (`emoji`) and message text, built with serenity's `MessageBuilder`
  (`text`).
- `app/` is the bot itself: it connects with serenity, hands the library plain
  values, and posts, edits and reacts as the library says.
- `tests/` runs the library on concrete values.
