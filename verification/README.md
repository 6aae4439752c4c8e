# matrix-bot

A Matrix chat bot whose decisions are verified with Verus.

The bot converts units written in messages, links GitHub issues and pull
requests (`repo#1234`), links configured pages (`keyword@item`), expands
configured texts (`$keyword`), pings groups of users (`%group`), corrects a
configured list of misspellings, answers `!help`, `!convert` and `!ban`,
accepts invites from its administrators, and relays messages posted to a
webhook.

## Layout

- `src/` is the verified library. Each message grammar is a scanner with a
  specification (`quantity`, `command`, `mentions`, `basic`, `cleaning`);
  the configuration rules are in `config`; the decisions of the listener
  (`listener`, `commandless`, `help`, `spelling`, `dice`, `webhook`) take
  plain values and return what is to be sent; `response` builds the
  replies; `storage` keeps the state; `laws` proves properties that span
  several functions.
- `app/` is the program around it: reading `config.toml`, logging, the
  Matrix client-server API over HTTP, the GitHub GraphQL search, the unit
  arithmetic with floating point numbers, the database and the webhook
  server.
- `tests/` holds the tests, among them a comparison of every scanner with
  the regular expression it implements.
