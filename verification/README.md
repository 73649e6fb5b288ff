# survey_bot

A Telegram bot that interviews users on behalf of a language model: the
model is given a prompt listing the parameters to collect (by default name
and phone), asks the user questions, and records the values it recognises
through a `set_params` tool call. Collected answers can be exported as CSV.

Layout:

- `src/` — the verified library (Verus):
  - `survey.rs`: survey configuration, stored user data, the messages sent
    to the model (prompt with parameter listing, history within a byte limit);
  - `dialogue.rs`: one round of questions (recording tool-call values, at
    most three attempts) and token accounting;
  - `reply.rs`, `json.rs`: reading the model's reply from parsed JSON;
  - `commands.rs`: the bot commands and the `/prompt` and `/params` updates;
  - `export.rs`: the table sent by `/export_csv`;
  - `text.rs`: character-level text handling;
  - `laws.rs`: properties spanning several operations.
- `app/main.rs` — the program: Telegram dispatch (teloxide), SQLite storage
  (rusqlite), OpenAI requests (reqwest), JSON (serde_json), CSV files.
- `tests/` — tests of the library.
