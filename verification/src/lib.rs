//! A Telegram survey bot's logic: the survey configuration and each user's
//! collected answers, the messages sent to the language model, the reading
//! of its replies, the bot's commands and the export of the answers.
pub mod commands;
pub mod dialogue;
pub mod export;
pub mod json;
pub mod laws;
pub mod reply;
pub mod survey;
pub mod text;
