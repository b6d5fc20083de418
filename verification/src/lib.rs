//! The model behind a Discord bot that keeps, for each guild, a post listing
//! game categories and the games in them, each game with the emoji that
//! members react with.
//!
//! - [`model`]: the per-guild state (the post's location and the categories).
//! - [`named`]: sequences of named entries, each name at most once.
//! - [`laws`]: what holds of the state's operations taken together.
//! - [`text`]: how message text is built, on top of serenity's `MessageBuilder`.
//! - [`emoji`]: custom emojis and their parsing.
//! - [`post`]: the text of a guild's post.
//! - [`commands`]: what each management command does to the state and replies.
//! - [`events`]: the decisions taken on gateway events and permission checks.

pub mod commands;
pub mod emoji;
pub mod laws;
pub mod events;
pub mod model;
pub mod named;
pub mod post;
pub mod text;
