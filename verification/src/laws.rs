//! What holds of the bot as a whole.
pub mod calls;
pub mod commands;
pub mod dialog;
pub mod lines;
pub mod memory;
pub mod notices;
pub mod replies;
pub mod series;
pub mod votes;
pub mod wording;
