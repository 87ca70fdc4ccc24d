//! A bot that watches Gerrit reviews and tells the owners of changes in Spark about new votes.
//!
//! [`update::update`] is the controller: it takes an action and the state of the bot, and returns
//! the next state and what is to be sent. The state is a [`bot::Bot`]: the users with their
//! filters, and the memory of the messages that were sent lately.
//!
//! The messages about votes are formatted by a script that the library does not run. Where one is
//! needed, the controller hands out a question, and [`update::resume`] goes on with the answer.
pub mod bot;
pub mod cache;
pub mod gerrit;
pub mod laws;
pub mod notify;
pub mod outside;
pub mod pending;
pub mod spark;
pub mod text;
pub mod update;
pub mod users;
