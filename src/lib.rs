//! Dice notation for a chat bot: parse a roll request, roll it, render the reply.

pub mod handler;
pub mod laws;
pub mod notation;
pub mod resolve;
pub mod seed;
pub mod text;
