//! Verified core of a Discord voice bot: text-to-speech of chat messages
//! and a music queue, with the decisions and texts that its commands and
//! voice events produce.

pub mod text;
pub mod music;
pub mod voice;
pub mod voicevox;
