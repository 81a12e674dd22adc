//! Verified core of a command-line client for the ElevenLabs API: key
//! resolution and config defaults, dialogue input parsing and request
//! shaping, pronunciation-dictionary rules, knowledge-base attachment,
//! phone/WhatsApp request validation and voice-name resolution.

pub mod agents;
pub mod audio;
pub mod cli;
pub mod config;
pub mod dialogue;
pub mod dict;
pub mod error;
pub mod json;
pub mod knowledge;
pub mod music;
pub mod output;
pub mod phone;
pub mod text;
pub mod voices;
