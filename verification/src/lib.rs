//! Realtime speech translation: the decisions of the capture, transcription,
//! translation and synthesis pipeline.

pub mod calendar;
pub mod capture;
pub mod cli;
pub mod clock;
pub mod config;
pub mod deepgram;
pub mod deepl;
pub mod elevenlabs;
pub mod events;
pub mod json;
pub mod nodes;
pub mod pcm;
pub mod playback;
pub mod resample;
pub mod ring;
pub mod session_log;
pub mod state;
pub mod text;
pub mod track;
pub mod transcript;
