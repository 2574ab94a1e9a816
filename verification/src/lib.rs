//! Prompt-to-music composer: the verified core of a terminal tool that asks a
//! language model for a JSON pattern of notes, then renders and plays it.

pub mod cli;
pub mod text;
pub mod llm;
pub mod plan;
pub mod wav;
pub mod notes;
pub mod synth;
pub mod numerals;
pub mod duration;
pub mod song;
pub mod player;
