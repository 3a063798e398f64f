//! The logic of an audio splitter: cue sheets, track detection, FLAC export and
//! the editor that ties them together.

pub mod app;
pub mod app_laws;
pub mod audio;
pub mod comments;
pub mod cue;
pub mod cue_laws;
pub mod detect;
pub mod export_laws;
pub mod flac;
pub mod flac_export;
pub mod keys;
pub mod markers;
pub mod number;
pub mod playback_laws;
pub mod player;
pub mod sample;
pub mod sheet_laws;
pub mod sort;
pub mod text;
pub mod text_laws;
pub mod view_laws;
pub mod waveform;
