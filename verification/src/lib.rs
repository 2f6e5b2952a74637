//! Decoder for CD+G and CD+EG subchannel graphics, with the playback, export
//! and disc-image rules of a player built on it.

pub mod archive_laws;
pub mod cdg;
pub mod decoding_laws;
pub mod disc;
pub mod disc_laws;
pub mod export;
pub mod export_laws;
pub mod ffmpeg;
pub mod ffmpeg_laws;
pub mod fonts;
pub mod icon;
pub mod marks;
pub mod marks_laws;
pub mod playback;
pub mod player;
pub mod playing_laws;
pub mod renderer;
pub mod renderer_laws;
pub mod session;
pub mod text;
pub mod text_laws;
