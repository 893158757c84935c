//! A programmable music pattern engine: script callbacks are evaluated once per
//! rhythmic pulse, their results are normalised into timestamped events, and a
//! scheduler turns those events into sample-accurate voice commands.
//!
//! Every fractional quantity (volume, panning, delay, glide, tempo, seconds,
//! beats) is an integer count of millionths, see [`time::MICRO`].

pub mod bindings;
pub mod callback;
pub mod context;
pub mod display;
pub mod emitter;
pub mod event;
pub mod note;
pub mod note_name;
pub mod parameter;
pub mod pattern;
pub mod player;
pub mod player_model;
pub mod pool;
pub mod script;
pub mod sequence;
pub mod takeover;
pub mod text;
pub mod time;
pub mod transpiler;
pub mod voice;
