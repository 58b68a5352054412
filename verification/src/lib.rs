//! Gobcam: animated emoji reactions composited onto a webcam feed and
//! written to a v4l2loopback device. This library holds the logic of the
//! pipeline daemon and of its desktop panel: wire types, listing
//! parsers, the reactor and its slots, cascade curves, the asset catalog
//! and caches, preferences and settings, and daemon supervision.

use vstd::prelude::*;

pub mod animation;
pub mod bootstrap;
pub mod cache;
pub mod commands;
pub mod config;
pub mod daemon;
pub mod decode;
pub mod decode_cache;
pub mod effects;
pub mod hotkeys;
pub mod inputs;
pub mod library;
pub mod loopback;
pub mod pipeline;
pub mod prefs;
pub mod preview;
pub mod protocol;
pub mod reactions;
pub mod reactor;
pub mod reply_text;
pub mod safe_mode;
pub mod slots;
pub mod text;
