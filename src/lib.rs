//! Playback engine of a streaming hi-fi music player: the tracklist with its
//! status invariants, the accounting of the audio sink, and the decisions of
//! the player loop, each stated and proved over mathematical models.

pub mod catalog;
pub mod connect;
pub mod downloads;
pub mod models;
pub mod player;
pub mod selection;
pub mod sink;
pub mod tracklist;
pub mod views;
