//! The logic of an audio player: playlists in tabs, playing, settings and the
//! tray, as a state that messages change and effects that come of them.
pub mod app;
pub mod buffer;
pub mod controls;
pub mod device;
pub mod edits;
pub mod engine;
pub mod files;
pub mod input;
pub mod laws;
pub mod names;
pub mod order;
pub mod path;
pub mod playlist;
pub mod pls;
pub mod promises;
pub mod reorder;
pub mod round_trip;
pub mod settings;
pub mod setup;
pub mod shown;
pub mod sound;
pub mod store;
pub mod text;
pub mod title;
pub mod tray;
pub mod update;
pub mod view;
pub mod views;
