//! The screens of a terminal music player, as verified layout.
//!
//! Every pane is a function from plain state to a [`scene::Scene`]: what is
//! printed, where, in which colours, and which cells answer a click. A front
//! end paints the scene and owns the terminal, the clock and the network.

pub mod text;
pub mod geometry;
pub mod theme;
pub mod columns;
pub mod scene;
pub mod state;
pub mod play_state;
pub mod table;
pub mod deck;
pub mod trail;
pub mod top_row;
pub mod now_playing;
pub mod player;
pub mod playlist_picker;
pub mod playlist_edit;
pub mod bio;
pub mod art_zoom;
pub mod help;
pub mod rows;
pub mod tables;
pub mod message;
pub mod tabs;
pub mod home;
pub mod band;
pub mod artist_page;
pub mod artist_body;
pub mod main_pane;
pub mod search_page;
pub mod screen;
pub mod spectrum;
pub mod reading;
