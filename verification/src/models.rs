//! Data shared by parsers, searchers and the session front end.

pub mod line_info;
pub mod lyrics_data;
pub mod lyrics_types;
pub mod music_player;
pub mod session;
pub mod track_metadata;
