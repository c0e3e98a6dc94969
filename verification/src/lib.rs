//! Verified core of a music client for Subsonic servers: the play queue, the
//! navigation history, filters, labels and the decisions of the player.
pub mod text;
pub mod common;
pub mod sequence;
pub mod random;
pub mod queue;
pub mod browser;
pub mod pages;
pub mod i18n;
pub mod categories;
pub mod filter_row;
pub mod player;
pub mod selection;
pub mod download;
pub mod cache;
pub mod widgets;
pub mod info;
pub mod login;
pub mod css;
pub mod shown;
pub mod playlists;
pub mod play_info;
pub mod ranking;
pub mod elements;
