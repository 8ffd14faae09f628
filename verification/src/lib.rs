//! AlphaTheta / Pioneer PRO DJ LINK protocol: packet layouts, rekordbox
//! database and analysis file readers, and audio tag parsers.

pub mod artwork;
pub mod bytes;
pub mod constants;
pub mod control;
pub mod db;
pub mod devices;
pub mod entities;
pub mod error;
pub mod localdb;
pub mod logger;
pub mod metadata;
pub mod mixstatus;
pub mod network;
pub mod text;
pub mod types;
pub mod utils;
