//! The OneLibrary database schema: the values its coded columns take.

pub mod cue_kind;
pub mod playlist_attribute;
pub mod my_tag_attribute;
pub mod menu_item_kind;
