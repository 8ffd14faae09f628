//! Maps rekordbox pdb table types to orm tables.

use vstd::prelude::*;
use crate::localdb::orm::Table;
use crate::localdb::rekordbox::pdb::PageType;

verus! {

/// The orm table a pdb table type hydrates into.
pub open spec fn table_for(page_type: PageType) -> Option<Table> {
    match page_type {
        PageType::Tracks => Some(Table::Track),
        PageType::Artists => Some(Table::Artist),
        PageType::Genres => Some(Table::Genre),
        PageType::Albums => Some(Table::Album),
        PageType::Labels => Some(Table::Label),
        PageType::Colors => Some(Table::Color),
        PageType::Keys => Some(Table::Key),
        PageType::Artwork => Some(Table::Artwork),
        PageType::PlaylistTree => Some(Table::Playlist),
        PageType::PlaylistEntries => Some(Table::PlaylistEntry),
        _ => None,
    }
}

/// The orm table a pdb table type hydrates into, `None` for tables that are
/// not hydrated.
pub fn pdb_table(page_type: PageType) -> (r: Option<Table>)
    ensures
        r == table_for(page_type),
{
    match page_type {
        PageType::Tracks => Some(Table::Track),
        PageType::Artists => Some(Table::Artist),
        PageType::Genres => Some(Table::Genre),
        PageType::Albums => Some(Table::Album),
        PageType::Labels => Some(Table::Label),
        PageType::Colors => Some(Table::Color),
        PageType::Keys => Some(Table::Key),
        PageType::Artwork => Some(Table::Artwork),
        PageType::PlaylistTree => Some(Table::Playlist),
        PageType::PlaylistEntries => Some(Table::PlaylistEntry),
        // History tables are not hydrated.
        _ => None,
    }
}

} // verus!
