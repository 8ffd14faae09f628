//! The types shared by the database adapters: the pdb store and the
//! OneLibrary (exportLibrary.db) adapter.

use vstd::prelude::*;
use crate::entities::{Playlist, PlaylistEntry};

verus! {

/// Database format preference for loading rekordbox databases.
#[derive(Debug, Clone, Copy, PartialEq, Eq, Hash, Structural)]
pub enum DatabasePreference {
    /// Try OneLibrary first (rekordbox 7.x+), fall back to PDB (rekordbox 6.x).
    Auto,
    /// Only use OneLibrary format (exportLibrary.db).
    OneLibrary,
    /// Only use PDB format (export.pdb).
    Pdb,
}

impl Default for DatabasePreference {
    fn default() -> (r: DatabasePreference)
        ensures
            r == DatabasePreference::Auto,
    {
        DatabasePreference::Auto
    }
}

/// Database type identifier.
#[derive(Debug, Clone, Copy, PartialEq, Eq, Hash, Structural)]
pub enum DatabaseType {
    OneLibrary,
    Pdb,
}

/// Result of a playlist query.
#[derive(Debug, Clone, PartialEq, Eq)]
pub struct PlaylistQueryResult {
    pub folders: Vec<Playlist>,
    pub playlists: Vec<Playlist>,
    pub track_entries: Vec<PlaylistEntry>,
}

} // verus!
