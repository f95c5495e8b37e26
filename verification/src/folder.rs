//! Entities describing a folder of documents: the workspace list, the view
//! hierarchy, per-user favorites, and trashed items.

use vstd::prelude::*;

verus! {

/// One workspace a user can open.
pub struct Workspace {
    pub id: String,
    pub name: String,
    pub created_at: i64,
}

/// One view in the folder hierarchy.
pub struct FolderView {
    pub id: String,
    pub parent_view_id: String,
    pub name: String,
    pub created_at: i64,
}

/// Favorite view ids grouped by user id.
pub struct FavoritesByUid {
    pub entries: Vec<(i64, Vec<String>)>,
}

impl core::default::Default for FavoritesByUid {
    fn default() -> (r: Self)
        ensures
            r.entries@.len() == 0,
    {
        FavoritesByUid { entries: Vec::new() }
    }
}

/// A snapshot of the whole folder: the current workspace and view, every
/// workspace and view, and the favorites.
pub struct FolderData {
    pub current_workspace_id: String,
    pub current_view: String,
    pub workspaces: Vec<Workspace>,
    pub views: Vec<FolderView>,
    pub favorites: FavoritesByUid,
}

/// A trashed item: its id, its display name, and when it was created.
pub struct TrashInfo {
    pub id: String,
    pub name: String,
    pub created_at: i64,
}

impl TrashInfo {
    /// The id is the canonical string form of a trashed item.
    pub fn as_ref(&self) -> (r: &str)
        ensures
            r@ == self.id@,
    {
        self.id.as_str()
    }
}

} // verus!
