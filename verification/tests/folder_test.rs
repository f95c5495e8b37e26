use docsync::folder::{FavoritesByUid, FolderData, FolderView, TrashInfo, Workspace};

#[test]
fn trash_info_reads_as_its_id() {
    let info = TrashInfo {
        id: "t1".to_string(),
        name: "old doc".to_string(),
        created_at: 17,
    };
    assert_eq!(info.as_ref(), "t1");
}

#[test]
fn folder_data_holds_its_parts() {
    let data = FolderData {
        current_workspace_id: "w1".to_string(),
        current_view: "v1".to_string(),
        workspaces: vec![Workspace {
            id: "w1".to_string(),
            name: "home".to_string(),
            created_at: 1,
        }],
        views: vec![FolderView {
            id: "v1".to_string(),
            parent_view_id: "w1".to_string(),
            name: "inbox".to_string(),
            created_at: 2,
        }],
        favorites: Default::default(),
    };
    assert_eq!(data.workspaces.len(), 1);
    assert_eq!(data.views[0].parent_view_id, "w1".to_string());
    assert!(data.favorites.entries.is_empty());
}

#[test]
fn favorites_default_is_empty() {
    let favorites: FavoritesByUid = Default::default();
    assert_eq!(favorites.entries.len(), 0);
}
