use editor_element::workspace_model::{
    Axis, DockAnchor, SerializedItem, SerializedItemKind, SerializedPane, SerializedPaneGroup,
    SerializedWorkspace, StoredValueError, WorkspaceId,
};

#[test]
fn dock_anchor_text_round_trips() {
    for anchor in [DockAnchor::Bottom, DockAnchor::Right, DockAnchor::Expanded] {
        let text = anchor.as_text().to_string();
        assert_eq!(DockAnchor::from_text(&text), Ok(anchor));
    }
    assert_eq!(DockAnchor::Expanded.as_text(), "Expanded");
}

#[test]
fn dock_anchor_rejects_unknown_text() {
    assert_eq!(
        DockAnchor::from_text(&"Left".to_string()),
        Err(StoredValueError::UnknownDockAnchor)
    );
    assert_eq!(
        DockAnchor::from_text(&"bottom".to_string()),
        Err(StoredValueError::UnknownDockAnchor)
    );
}

#[test]
fn axis_text_round_trips() {
    assert_eq!(Axis::from_text(&"Vertical".to_string()), Ok(Axis::Vertical));
    assert_eq!(Axis::from_text(&"Horizontal".to_string()), Ok(Axis::Horizontal));
    assert_eq!(Axis::Vertical.as_text(), "Vertical");
    assert_eq!(Axis::from_text(&"".to_string()), Err(StoredValueError::UnknownAxis));
}

#[test]
fn item_kind_text_round_trips() {
    for kind in [
        SerializedItemKind::Editor,
        SerializedItemKind::Diagnostics,
        SerializedItemKind::ProjectSearch,
        SerializedItemKind::Terminal,
    ] {
        let text = kind.as_text().to_string();
        assert_eq!(SerializedItemKind::from_text(&text), Ok(kind));
    }
    assert_eq!(
        SerializedItemKind::from_text(&"Notebook".to_string()),
        Err(StoredValueError::UnknownItemKind)
    );
}

#[test]
fn defaults() {
    assert_eq!(DockAnchor::default(), DockAnchor::Bottom);
    assert_eq!(Axis::default(), Axis::Horizontal);
    assert_eq!(
        SerializedPaneGroup::default(),
        SerializedPaneGroup::Group {
            axis: Axis::Horizontal,
            children: vec![SerializedPaneGroup::Pane(SerializedPane::new(vec![]))],
        }
    );
}

#[test]
fn item_ids_and_kinds() {
    let items = vec![
        SerializedItem::Editor { item_id: 3, path: "/a/b.rs".to_string() },
        SerializedItem::Diagnostics { item_id: 5 },
        SerializedItem::ProjectSearch { item_id: 8, query: "fn".to_string() },
        SerializedItem::Terminal { item_id: 13 },
    ];
    let ids: Vec<usize> = items.iter().map(|i| i.item_id()).collect();
    assert_eq!(ids, vec![3, 5, 8, 13]);
    let kinds: Vec<SerializedItemKind> = items.iter().map(|i| i.kind()).collect();
    assert_eq!(
        kinds,
        vec![
            SerializedItemKind::Editor,
            SerializedItemKind::Diagnostics,
            SerializedItemKind::ProjectSearch,
            SerializedItemKind::Terminal
        ]
    );
    let pane = SerializedPane::new(items.clone());
    assert_eq!(pane.children, items);
}

#[test]
fn workspace_id_sorts_its_roots() {
    let id = WorkspaceId::from_paths(vec!["\test2".to_string(), "\test1".to_string()]);
    assert_eq!(
        id,
        WorkspaceId::from_paths(vec!["\test1".to_string(), "\test2".to_string()])
    );
    assert_eq!(id.paths(), vec!["\test1".to_string(), "\test2".to_string()]);
}

#[test]
fn workspace_id_blob_round_trips() {
    let id = WorkspaceId::from_paths(vec!["/b".to_string(), "/a".to_string()]);
    let blob = id.to_blob();
    // a length, then each string's length and bytes
    assert_eq!(blob.len(), 8 + 8 + 2 + 8 + 2);
    assert_eq!(&blob[0..8], &2u64.to_le_bytes());
    assert_eq!(&blob[16..18], b"/a");
    assert_eq!(WorkspaceId::from_blob(&blob), Ok(id));
}

#[test]
fn workspace_id_rejects_short_blob() {
    assert_eq!(
        WorkspaceId::from_blob(&[1, 0, 0]),
        Err(StoredValueError::UnreadablePaths)
    );
}

#[test]
fn serialized_workspace_compares_by_fields() {
    let a = SerializedWorkspace {
        dock_anchor: DockAnchor::Right,
        dock_visible: true,
        center_group: SerializedPaneGroup::default(),
        dock_pane: SerializedPane::default(),
    };
    let b = SerializedWorkspace {
        dock_anchor: DockAnchor::Right,
        dock_visible: true,
        center_group: SerializedPaneGroup::default(),
        dock_pane: SerializedPane::default(),
    };
    assert_eq!(a, b);
}

#[test]
fn workspace_roots_sort_as_paths() {
    // by components "a" comes before "a-b", though '-' sorts before '/'
    let id = WorkspaceId::from_paths(vec!["/a-b".to_string(), "/a/b".to_string(), "/a".to_string()]);
    assert_eq!(
        id.paths(),
        vec!["/a".to_string(), "/a/b".to_string(), "/a-b".to_string()]
    );
}
