use docsync::translator::{
    handle_array_event, handle_map_event, parse_layout, span_fits, translate_events, ArrayChange,
    ArrayEventData, ArrayValue, DatabaseViewChange, DocEvent, EntryChange, MapEventData,
    PathSegment,
};
use docsync::views::{AttrMap, DatabaseLayout, DatabaseView, RowId, RowOrder};

fn row(id: i64) -> RowOrder {
    RowOrder {
        id: RowId { value: id },
        block_id: 1,
        height: 60,
    }
}

fn row_orders_path() -> Vec<PathSegment> {
    vec![
        PathSegment::Key("v1".to_string()),
        PathSegment::Key("row_orders".to_string()),
    ]
}

fn sample_view(id: &str) -> DatabaseView {
    DatabaseView {
        id: id.to_string(),
        name: "a view".to_string(),
        layout: DatabaseLayout::Grid,
        row_orders: Vec::new(),
        field_orders: Vec::new(),
    }
}

#[test]
fn retain_then_remove_deletes_index_one() {
    // over a conceptual sequence [A, B, C]: retain 1, remove 1 deletes B
    let event = ArrayEventData {
        path: row_orders_path(),
        delta: vec![ArrayChange::Retain(1), ArrayChange::Removed(1)],
    };
    let events = handle_array_event(&event);
    assert_eq!(events.len(), 1);
    match &events[0] {
        DatabaseViewChange::DidDeleteRowAtIndex { index } => {
            assert_eq!(index, &vec![1u32]);
        }
        other => panic!("expected a deleted-indices event, got {:?}", other),
    }
}

#[test]
fn added_emits_one_insert_event_with_decoded_entry() {
    let event = ArrayEventData {
        path: row_orders_path(),
        delta: vec![ArrayChange::Added(vec![ArrayValue::Row(row(7))])],
    };
    let events = handle_array_event(&event);
    assert_eq!(events.len(), 1);
    match &events[0] {
        DatabaseViewChange::DidInsertRowOrders { row_orders } => {
            assert_eq!(row_orders.len(), 1);
            assert_eq!(row_orders[0].id, RowId { value: 7 });
        }
        other => panic!("expected a row-orders-inserted event, got {:?}", other),
    }
}

#[test]
fn removal_range_accumulates_across_the_batch() {
    // retain 1, remove 2, retain 1, remove 1 over five rows: indices 1,2,4
    let event = ArrayEventData {
        path: row_orders_path(),
        delta: vec![
            ArrayChange::Retain(1),
            ArrayChange::Removed(2),
            ArrayChange::Retain(1),
            ArrayChange::Removed(1),
        ],
    };
    let events = handle_array_event(&event);
    assert_eq!(events.len(), 1);
    match &events[0] {
        DatabaseViewChange::DidDeleteRowAtIndex { index } => {
            assert_eq!(index, &vec![1u32, 2, 4]);
        }
        other => panic!("expected a deleted-indices event, got {:?}", other),
    }
}

#[test]
fn malformed_added_value_is_skipped() {
    let event = ArrayEventData {
        path: row_orders_path(),
        delta: vec![ArrayChange::Added(vec![
            ArrayValue::Malformed,
            ArrayValue::Row(row(3)),
        ])],
    };
    let events = handle_array_event(&event);
    assert_eq!(events.len(), 1);
    match &events[0] {
        DatabaseViewChange::DidInsertRowOrders { row_orders } => {
            assert_eq!(row_orders.len(), 1);
            assert_eq!(row_orders[0].id, RowId { value: 3 });
        }
        other => panic!("expected a row-orders-inserted event, got {:?}", other),
    }
}

#[test]
fn unrecognized_terminal_key_drops_the_delta() {
    let event = ArrayEventData {
        path: vec![
            PathSegment::Key("v1".to_string()),
            PathSegment::Key("banana".to_string()),
        ],
        delta: vec![
            ArrayChange::Added(vec![ArrayValue::Row(row(1))]),
            ArrayChange::Removed(1),
        ],
    };
    assert!(handle_array_event(&event).is_empty());
}

#[test]
fn filter_added_emits_created_filters_for_owning_view() {
    let attrs = AttrMap {
        entries: vec![("field".to_string(), "status".to_string())],
    };
    let event = ArrayEventData {
        path: vec![
            PathSegment::Key("v9".to_string()),
            PathSegment::Key("filters".to_string()),
        ],
        delta: vec![ArrayChange::Added(vec![ArrayValue::Attrs(attrs)])],
    };
    let events = handle_array_event(&event);
    assert_eq!(events.len(), 1);
    match &events[0] {
        DatabaseViewChange::DidCreateFilters { view_id, filters } => {
            assert_eq!(view_id, &"v9".to_string());
            assert_eq!(filters.len(), 1);
            assert_eq!(filters[0].entries[0].1, "status".to_string());
        }
        other => panic!("expected a filters-created event, got {:?}", other),
    }
}

#[test]
fn filter_removal_notifies_owning_view() {
    let event = ArrayEventData {
        path: vec![
            PathSegment::Key("v9".to_string()),
            PathSegment::Key("filters".to_string()),
        ],
        delta: vec![ArrayChange::Removed(1)],
    };
    let events = handle_array_event(&event);
    assert_eq!(events.len(), 1);
    match &events[0] {
        DatabaseViewChange::DidUpdateFilter { view_id } => {
            assert_eq!(view_id, &"v9".to_string());
        }
        other => panic!("expected a filter-updated event, got {:?}", other),
    }
}

#[test]
fn layout_update_emits_both_events() {
    // an update on the layout key with value "grid" emits a view-updated
    // event and a layout-changed event carrying the parsed layout
    let event = MapEventData {
        target_view_id: "v1".to_string(),
        keys: vec![(
            "layout".to_string(),
            EntryChange::Updated("grid".to_string(), Some(sample_view("v1"))),
        )],
    };
    let events = handle_map_event(&event);
    assert_eq!(events.len(), 2);
    assert!(matches!(
        events[0],
        DatabaseViewChange::DidUpdateView { .. }
    ));
    match &events[1] {
        DatabaseViewChange::LayoutSettingChanged {
            view_id,
            layout_type,
        } => {
            assert_eq!(view_id, &"v1".to_string());
            assert_eq!(*layout_type, DatabaseLayout::Grid);
        }
        other => panic!("expected a layout-changed event, got {:?}", other),
    }
}

#[test]
fn non_layout_update_emits_only_view_updated() {
    let event = MapEventData {
        target_view_id: "v1".to_string(),
        keys: vec![(
            "name".to_string(),
            EntryChange::Updated("grid".to_string(), Some(sample_view("v1"))),
        )],
    };
    let events = handle_map_event(&event);
    assert_eq!(events.len(), 1);
    assert!(matches!(
        events[0],
        DatabaseViewChange::DidUpdateView { .. }
    ));
}

#[test]
fn insertion_emits_view_created() {
    let event = MapEventData {
        target_view_id: "v2".to_string(),
        keys: vec![(
            "v2".to_string(),
            EntryChange::Inserted(Some(sample_view("v2"))),
        )],
    };
    let events = handle_map_event(&event);
    assert_eq!(events.len(), 1);
    match &events[0] {
        DatabaseViewChange::DidCreateView { view } => {
            assert_eq!(view.id, "v2".to_string());
        }
        other => panic!("expected a view-created event, got {:?}", other),
    }
}

#[test]
fn removal_with_empty_key_is_suppressed() {
    let event = MapEventData {
        target_view_id: "v1".to_string(),
        keys: vec![
            ("".to_string(), EntryChange::Removed),
            ("v3".to_string(), EntryChange::Removed),
        ],
    };
    let events = handle_map_event(&event);
    assert_eq!(events.len(), 1);
    match &events[0] {
        DatabaseViewChange::DidDeleteView { view_id } => {
            assert_eq!(view_id, &"v3".to_string());
        }
        other => panic!("expected a view-deleted event, got {:?}", other),
    }
}

#[test]
fn parse_layout_accepts_the_three_layouts() {
    assert_eq!(parse_layout("grid"), Some(DatabaseLayout::Grid));
    assert_eq!(parse_layout("board"), Some(DatabaseLayout::Board));
    assert_eq!(parse_layout("calendar"), Some(DatabaseLayout::Calendar));
    assert_eq!(parse_layout("waterfall"), None);
}

#[test]
fn event_batches_translate_in_order() {
    let array_event = ArrayEventData {
        path: row_orders_path(),
        delta: vec![ArrayChange::Added(vec![ArrayValue::Row(row(1))])],
    };
    let map_event = MapEventData {
        target_view_id: "v1".to_string(),
        keys: vec![("v4".to_string(), EntryChange::Removed)],
    };
    let events = translate_events(&vec![
        DocEvent::Text,
        DocEvent::Array(array_event),
        DocEvent::MapChange(map_event),
    ]);
    assert_eq!(events.len(), 2);
    assert!(matches!(
        events[0],
        DatabaseViewChange::DidInsertRowOrders { .. }
    ));
    assert!(matches!(
        events[1],
        DatabaseViewChange::DidDeleteView { .. }
    ));
}

#[test]
fn span_fits_bounds_the_running_offset() {
    let small = vec![
        ArrayChange::Retain(10),
        ArrayChange::Added(vec![ArrayValue::Row(row(1))]),
        ArrayChange::Removed(5),
    ];
    assert!(span_fits(&small));
    let oversized = vec![ArrayChange::Retain(u32::MAX), ArrayChange::Removed(1)];
    assert!(!span_fits(&oversized));
}
