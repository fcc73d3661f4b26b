use clipvault::model::{ClipboardItem, DataType, ItemKind};
use clipvault::store::{HistoryStore, StoreError};

fn text_item(content: &str) -> ClipboardItem {
    ClipboardItem {
        id: None,
        content: content.to_string(),
        kind: ItemKind::Text,
        data_type: DataType::PlainText,
        timestamp: "2024-01-01 00:00:00".to_string(),
        is_pinned: false,
        is_sensitive: false,
        source_app: None,
        collection_id: None,
        note: None,
        html_content: None,
    }
}

fn image_item(content: &str) -> ClipboardItem {
    let mut it = text_item(content);
    it.kind = ItemKind::Image;
    it
}

#[test]
fn insert_duplicate_keeps_one_entry_at_front() {
    let mut st = HistoryStore::new();
    st.insert(text_item("a"), 10);
    st.insert(text_item("b"), 10);
    let evicted = st.insert(text_item("a"), 10);
    assert!(evicted.is_empty());
    assert_eq!(st.count(), 2);
    assert_eq!(st.items[0].content, "a");
    assert_eq!(st.items[1].content, "b");
    let dupes = st.items.iter().filter(|x| x.content == "a").count();
    assert_eq!(dupes, 1);
}

#[test]
fn cap_overflow_evicts_exactly_the_oldest() {
    let mut st = HistoryStore::new();
    let cap = 2;
    let mut evicted_total: Vec<ClipboardItem> = Vec::new();
    for name in ["one", "two", "three", "four", "five"] {
        let mut ev = st.insert(text_item(name), cap);
        evicted_total.append(&mut ev);
    }
    // five inserts over a cap of two evict exactly three, oldest first
    assert_eq!(evicted_total.len(), 3);
    assert_eq!(evicted_total[0].content, "one");
    assert_eq!(evicted_total[1].content, "two");
    assert_eq!(evicted_total[2].content, "three");
    assert_eq!(st.count(), 2);
    assert_eq!(st.items[0].content, "five");
    assert_eq!(st.items[1].content, "four");
}

#[test]
fn pinned_items_survive_cap_pressure() {
    let mut st = HistoryStore::new();
    st.insert(text_item("keep me"), 5);
    let id = st.items[0].id.unwrap();
    assert_eq!(st.toggle_pin(id), Ok(true));
    for name in ["a", "b", "c", "d"] {
        st.insert(text_item(name), 1);
    }
    let kept: Vec<&ClipboardItem> = st.items.iter().filter(|x| x.content == "keep me").collect();
    assert_eq!(kept.len(), 1);
    assert!(kept[0].is_pinned);
    // only one non-exempt item remains besides the pinned one
    assert_eq!(st.items.iter().filter(|x| !x.is_pinned).count(), 1);
}

#[test]
fn collected_items_survive_cap_pressure_beyond_cap() {
    let mut st = HistoryStore::new();
    let c = st.create_collection("refs".to_string());
    for name in ["x", "y", "z"] {
        st.insert(text_item(name), 10);
        let id = st.items[0].id.unwrap();
        st.set_item_collection(id, Some(c.id)).unwrap();
    }
    // three collected items exceed a cap of one and all survive
    let ev = st.insert(text_item("w"), 1);
    assert!(ev.is_empty());
    assert_eq!(st.count(), 4);
}

#[test]
fn pages_never_overlap() {
    let mut st = HistoryStore::new();
    for name in ["a", "b", "c", "d", "e"] {
        st.insert(text_item(name), 10);
    }
    let p1 = st.get(1, 2, &None, false, false, None).unwrap();
    let p2 = st.get(2, 2, &None, false, false, None).unwrap();
    assert_eq!(p1.len(), 2);
    assert_eq!(p2.len(), 2);
    for a in &p1 {
        for b in &p2 {
            assert_ne!(a.id, b.id);
        }
    }
    let p3 = st.get(3, 2, &None, false, false, None).unwrap();
    assert_eq!(p3.len(), 1);
    let p4 = st.get(4, 2, &None, false, false, None).unwrap();
    assert!(p4.is_empty());
}

#[test]
fn invalid_regex_is_an_error_not_an_empty_result() {
    let mut st = HistoryStore::new();
    st.insert(text_item("hello"), 10);
    let r = st.get(1, 10, &Some("[".to_string()), true, false, None);
    assert!(matches!(r, Err(StoreError::InvalidPattern)));
    // a valid pattern with no matches is an empty success instead
    let r = st.get(1, 10, &Some("^z".to_string()), true, false, None).unwrap();
    assert!(r.is_empty());
}

#[test]
fn regex_search_matches_content() {
    let mut st = HistoryStore::new();
    st.insert(text_item("order 123"), 10);
    st.insert(text_item("no digits here"), 10);
    let r = st.get(1, 10, &Some(r"\d+".to_string()), true, false, None).unwrap();
    assert_eq!(r.len(), 1);
    assert_eq!(r[0].content, "order 123");
}

#[test]
fn substring_search_folds_case_unless_asked() {
    let mut st = HistoryStore::new();
    st.insert(text_item("Hello World"), 10);
    let found = st.get(1, 10, &Some("hello world".to_string()), false, false, None).unwrap();
    assert_eq!(found.len(), 1);
    let exact = st.get(1, 10, &Some("hello world".to_string()), false, true, None).unwrap();
    assert!(exact.is_empty());
    let exact2 = st.get(1, 10, &Some("Hello".to_string()), false, true, None).unwrap();
    assert_eq!(exact2.len(), 1);
}

#[test]
fn collection_filter_restricts_results() {
    let mut st = HistoryStore::new();
    let c = st.create_collection("work".to_string());
    st.insert(text_item("in collection"), 10);
    let id = st.items[0].id.unwrap();
    st.set_item_collection(id, Some(c.id)).unwrap();
    st.insert(text_item("loose"), 10);
    let r = st.get(1, 10, &None, false, false, Some(c.id)).unwrap();
    assert_eq!(r.len(), 1);
    assert_eq!(r[0].content, "in collection");
}

#[test]
fn toggle_pin_twice_is_an_involution() {
    let mut st = HistoryStore::new();
    st.insert(text_item("a"), 10);
    let id = st.items[0].id.unwrap();
    let before = st.items[0].is_pinned;
    assert_eq!(st.toggle_pin(id), Ok(!before));
    assert_eq!(st.toggle_pin(id), Ok(before));
    assert_eq!(st.items[0].is_pinned, before);
}

#[test]
fn toggle_sensitive_flips_and_reports() {
    let mut st = HistoryStore::new();
    st.insert(text_item("a"), 10);
    let id = st.items[0].id.unwrap();
    assert_eq!(st.toggle_sensitive(id), Ok(true));
    assert!(st.items[0].is_sensitive);
    assert_eq!(st.toggle_sensitive(id), Ok(false));
    assert_eq!(st.toggle_sensitive(9999), Err(StoreError::NotFound));
}

#[test]
fn delete_returns_the_item_for_cleanup() {
    let mut st = HistoryStore::new();
    st.insert(image_item("/tmp/shot.png"), 10);
    st.insert(text_item("plain"), 10);
    let img_id = st.items[1].id.unwrap();
    let txt_id = st.items[0].id.unwrap();

    let gone = st.delete(img_id).unwrap();
    assert_eq!(gone.kind, ItemKind::Image);
    assert!(gone.needs_file_cleanup());
    assert_eq!(st.count(), 1);

    let gone = st.delete(txt_id).unwrap();
    assert!(!gone.needs_file_cleanup());
    assert_eq!(st.count(), 0);

    assert!(st.delete(12345).is_none());
}

#[test]
fn update_content_edits_in_place() {
    let mut st = HistoryStore::new();
    st.insert(text_item("old"), 10);
    st.insert(text_item("newer"), 10);
    let id = st.items[1].id.unwrap();
    st.update_content(id, "edited".to_string(), DataType::Code, Some("a note".to_string()), None)
        .unwrap();
    // the entry keeps its position and timestamp
    assert_eq!(st.items[1].content, "edited");
    assert_eq!(st.items[1].data_type, DataType::Code);
    assert_eq!(st.items[1].note.as_deref(), Some("a note"));
    assert_eq!(st.items[0].content, "newer");
    assert_eq!(
        st.update_content(777, "x".to_string(), DataType::PlainText, None, None),
        Err(StoreError::NotFound)
    );
}

#[test]
fn update_timestamp_moves_to_front() {
    let mut st = HistoryStore::new();
    st.insert(text_item("first"), 10);
    st.insert(text_item("second"), 10);
    let id = st.items[1].id.unwrap();
    st.update_timestamp(id, "2030-01-01 00:00:00".to_string()).unwrap();
    assert_eq!(st.items[0].content, "first");
    assert_eq!(st.items[0].timestamp, "2030-01-01 00:00:00");
    assert_eq!(st.items[1].content, "second");
    assert_eq!(st.count(), 2);
}

#[test]
fn clear_respects_keep_flags() {
    let mut st = HistoryStore::new();
    let c = st.create_collection("keep".to_string());
    st.insert(text_item("pinned"), 10);
    let pid = st.items[0].id.unwrap();
    st.toggle_pin(pid).unwrap();
    st.insert(text_item("collected"), 10);
    let cid = st.items[0].id.unwrap();
    st.set_item_collection(cid, Some(c.id)).unwrap();
    st.insert(text_item("loose"), 10);

    let removed = st.clear(true, true);
    assert_eq!(removed.len(), 1);
    assert_eq!(removed[0].content, "loose");
    assert_eq!(st.count(), 2);

    let removed = st.clear(false, false);
    assert_eq!(removed.len(), 2);
    assert_eq!(st.count(), 0);
}

#[test]
fn collections_crud_unlinks_members() {
    let mut st = HistoryStore::new();
    let a = st.create_collection("alpha".to_string());
    let b = st.create_collection("beta".to_string());
    assert_ne!(a.id, b.id);
    assert_eq!(st.get_collections().len(), 2);

    st.insert(text_item("member"), 10);
    let id = st.items[0].id.unwrap();
    st.set_item_collection(id, Some(a.id)).unwrap();
    assert_eq!(st.items[0].collection_id, Some(a.id));

    st.delete_collection(a.id).unwrap();
    assert_eq!(st.get_collections().len(), 1);
    // the member survives and only loses its reference
    assert_eq!(st.count(), 1);
    assert_eq!(st.items[0].collection_id, None);

    assert_eq!(st.delete_collection(a.id), Err(StoreError::NotFound));
}

#[test]
fn get_item_content_finds_by_id() {
    let mut st = HistoryStore::new();
    st.insert(text_item("the content"), 10);
    let id = st.items[0].id.unwrap();
    assert_eq!(st.get_item_content(id), Ok("the content".to_string()));
    assert_eq!(st.get_item_content(id + 1), Err(StoreError::NotFound));
}
