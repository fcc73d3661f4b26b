use clipvault::history::ClipboardHistory;
use clipvault::model::{ClipboardItem, DataType, ItemKind};

fn item(content: &str, kind: ItemKind) -> ClipboardItem {
    ClipboardItem {
        id: None,
        content: content.to_string(),
        kind,
        data_type: DataType::PlainText,
        timestamp: "2024-01-01 00:00:00".to_string(),
        is_pinned: false,
        is_sensitive: false,
        source_app: None,
        collection_id: None,
        note: None,
        html_content: None,
    }
}

#[test]
fn push_keeps_newest_first_and_deduplicates() {
    let mut h = ClipboardHistory::new(10);
    h.push(item("a", ItemKind::Text));
    h.push(item("b", ItemKind::Text));
    h.push(item("a", ItemKind::Text));
    assert_eq!(h.items.len(), 2);
    assert_eq!(h.items[0].content, "a");
    assert_eq!(h.items[1].content, "b");
}

#[test]
fn push_distinguishes_kinds_with_equal_content() {
    let mut h = ClipboardHistory::new(10);
    h.push(item("same", ItemKind::Text));
    h.push(item("same", ItemKind::Image));
    assert_eq!(h.items.len(), 2);
}

#[test]
fn menu_titles_cut_long_text_and_name_images() {
    let short = item("copy me", ItemKind::Text);
    assert_eq!(short.menu_title(), "copy me");
    let long = item("abcdefghijklmnopqrstuvwxyz", ItemKind::Text);
    assert_eq!(long.menu_title(), "abcdefghijklmnopqrst...");
    let exactly = item("abcdefghijklmnopqrst", ItemKind::Text);
    assert_eq!(exactly.menu_title(), "abcdefghijklmnopqrst");
    let img = item("/tmp/x.png", ItemKind::Image);
    assert_eq!(img.menu_title(), "Image 2024-01-01 00:00:00");
}

#[test]
fn push_drops_the_oldest_entry_over_the_cap() {
    let mut h = ClipboardHistory::new(2);
    h.push(item("one", ItemKind::Text));
    h.push(item("two", ItemKind::Text));
    h.push(item("three", ItemKind::Text));
    assert_eq!(h.items.len(), 2);
    assert_eq!(h.items[0].content, "three");
    assert_eq!(h.items[1].content, "two");
}
