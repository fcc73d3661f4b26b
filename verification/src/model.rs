//! The data model: clipboard items, collections, and the configuration record.

use vstd::prelude::*;

verus! {

/// What a clipboard item holds: plain text, or a raster image whose `content`
/// is the reference to its single backing file.
#[derive(Clone, Copy, Debug, PartialEq, Eq, Structural)]
pub enum ItemKind {
    Text,
    Image,
}

/// The finer classification of text content, derived at insert time.
#[derive(Clone, Copy, Debug, PartialEq, Eq, Structural)]
pub enum DataType {
    Url,
    Code,
    Color,
    PlainText,
}

/// One entry of the clipboard history.
///
/// `id` is absent until the store has persisted the item; the store assigns
/// ids and keeps them distinct. An image-kind item's `content` names its one
/// backing file, whose lifecycle follows the item.
#[derive(Debug)]
pub struct ClipboardItem {
    pub id: Option<i64>,
    pub content: String,
    pub kind: ItemKind,
    pub data_type: DataType,
    pub timestamp: String,
    pub is_pinned: bool,
    pub is_sensitive: bool,
    pub source_app: Option<String>,
    pub collection_id: Option<i64>,
    pub note: Option<String>,
    pub html_content: Option<String>,
}

impl Clone for ClipboardItem {
    fn clone(&self) -> (res: Self)
        ensures
            res == *self,
    {
        ClipboardItem {
            id: self.id,
            content: self.content.clone(),
            kind: self.kind,
            data_type: self.data_type,
            timestamp: self.timestamp.clone(),
            is_pinned: self.is_pinned,
            is_sensitive: self.is_sensitive,
            source_app: self.source_app.clone(),
            collection_id: self.collection_id,
            note: self.note.clone(),
            html_content: self.html_content.clone(),
        }
    }
}

impl ClipboardItem {
    /// Two items count as duplicates when their content and kind agree.
    pub open spec fn same_key(self, other: ClipboardItem) -> bool {
        self.content@ == other.content@ && self.kind == other.kind
    }

    /// Pinned items and items assigned to a collection are exempt from
    /// cap-driven eviction.
    pub open spec fn is_exempt(self) -> bool {
        self.is_pinned || self.collection_id is Some
    }

    /// Whether deleting this item must also delete a backing file.
    pub fn needs_file_cleanup(&self) -> (r: bool)
        ensures
            r == (self.kind is Image),
    {
        self.kind == ItemKind::Image
    }

    /// The title this item shows in a menu line: the first twenty
    /// characters of text content, with a trailing ellipsis when it was
    /// cut, or the capture time for an image.
    pub open spec fn spec_menu_title(self) -> Seq<char> {
        if self.kind is Image {
            "Image "@ + self.timestamp@
        } else if self.content@.len() > 20 {
            self.content@.take(20) + "..."@
        } else {
            self.content@
        }
    }

    /// Render the menu title of this item.
    pub fn menu_title(&self) -> (r: String)
        ensures
            r@ == self.spec_menu_title(),
    {
        if self.kind == ItemKind::Image {
            let mut s = String::from_str("Image ");
            s.append(self.timestamp.as_str());
            s
        } else {
            let n = self.content.as_str().unicode_len();
            if n > 20 {
                let head = self.content.as_str().substring_char(0, 20);
                let mut s = head.to_owned();
                s.append("...");
                proof {
                    assert(s@ =~= self.content@.take(20) + "..."@);
                }
                s
            } else {
                self.content.clone()
            }
        }
    }
}

/// A named group of items. Items reference at most one collection; deleting a
/// collection only clears those references, it never deletes the items.
#[derive(Debug)]
pub struct Collection {
    pub id: i64,
    pub name: String,
}

impl Clone for Collection {
    fn clone(&self) -> (res: Self)
        ensures
            res == *self,
    {
        Collection { id: self.id, name: self.name.clone() }
    }
}

/// The live configuration record.
#[derive(Debug)]
pub struct AppConfig {
    pub shortcut: String,
    pub max_history_size: usize,
    pub language: String,
    pub theme: String,
    pub sensitive_apps: Vec<String>,
    pub compact_mode: bool,
    pub clear_pinned_on_clear: bool,
    pub clear_collected_on_clear: bool,
}

impl Clone for AppConfig {
    fn clone(&self) -> (res: Self)
        ensures
            res.shortcut == self.shortcut,
            res.max_history_size == self.max_history_size,
            res.language == self.language,
            res.theme == self.theme,
            res.sensitive_apps@.len() == self.sensitive_apps@.len(),
            forall|i: int|
                0 <= i < self.sensitive_apps@.len() ==> res.sensitive_apps@[i]
                    == self.sensitive_apps@[i],
            res.compact_mode == self.compact_mode,
            res.clear_pinned_on_clear == self.clear_pinned_on_clear,
            res.clear_collected_on_clear == self.clear_collected_on_clear,
    {
        let sensitive_apps = self.sensitive_apps.clone();
        AppConfig {
            shortcut: self.shortcut.clone(),
            max_history_size: self.max_history_size,
            language: self.language.clone(),
            theme: self.theme.clone(),
            sensitive_apps,
            compact_mode: self.compact_mode,
            clear_pinned_on_clear: self.clear_pinned_on_clear,
            clear_collected_on_clear: self.clear_collected_on_clear,
        }
    }
}

impl Default for AppConfig {
    /// The configuration a fresh installation starts from.
    fn default() -> (res: Self)
        ensures
            res.shortcut@ == "CommandOrControl+Shift+V"@,
            res.max_history_size == 20,
            res.language@ == "en"@,
            res.theme@ == "system"@,
            res.sensitive_apps@ == Seq::<String>::empty(),
            !res.compact_mode,
            !res.clear_pinned_on_clear,
            !res.clear_collected_on_clear,
    {
        AppConfig {
            shortcut: String::from_str("CommandOrControl+Shift+V"),
            max_history_size: 20,
            language: String::from_str("en"),
            theme: String::from_str("system"),
            sensitive_apps: Vec::new(),
            compact_mode: false,
            clear_pinned_on_clear: false,
            clear_collected_on_clear: false,
        }
    }
}

} // verus!
