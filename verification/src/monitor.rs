//! The clipboard monitor's decision logic. The surrounding binary polls the
//! OS clipboard on a fixed cadence and hands each observation here; this
//! module decides whether it is a real change, a self-inflicted one, or
//! nothing, and keeps the fingerprints of the last observation.

use vstd::prelude::*;

use crate::classify::{classify_content, spec_classify};
use crate::model::{ClipboardItem, DataType, ItemKind};

verus! {

/// What one text observation calls for.
#[derive(Clone, Copy, Debug, PartialEq, Eq, Structural)]
pub enum TextAction {
    /// Unchanged or empty content: nothing to do.
    NoChange,
    /// The app itself just wrote this content; update the fingerprint but
    /// record nothing.
    SelfWrite,
    /// A real change: record it under the classified data type.
    Record(DataType),
}

/// The decision for one observed text, given the last-observed text, the
/// self-write marker and the pause flag.
pub open spec fn text_decision(
    last: Seq<char>,
    observed: Seq<char>,
    marker: Option<Seq<char>>,
    paused: bool,
) -> TextAction {
    if paused {
        TextAction::NoChange
    } else if observed == last || observed.len() == 0 {
        TextAction::NoChange
    } else if marker matches Some(m) && m == observed {
        TextAction::SelfWrite
    } else {
        TextAction::Record(spec_classify(observed))
    }
}

/// The view of an optional marker string.
pub open spec fn marker_view(m: Option<String>) -> Option<Seq<char>> {
    match m {
        Some(s) => Some(s@),
        None => None,
    }
}

/// A marker that exactly matches the observed content is never recorded:
/// the monitor does not re-record what the app itself just wrote.
pub proof fn lemma_marker_suppresses(last: Seq<char>, observed: Seq<char>, marker: Seq<char>)
    requires
        observed == marker,
    ensures
        !(text_decision(last, observed, Some(marker), false) is Record),
{
}

/// The last-observed clipboard state: the text, and the raw image bytes.
pub struct Fingerprints {
    pub last_text: String,
    pub last_image: Vec<u8>,
}

impl Fingerprints {
    /// Fingerprints that treat `initial_text` as already seen, so that the
    /// content present at startup is not re-recorded.
    pub fn new(initial_text: String) -> (r: Self)
        ensures
            r.last_text == initial_text,
            r.last_image@ == Seq::<u8>::empty(),
    {
        Fingerprints { last_text: initial_text, last_image: Vec::new() }
    }

    /// Take one text observation: decide what it calls for and update the
    /// text fingerprint on any change that is not ignored for pause.
    pub fn observe_text(&mut self, observed: &String, marker: &Option<String>, paused: bool) -> (a:
        TextAction)
        ensures
            a == text_decision(
                old(self).last_text@,
                observed@,
                marker_view(*marker),
                paused,
            ),
            a is NoChange ==> *final(self) == *old(self),
            !(a is NoChange) ==> final(self).last_text@ == observed@ && final(self).last_image
                == old(self).last_image,
    {
        if paused {
            return TextAction::NoChange;
        }
        if *observed == self.last_text || observed.as_str().is_empty() {
            return TextAction::NoChange;
        }
        let matches_marker = match marker {
            Some(m) => *m == *observed,
            None => false,
        };
        self.last_text = observed.clone();
        if matches_marker {
            TextAction::SelfWrite
        } else {
            TextAction::Record(classify_content(observed.as_str()))
        }
    }

    /// Take one image observation: whether the raw pixel bytes differ from
    /// the last observation and are not empty; the image fingerprint is
    /// updated on any such change.
    pub fn observe_image(&mut self, rgba: &Vec<u8>) -> (changed: bool)
        ensures
            changed == (rgba@ != old(self).last_image@ && rgba@.len() > 0),
            changed ==> final(self).last_image@ == rgba@ && final(self).last_text == old(
                self,
            ).last_text,
            !changed ==> *final(self) == *old(self),
    {
        if rgba.len() == 0 {
            return false;
        }
        if bytes_equal(rgba, &self.last_image) {
            return false;
        }
        self.last_image = rgba.clone();
        proof {
            assert(final(self).last_image@ =~= rgba@);
        }
        true
    }
}

/// Whether two byte vectors hold the same bytes.
#[verifier::loop_isolation(false)]
fn bytes_equal(a: &Vec<u8>, b: &Vec<u8>) -> (r: bool)
    ensures
        r == (a@ == b@),
{
    if a.len() != b.len() {
        return false;
    }
    let mut i: usize = 0;
    while i < a.len()
        invariant
            i <= a@.len(),
            a@.len() == b@.len(),
            forall|k: int| 0 <= k < i ==> a@[k] == b@[k],
        decreases a@.len() - i,
    {
        if a[i] != b[i] {
            return false;
        }
        i = i + 1;
    }
    proof {
        assert(a@ =~= b@);
    }
    true
}

/// The history entry for one recorded text observation.
pub fn build_text_item(content: String, timestamp: String) -> (it: ClipboardItem)
    ensures
        it.id is None,
        it.content == content,
        it.kind == ItemKind::Text,
        it.data_type == spec_classify(content@),
        it.timestamp == timestamp,
        !it.is_pinned,
        !it.is_sensitive,
        it.source_app is None,
        it.collection_id is None,
        it.note is None,
        it.html_content is None,
{
    let data_type = classify_content(content.as_str());
    ClipboardItem {
        id: None,
        content,
        kind: ItemKind::Text,
        data_type,
        timestamp,
        is_pinned: false,
        is_sensitive: false,
        source_app: None,
        collection_id: None,
        note: None,
        html_content: None,
    }
}

/// The history entry for one recorded image observation; `content` carries
/// the re-encoded image.
pub fn build_image_item(content: String, timestamp: String) -> (it: ClipboardItem)
    ensures
        it.id is None,
        it.content == content,
        it.kind == ItemKind::Image,
        it.data_type == DataType::PlainText,
        it.timestamp == timestamp,
        !it.is_pinned,
        !it.is_sensitive,
        it.source_app is None,
        it.collection_id is None,
        it.note is None,
        it.html_content is None,
{
    ClipboardItem {
        id: None,
        content,
        kind: ItemKind::Image,
        data_type: DataType::PlainText,
        timestamp,
        is_pinned: false,
        is_sensitive: false,
        source_app: None,
        collection_id: None,
        note: None,
        html_content: None,
    }
}

} // verus!
