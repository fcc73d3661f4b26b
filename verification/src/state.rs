//! The shared application state: one owned aggregate of the history store,
//! the live configuration, the pause flag, the self-write marker, the
//! monitor fingerprints, the last capture and the paste stack. The
//! surrounding binary holds it behind its synchronization boundary and calls
//! in for every decision.

use vstd::prelude::*;

use crate::capture::{CaptureResult, OverlayRegistry};
use crate::codec::{b64_of, encode_image_content, png_of};
use crate::model::{AppConfig, ClipboardItem, ItemKind};
use crate::monitor::{marker_view, text_decision, Fingerprints, TextAction};
use crate::store::HistoryStore;

verus! {

/// The mutable aggregate behind the app's synchronization boundary.
pub struct AppState {
    pub store: HistoryStore,
    pub config: AppConfig,
    pub paused: bool,
    pub last_app_change: Option<String>,
    pub fingerprints: Fingerprints,
    pub current_captures: Option<Vec<CaptureResult>>,
    pub paste_stack: Vec<ClipboardItem>,
    pub overlays: OverlayRegistry,
}

impl AppState {
    /// The store and the overlay registry keep their invariants.
    pub open spec fn wf(self) -> bool {
        self.store.wf() && self.overlays.wf()
    }

    /// A fresh state under the given configuration. `initial_text` is what
    /// the clipboard holds at startup, so the monitor does not re-record it.
    pub fn new(config: AppConfig, initial_text: String) -> (r: Self)
        ensures
            r.wf(),
            r.config == config,
            !r.paused,
            r.last_app_change is None,
            r.fingerprints.last_text == initial_text,
            r.store.items@ == Seq::<ClipboardItem>::empty(),
            r.current_captures is None,
            r.paste_stack@ == Seq::<ClipboardItem>::empty(),
            r.overlays.ids@ == Seq::<u32>::empty(),
    {
        AppState {
            store: HistoryStore::new(),
            config,
            paused: false,
            last_app_change: None,
            fingerprints: Fingerprints::new(initial_text),
            current_captures: None,
            paste_stack: Vec::new(),
            overlays: OverlayRegistry::new(),
        }
    }

    /// Pause or resume clipboard monitoring.
    pub fn set_paused(&mut self, paused: bool)
        ensures
            *final(self) == (AppState { paused, ..*old(self) }),
    {
        self.paused = paused;
    }

    /// Whether clipboard monitoring is paused.
    pub fn get_paused(&self) -> (r: bool)
        ensures
            r == self.paused,
    {
        self.paused
    }

    /// Note content the app is about to write to the clipboard itself, so
    /// the monitor skips the change it causes.
    pub fn note_self_write(&mut self, content: String)
        ensures
            *final(self) == (AppState { last_app_change: Some(content), ..*old(self) }),
    {
        self.last_app_change = Some(content);
    }

    /// Replace the paste-accumulation stack.
    pub fn set_paste_stack(&mut self, items: Vec<ClipboardItem>)
        ensures
            *final(self) == (AppState { paste_stack: items, ..*old(self) }),
    {
        self.paste_stack = items;
    }

    /// Record the results of a completed capture, superseding the last one.
    pub fn set_captures(&mut self, results: Vec<CaptureResult>)
        ensures
            *final(self) == (AppState { current_captures: Some(results), ..*old(self) }),
    {
        self.current_captures = Some(results);
    }

    /// The last capture's results, if any capture completed.
    #[verifier::loop_isolation(false)]
    pub fn capture_data(&self) -> (r: Option<Vec<CaptureResult>>)
        ensures
            match r {
                None => self.current_captures is None,
                Some(v) => self.current_captures matches Some(c) && v@ == c@,
            },
    {
        match &self.current_captures {
            None => None,
            Some(c) => {
                let mut v: Vec<CaptureResult> = Vec::new();
                let mut i: usize = 0;
                while i < c.len()
                    invariant
                        i <= c@.len(),
                        v@ == c@.take(i as int),
                    decreases c@.len() - i,
                {
                    v.push(c[i].clone());
                    proof {
                        assert(v@ =~= c@.take(i + 1));
                    }
                    i = i + 1;
                }
                proof {
                    assert(c@.take(c@.len() as int) =~= c@);
                }
                Some(v)
            },
        }
    }

    /// Adopt a new configuration in memory. Returns whether the global
    /// shortcut changed, so the caller re-registers the hotkey; persistence
    /// is the caller's best-effort concern and never blocks this update.
    pub fn apply_config(&mut self, new_config: AppConfig) -> (shortcut_changed: bool)
        ensures
            *final(self) == (AppState { config: new_config, ..*old(self) }),
            shortcut_changed == (old(self).config.shortcut@ != new_config.shortcut@),
    {
        let changed = !(self.config.shortcut == new_config.shortcut);
        self.config = new_config;
        changed
    }

    /// One monitor tick for observed clipboard text: decide, update the
    /// fingerprint, consume the self-write marker when it fired, and hand
    /// back the entry to record, if any.
    pub fn monitor_text_tick(&mut self, observed: &String, timestamp: String) -> (r: Option<
        ClipboardItem,
    >)
        ensures
            ({
                let a = text_decision(
                    old(self).fingerprints.last_text@,
                    observed@,
                    marker_view(old(self).last_app_change),
                    old(self).paused,
                );
                &&& a is NoChange ==> r is None && *final(self) == *old(self)
                &&& a is SelfWrite ==> r is None && final(self).last_app_change is None && final(self).fingerprints.last_text@ == observed@
                &&& a is Record ==> (r matches Some(it) && it.id is None && it.content@
                    == observed@ && it.kind == ItemKind::Text && it.data_type
                    == crate::classify::spec_classify(observed@) && it.timestamp == timestamp
                    && !it.is_pinned && !it.is_sensitive && it.collection_id is None && final(self).fingerprints.last_text@ == observed@ && final(self).last_app_change == old(self).last_app_change)
                &&& final(self).store == old(self).store
                &&& final(self).config == old(self).config
                &&& final(self).paused == old(self).paused
                &&& final(self).current_captures == old(self).current_captures
                &&& final(self).paste_stack == old(self).paste_stack
                &&& final(self).overlays == old(self).overlays
            }),
    {
        let a = self.fingerprints.observe_text(observed, &self.last_app_change, self.paused);
        match a {
            TextAction::NoChange => None,
            TextAction::SelfWrite => {
                self.last_app_change = None;
                None
            },
            TextAction::Record(_) => {
                let it = crate::monitor::build_text_item(observed.clone(), timestamp);
                Some(it)
            },
        }
    }

    /// One monitor tick for observed raw clipboard pixels: detect a change
    /// by the byte fingerprint, re-encode the pixels, and hand back the
    /// entry to record. An unchanged or empty buffer or a paused monitor
    /// yields nothing; a changed well-formed buffer within the encoder's
    /// size bound is always recorded; a malformed one only advances the
    /// fingerprint, so a failing tick is simply skipped.
    pub fn monitor_image_tick(
        &mut self,
        rgba: &Vec<u8>,
        width: u32,
        height: u32,
        timestamp: String,
    ) -> (r: Option<ClipboardItem>)
        ensures
            ({
                let changed = !old(self).paused && rgba@ != old(self).fingerprints.last_image@
                    && rgba@.len() > 0;
                &&& !changed ==> r is None && *final(self) == *old(self)
                &&& changed ==> final(self).fingerprints.last_image@ == rgba@
                &&& match r {
                    Some(it) => changed && it.id is None && it.content@ == b64_of(
                        png_of(rgba@, width as int, height as int),
                    ) && it.kind == ItemKind::Image && it.timestamp == timestamp && !it.is_pinned
                        && !it.is_sensitive && it.collection_id is None,
                    None => true,
                }
                &&& (changed && rgba@.len() == 4 * (width as int) * (height as int) && width > 0
                    && height > 0 && png_of(rgba@, width as int, height as int).len()
                    <= usize::MAX / 4) ==> r is Some
                &&& final(self).store == old(self).store
                &&& final(self).config == old(self).config
                &&& final(self).paused == old(self).paused
                &&& final(self).last_app_change == old(self).last_app_change
                &&& final(self).current_captures == old(self).current_captures
                &&& final(self).paste_stack == old(self).paste_stack
                &&& final(self).overlays == old(self).overlays
            }),
    {
        if self.paused {
            return None;
        }
        let changed = self.fingerprints.observe_image(rgba);
        if !changed {
            return None;
        }
        match encode_image_content(rgba, width, height) {
            None => None,
            Some(content) => {
                let it = crate::monitor::build_image_item(content, timestamp);
                Some(it)
            },
        }
    }
}

} // verus!
