//! The minimal in-memory clipboard history: a de-duplicated, newest-first
//! list trimmed to a fixed size. The richer, searchable store with pinning
//! and collections lives in [`crate::store`]; this small form backs the
//! menu-driven history list.

use vstd::prelude::*;

use crate::model::ClipboardItem;
use crate::seq_lemmas::{lemma_filter_take_all, lemma_filter_take_step};

verus! {

/// What one push leaves behind: the new item at the front, earlier entries
/// with the same content and kind dropped, and the oldest entry dropped when
/// the list would exceed `max`.
pub open spec fn push_model(s: Seq<ClipboardItem>, item: ClipboardItem, max: nat) -> Seq<
    ClipboardItem,
> {
    let fronted = seq![item] + s.filter(|x: ClipboardItem| !x.same_key(item));
    if fronted.len() > max {
        fronted.drop_last()
    } else {
        fronted
    }
}

/// A newest-first clipboard history, capped at `max_size` entries.
pub struct ClipboardHistory {
    pub items: Vec<ClipboardItem>,
    pub max_size: usize,
}

impl ClipboardHistory {
    /// An empty history that will hold at most `max_size` entries.
    pub fn new(max_size: usize) -> (h: Self)
        ensures
            h.items@ == Seq::<ClipboardItem>::empty(),
            h.max_size == max_size,
    {
        ClipboardHistory { items: Vec::new(), max_size }
    }

    /// Record an item at the front. An entry with the same content and kind
    /// is replaced rather than duplicated, and the oldest entry falls off
    /// once the list is over `max_size`.
    #[verifier::loop_isolation(false)]
    pub fn push(&mut self, item: ClipboardItem)
        ensures
            final(self).items@ == push_model(
                old(self).items@,
                item,
                old(self).max_size as nat,
            ),
            final(self).max_size == old(self).max_size,
    {
        let ghost orig = self.items@;
        let key = item.clone();
        let mut kept: Vec<ClipboardItem> = Vec::new();
        kept.push(item);
        let ghost p = (|x: ClipboardItem| !x.same_key(key));
        proof {
            reveal(Seq::filter);
            assert(orig.take(0).filter(p) =~= Seq::<ClipboardItem>::empty());
            assert(kept@ =~= seq![key] + orig.take(0).filter(p));
        }
        let mut i: usize = 0;
        while i < self.items.len()
            invariant
                i <= self.items@.len(),
                self.items@ == orig,
                kept@ == seq![key] + orig.take(i as int).filter(p),
            decreases self.items@.len() - i,
        {
            let x = &self.items[i];
            if !(x.content == key.content && x.kind == key.kind) {
                kept.push(x.clone());
            }
            proof {
                lemma_filter_take_step(orig, p, i as int);
                let t = orig.take(i as int).filter(p);
                if p(orig[i as int]) {
                    assert(kept@ == (seq![key] + t).push(orig[i as int]));
                    assert((seq![key] + t).push(orig[i as int]) =~= seq![key] + t.push(
                        orig[i as int],
                    ));
                } else {
                    assert(kept@ == seq![key] + t);
                }
                assert(kept@ =~= seq![key] + orig.take(i + 1).filter(p));
            }
            i = i + 1;
        }
        proof {
            lemma_filter_take_all(orig, p);
        }
        if kept.len() > self.max_size {
            kept.pop();
            proof {
                assert(kept@ =~= (seq![key] + orig.filter(p)).drop_last());
            }
        }
        self.items = kept;
        proof {
            assert(p == (|x: ClipboardItem| !x.same_key(item)));
        }
    }
}

} // verus!
