//! The history store: a persisted, searchable, size-capped log of clipboard
//! items, with pinning, sensitivity flags and collections.
//!
//! Items are held newest-first. Inserting replaces an entry with the same
//! content and kind instead of duplicating it, and then evicts the oldest
//! non-exempt entries until at most `cap` non-exempt entries remain; pinned
//! items and items assigned to a collection are exempt. The store reports
//! what it evicted or removed so the caller can delete backing image files.

use vstd::prelude::*;

use crate::model::{ClipboardItem, Collection};
use crate::search::{match_content, regex_try_match, to_lower};
use crate::text::chars_of;
use crate::seq_lemmas::{
    distinct_by, lemma_filter_contains_only, lemma_filter_distinct_by, lemma_filter_take_all,
    lemma_filter_take_step, lemma_remove_distinct_by, lemma_update_distinct_by,
};

verus! {

/// Why a store operation failed.
#[derive(Clone, Copy, Debug, PartialEq, Eq, Structural)]
pub enum StoreError {
    /// No item or collection carries the given id.
    NotFound,
    /// A regex search was asked for and the pattern does not compile.
    InvalidPattern,
}

/// The key by which items project to their id.
pub open spec fn item_id() -> spec_fn(ClipboardItem) -> Option<i64> {
    |x: ClipboardItem| x.id
}

/// `it`, with its id replaced.
pub open spec fn with_id(it: ClipboardItem, id: i64) -> ClipboardItem {
    ClipboardItem { id: Some(id), ..it }
}

/// `s` without the entries that share content and kind with `k`.
pub open spec fn dedup_of(s: Seq<ClipboardItem>, k: ClipboardItem) -> Seq<ClipboardItem> {
    s.filter(|x: ClipboardItem| !x.same_key(k))
}

/// Walk `s` front to back with a budget of `budget` non-exempt slots: exempt
/// entries are always kept, non-exempt entries are kept while the budget
/// lasts and evicted once it is spent. Returns (kept, evicted), both in the
/// order of `s`.
pub open spec fn prune_split(s: Seq<ClipboardItem>, budget: nat) -> (Seq<ClipboardItem>, Seq<
    ClipboardItem,
>)
    decreases s.len(),
{
    if s.len() == 0 {
        (Seq::empty(), Seq::empty())
    } else {
        let head = s[0];
        let rest = s.drop_first();
        if head.is_exempt() {
            let r = prune_split(rest, budget);
            (seq![head] + r.0, r.1)
        } else if budget > 0 {
            let r = prune_split(rest, (budget - 1) as nat);
            (seq![head] + r.0, r.1)
        } else {
            let r = prune_split(rest, budget);
            (r.0, seq![head] + r.1)
        }
    }
}

/// What one insert leaves behind and what it evicts: the freshly stored item
/// at the front, duplicates of it removed, then pruned to `cap`.
pub open spec fn insert_model(s: Seq<ClipboardItem>, stored: ClipboardItem, cap: nat) -> (Seq<
    ClipboardItem,
>, Seq<ClipboardItem>) {
    prune_split(seq![stored] + dedup_of(s, stored), cap)
}

/// Both outputs of the pruning walk only hold elements of its input.
pub proof fn lemma_prune_split_contains(s: Seq<ClipboardItem>, budget: nat)
    ensures
        forall|x: ClipboardItem| prune_split(s, budget).0.contains(x) ==> s.contains(x),
        forall|x: ClipboardItem| prune_split(s, budget).1.contains(x) ==> s.contains(x),
    decreases s.len(),
{
    if s.len() > 0 {
        let rest = s.drop_first();
        if s[0].is_exempt() {
            lemma_prune_split_contains(rest, budget);
        } else if budget > 0 {
            lemma_prune_split_contains(rest, (budget - 1) as nat);
        } else {
            lemma_prune_split_contains(rest, budget);
        }
        assert forall|x: ClipboardItem|
            prune_split(s, budget).0.contains(x) || prune_split(s, budget).1.contains(
                x,
            ) implies s.contains(x) by {
            if x == s[0] {
                assert(s.contains(x));
            } else {
                if rest.contains(x) {
                    let k = choose|k: int| 0 <= k < rest.len() && rest[k] == x;
                    assert(s[k + 1] == x);
                }
            }
        }
    }
}

/// Prepending an element whose key is fresh keeps keys pairwise distinct.
proof fn lemma_prepend_distinct<K>(
    head: ClipboardItem,
    g: Seq<ClipboardItem>,
    f: spec_fn(ClipboardItem) -> K,
)
    requires
        distinct_by(g, f),
        forall|x: ClipboardItem| g.contains(x) ==> f(x) != f(head),
    ensures
        distinct_by(seq![head] + g, f),
{
    assert forall|i: int, j: int|
        0 <= i < j < (seq![head] + g).len() implies f(#[trigger] (seq![head] + g)[i]) != f(
        #[trigger] (seq![head] + g)[j]) by {
        assert((seq![head] + g)[j] == g[j - 1]);
        assert(g.contains(g[j - 1]));
        if i > 0 {
            assert((seq![head] + g)[i] == g[i - 1]);
        } else {
            assert((seq![head] + g)[i] == head);
        }
    }
}

/// Pruning keeps keys pairwise distinct.
pub proof fn lemma_prune_split_distinct<K>(
    s: Seq<ClipboardItem>,
    budget: nat,
    f: spec_fn(ClipboardItem) -> K,
)
    requires
        distinct_by(s, f),
    ensures
        distinct_by(prune_split(s, budget).0, f),
        distinct_by(prune_split(s, budget).1, f),
    decreases s.len(),
{
    if s.len() > 0 {
        let rest = s.drop_first();
        assert(distinct_by(rest, f)) by {
            assert(forall|i: int| 0 <= i < rest.len() ==> rest[i] == s[i + 1]);
        }
        let b2: nat = if !s[0].is_exempt() && budget > 0 {
            (budget - 1) as nat
        } else {
            budget
        };
        lemma_prune_split_distinct(rest, b2, f);
        lemma_prune_split_contains(rest, b2);
        let r = prune_split(rest, b2);
        assert forall|x: ClipboardItem| rest.contains(x) implies f(x) != f(s[0]) by {
            let k = choose|k: int| 0 <= k < rest.len() && rest[k] == x;
            assert(s[k + 1] == x);
            assert(f(s[0]) != f(s[k + 1]));
        }
        assert forall|x: ClipboardItem| r.0.contains(x) implies f(x) != f(s[0]) by {
            assert(rest.contains(x));
        }
        assert forall|x: ClipboardItem| r.1.contains(x) implies f(x) != f(s[0]) by {
            assert(rest.contains(x));
        }
        lemma_prepend_distinct(s[0], r.0, f);
        lemma_prepend_distinct(s[0], r.1, f);
    }
}

/// The view of an optional query string.
pub open spec fn query_view(q: Option<String>) -> Option<Seq<char>> {
    match q {
        Some(s) => Some(s@),
        None => None,
    }
}

/// The filter a history query applies, as a predicate on items.
pub open spec fn get_pred(
    query: Option<Seq<char>>,
    use_regex: bool,
    case_sensitive: bool,
    coll: Option<i64>,
) -> spec_fn(ClipboardItem) -> bool {
    |it: ClipboardItem| crate::search::passes(it, query, use_regex, case_sensitive, coll)
}

/// The 1-indexed page of size `ps` out of the filtered ordering `f`.
pub open spec fn page_of(f: Seq<ClipboardItem>, page: int, ps: int) -> Seq<ClipboardItem>
    recommends
        page >= 1,
        ps >= 0,
{
    let start = (page - 1) * ps;
    if start >= f.len() {
        Seq::empty()
    } else if start + ps <= f.len() {
        f.subrange(start, start + ps)
    } else {
        f.subrange(start, f.len() as int)
    }
}

/// Whether some stored item carries `id`.
pub open spec fn has_item_id(s: Seq<ClipboardItem>, id: i64) -> bool {
    exists|i: int| 0 <= i < s.len() && s[i].id == Some(id)
}

/// `it` with its pinned flag flipped.
pub open spec fn flip_pin(it: ClipboardItem) -> ClipboardItem {
    ClipboardItem { is_pinned: !it.is_pinned, ..it }
}

/// `it` with its sensitivity flag flipped.
pub open spec fn flip_sensitive(it: ClipboardItem) -> ClipboardItem {
    ClipboardItem { is_sensitive: !it.is_sensitive, ..it }
}

/// The rewriting applied to every item when collection `id` is deleted:
/// members of that collection lose their reference, nothing else changes.
pub open spec fn unlink_of(id: i64) -> spec_fn(ClipboardItem) -> ClipboardItem {
    |x: ClipboardItem|
        if x.collection_id == Some(id) {
            ClipboardItem { collection_id: None, ..x }
        } else {
            x
        }
}

/// The entries that survive a clear under the two keep flags.
pub open spec fn clear_keep(keep_pinned: bool, keep_collected: bool) -> spec_fn(ClipboardItem) -> bool {
    |x: ClipboardItem| (keep_pinned && x.is_pinned) || (keep_collected && x.collection_id is Some)
}

/// The entries that a clear removes.
pub open spec fn clear_drop(keep_pinned: bool, keep_collected: bool) -> spec_fn(ClipboardItem) -> bool {
    |x: ClipboardItem| !((keep_pinned && x.is_pinned) || (keep_collected && x.collection_id is Some))
}

/// Index of the item carrying `id`, if any.
#[verifier::loop_isolation(false)]
fn find_index(items: &Vec<ClipboardItem>, id: i64) -> (r: Option<usize>)
    ensures
        match r {
            Some(i) => i < items@.len() && items@[i as int].id == Some(id),
            None => !has_item_id(items@, id),
        },
{
    let mut i: usize = 0;
    while i < items.len()
        invariant
            i <= items@.len(),
            forall|k: int| 0 <= k < i ==> items@[k].id != Some(id),
        decreases items@.len() - i,
    {
        let hit = match items[i].id {
            Some(x) => x == id,
            None => false,
        };
        if hit {
            return Some(i);
        }
        i = i + 1;
    }
    None
}

/// Index of the collection carrying `id`, if any.
#[verifier::loop_isolation(false)]
fn find_collection_index(cs: &Vec<Collection>, id: i64) -> (r: Option<usize>)
    ensures
        match r {
            Some(i) => i < cs@.len() && cs@[i as int].id == id,
            None => forall|k: int| 0 <= k < cs@.len() ==> (#[trigger] cs@[k]).id != id,
        },
{
    let mut i: usize = 0;
    while i < cs.len()
        invariant
            i <= cs@.len(),
            forall|k: int| 0 <= k < i ==> (#[trigger] cs@[k]).id != id,
        decreases cs@.len() - i,
    {
        if cs[i].id == id {
            return Some(i);
        }
        i = i + 1;
    }
    None
}

/// Whether the item is exempt from cap-driven eviction.
pub fn exempt(it: &ClipboardItem) -> (r: bool)
    ensures
        r == it.is_exempt(),
{
    it.is_pinned || it.collection_id.is_some()
}

/// A copy of `items` with `stored` at the front and entries sharing its
/// content and kind dropped.
#[verifier::loop_isolation(false)]
fn dedup_front(items: &Vec<ClipboardItem>, stored: ClipboardItem) -> (fronted: Vec<ClipboardItem>)
    ensures
        fronted@ == seq![stored] + dedup_of(items@, stored),
{
    let ghost orig = items@;
    let key = stored.clone();
    let ghost p = (|x: ClipboardItem| !x.same_key(stored));
    let mut fronted: Vec<ClipboardItem> = Vec::new();
    fronted.push(stored);
    proof {
        reveal(Seq::filter);
        assert(orig.take(0).filter(p) =~= Seq::<ClipboardItem>::empty());
        assert(fronted@ =~= seq![key] + orig.take(0).filter(p));
        assert(key == fronted@[0]);
    }
    let mut i: usize = 0;
    while i < items.len()
        invariant
            i <= orig.len(),
            fronted@ == seq![key] + orig.take(i as int).filter(p),
        decreases orig.len() - i,
    {
        let x = &items[i];
        if !(x.content == key.content && x.kind == key.kind) {
            fronted.push(x.clone());
        }
        proof {
            lemma_filter_take_step(orig, p, i as int);
            assert(fronted@ =~= seq![key] + orig.take(i + 1).filter(p));
        }
        i = i + 1;
    }
    proof {
        lemma_filter_take_all(orig, p);
        assert(fronted@ =~= seq![stored] + dedup_of(items@, stored));
    }
    fronted
}

/// Split `full` into kept and evicted entries under a budget of `cap`
/// non-exempt slots, as [`prune_split`] describes.
#[verifier::loop_isolation(false)]
fn prune_exec(full_v: &Vec<ClipboardItem>, cap: usize) -> (r: (Vec<ClipboardItem>, Vec<
    ClipboardItem,
>))
    ensures
        r.0@ == prune_split(full_v@, cap as nat).0,
        r.1@ == prune_split(full_v@, cap as nat).1,
{
    let ghost full = full_v@;
    let mut kept: Vec<ClipboardItem> = Vec::new();
    let mut evicted: Vec<ClipboardItem> = Vec::new();
    let mut budget: usize = cap;
    let mut j: usize = 0;
    proof {
        assert(full.skip(0) =~= full);
        assert(prune_split(full, cap as nat).0 =~= kept@ + prune_split(
            full.skip(0),
            budget as nat,
        ).0);
        assert(prune_split(full, cap as nat).1 =~= evicted@ + prune_split(
            full.skip(0),
            budget as nat,
        ).1);
    }
    while j < full_v.len()
        invariant
            j <= full.len(),
            prune_split(full, cap as nat).0 == kept@ + prune_split(
                full.skip(j as int),
                budget as nat,
            ).0,
            prune_split(full, cap as nat).1 == evicted@ + prune_split(
                full.skip(j as int),
                budget as nat,
            ).1,
        decreases full.len() - j,
    {
        let ghost tail = full.skip(j as int);
        proof {
            assert(tail[0] == full[j as int]);
            assert(tail.drop_first() =~= full.skip(j + 1));
        }
        let x = &full_v[j];
        if exempt(x) {
            kept.push(x.clone());
            proof {
                let r = prune_split(full.skip(j + 1), budget as nat);
                assert(prune_split(tail, budget as nat).0 == seq![full[j as int]] + r.0);
                assert(kept@ + r.0 =~= (kept@.drop_last()) + (seq![full[j as int]] + r.0));
            }
        } else if budget > 0 {
            kept.push(x.clone());
            budget = budget - 1;
            proof {
                let r = prune_split(full.skip(j + 1), budget as nat);
                assert(prune_split(tail, (budget + 1) as nat).0 == seq![full[j as int]] + r.0);
                assert(prune_split(tail, (budget + 1) as nat).1 == r.1);
                assert(kept@ + r.0 =~= (kept@.drop_last()) + (seq![full[j as int]] + r.0));
            }
        } else {
            evicted.push(x.clone());
            proof {
                let r = prune_split(full.skip(j + 1), budget as nat);
                assert(prune_split(tail, budget as nat).1 == seq![full[j as int]] + r.1);
                assert(evicted@ + r.1 =~= (evicted@.drop_last()) + (seq![full[j as int]] + r.1));
            }
        }
        j = j + 1;
    }
    proof {
        assert(full.skip(full.len() as int) =~= Seq::<ClipboardItem>::empty());
        assert(prune_split(full, cap as nat).0 =~= kept@);
        assert(prune_split(full, cap as nat).1 =~= evicted@);
    }
    (kept, evicted)
}

/// Inserting under a fresh id keeps every stored id assigned, bounded and
/// distinct.
proof fn lemma_insert_preserves_ids(
    orig: Seq<ClipboardItem>,
    stored: ClipboardItem,
    cap: nat,
    bound: i64,
)
    requires
        forall|i: int|
            0 <= i < orig.len() ==> (#[trigger] orig[i]).id is Some && 0 <= orig[i].id->0 < bound,
        distinct_by(orig, item_id()),
        stored.id == Some(bound),
        0 <= bound < i64::MAX,
    ensures
        forall|i: int|
            0 <= i < insert_model(orig, stored, cap).0.len() ==> (#[trigger] insert_model(
                orig,
                stored,
                cap,
            ).0[i]).id is Some && 0 <= insert_model(orig, stored, cap).0[i].id->0 < bound + 1,
        distinct_by(insert_model(orig, stored, cap).0, item_id()),
{
    let f = item_id();
    let p = (|x: ClipboardItem| !x.same_key(stored));
    let ded = dedup_of(orig, stored);
    let full = seq![stored] + ded;
    lemma_filter_distinct_by(orig, p, f);
    lemma_filter_contains_only(orig, p);
    assert forall|x: ClipboardItem| ded.contains(x) implies f(x) != f(stored) && x.id is Some && 0
        <= x.id->0 < bound by {
        assert(orig.contains(x));
        let k = choose|k: int| 0 <= k < orig.len() && orig[k] == x;
    }
    lemma_prepend_distinct(stored, ded, f);
    lemma_prune_split_distinct(full, cap, f);
    lemma_prune_split_contains(full, cap);
    let kept = insert_model(orig, stored, cap).0;
    assert forall|i: int|
        0 <= i < kept.len() implies (#[trigger] kept[i]).id is Some && 0 <= kept[i].id->0 < bound
        + 1 by {
        let x = kept[i];
        assert(kept.contains(x));
        assert(prune_split(full, cap).0.contains(x));
        assert(full.contains(x));
        let m = choose|m: int| 0 <= m < full.len() && full[m] == x;
        if m > 0 {
            assert(full[m] == ded[m - 1]);
            assert(ded.contains(ded[m - 1]));
        } else {
            assert(x == stored);
        }
    }
}

/// How many entries share content and kind with `k`.
pub open spec fn key_count(s: Seq<ClipboardItem>, k: ClipboardItem) -> nat {
    s.filter(|x: ClipboardItem| x.same_key(k)).len()
}

/// An insert leaves exactly one entry with the inserted content and kind,
/// standing at the front, whenever the cap admits any entry at all.
pub proof fn lemma_insert_single_entry(s: Seq<ClipboardItem>, stored: ClipboardItem, cap: nat)
    requires
        cap >= 1,
    ensures
        insert_model(s, stored, cap).0.len() > 0,
        insert_model(s, stored, cap).0[0] == stored,
        key_count(insert_model(s, stored, cap).0, stored) == 1,
{
    broadcast use Seq::filter_distributes_over_add;

    let p = (|x: ClipboardItem| !x.same_key(stored));
    let q = (|x: ClipboardItem| x.same_key(stored));
    let ded = dedup_of(s, stored);
    let full = seq![stored] + ded;
    assert(full[0] == stored);
    assert(full.drop_first() =~= ded);
    let b2: nat = if stored.is_exempt() {
        cap
    } else {
        (cap - 1) as nat
    };
    let r = prune_split(ded, b2);
    assert(prune_split(full, cap).0 == seq![stored] + r.0);
    lemma_prune_split_contains(ded, b2);
    assert forall|i: int| 0 <= i < ded.len() implies p(#[trigger] ded[i]) by {
        s.lemma_filter_pred(p, i);
    }
    assert forall|i: int| 0 <= i < r.0.len() implies !(#[trigger] r.0[i]).same_key(stored) by {
        assert(r.0.contains(r.0[i]));
        assert(ded.contains(r.0[i]));
        let m = choose|m: int| 0 <= m < ded.len() && ded[m] == r.0[i];
    }
    assert(r.0.filter(q).len() == 0) by {
        if r.0.filter(q).len() > 0 {
            r.0.lemma_filter_pred(q, 0);
            lemma_filter_contains_only(r.0, q);
            assert(r.0.filter(q).contains(r.0.filter(q)[0]));
            let m = choose|m: int| 0 <= m < r.0.len() && r.0[m] == r.0.filter(q)[0];
        }
    }
    assert(seq![stored].filter(q) =~= seq![stored]) by {
        reveal(Seq::filter);
        assert(seq![stored].drop_last() =~= Seq::<ClipboardItem>::empty());
        assert(Seq::<ClipboardItem>::empty().filter(q) =~= Seq::<ClipboardItem>::empty());
        assert(q(stored));
    }
    assert((seq![stored] + r.0).filter(q) == seq![stored].filter(q) + r.0.filter(q));
    assert(key_count(insert_model(s, stored, cap).0, stored) == 1);
}

/// Inserting the same content and kind twice results in exactly one entry,
/// moved to the front.
pub proof fn lemma_insert_same_key_twice(
    s: Seq<ClipboardItem>,
    a: ClipboardItem,
    b: ClipboardItem,
    cap: nat,
)
    requires
        cap >= 1,
        a.same_key(b),
    ensures
        ({
            let twice = insert_model(insert_model(s, a, cap).0, b, cap).0;
            twice.len() > 0 && twice[0] == b && key_count(twice, b) == 1
        }),
{
    lemma_insert_single_entry(insert_model(s, a, cap).0, b, cap);
}

/// With no exempt entries and more of them than the cap admits, pruning
/// keeps exactly the newest `cap` entries and evicts exactly the oldest
/// overflow, in order.
pub proof fn lemma_cap_evicts_oldest(s: Seq<ClipboardItem>, cap: nat)
    requires
        forall|i: int| 0 <= i < s.len() ==> !(#[trigger] s[i]).is_exempt(),
    ensures
        cap < s.len() ==> prune_split(s, cap).0 == s.take(cap as int) && prune_split(s, cap).1
            == s.skip(cap as int),
        cap >= s.len() ==> prune_split(s, cap).0 == s && prune_split(s, cap).1 == Seq::<
            ClipboardItem,
        >::empty(),
    decreases s.len(),
{
    if s.len() == 0 {
        assert(prune_split(s, cap).0 =~= s);
    } else {
        let rest = s.drop_first();
        assert(forall|i: int| 0 <= i < rest.len() ==> rest[i] == s[i + 1]);
        assert(!s[0].is_exempt());
        if cap > 0 {
            lemma_cap_evicts_oldest(rest, (cap - 1) as nat);
            let r = prune_split(rest, (cap - 1) as nat);
            if cap < s.len() {
                assert(seq![s[0]] + rest.take(cap - 1) =~= s.take(cap as int));
                assert(rest.skip(cap - 1) =~= s.skip(cap as int));
            } else {
                assert(seq![s[0]] + rest =~= s);
            }
        } else {
            lemma_cap_evicts_oldest(rest, 0);
            let r = prune_split(rest, 0);
            if rest.len() > 0 {
                assert(r.0 =~= rest.take(0));
            }
            assert(prune_split(s, 0).0 =~= s.take(0));
            assert(seq![s[0]] + rest =~= s.skip(0));
        }
    }
}

/// Pinned or collected entries are never evicted by cap pressure: every
/// evicted entry is non-exempt, and every exempt entry survives, however
/// many there are.
pub proof fn lemma_exempt_never_evicted(s: Seq<ClipboardItem>, budget: nat)
    ensures
        forall|i: int|
            0 <= i < prune_split(s, budget).1.len() ==> !(#[trigger] prune_split(
                s,
                budget,
            ).1[i]).is_exempt(),
        forall|i: int|
            0 <= i < s.len() && (#[trigger] s[i]).is_exempt() ==> prune_split(s, budget).0.contains(
                s[i],
            ),
    decreases s.len(),
{
    if s.len() > 0 {
        let rest = s.drop_first();
        let b2: nat = if !s[0].is_exempt() && budget > 0 {
            (budget - 1) as nat
        } else {
            budget
        };
        lemma_exempt_never_evicted(rest, b2);
        let r = prune_split(rest, b2);
        assert forall|i: int|
            0 <= i < s.len() && (#[trigger] s[i]).is_exempt() implies prune_split(
            s,
            budget,
        ).0.contains(s[i]) by {
            if i == 0 {
                assert(prune_split(s, budget).0[0] == s[0]);
            } else {
                assert(rest[i - 1] == s[i]);
                assert(r.0.contains(rest[i - 1]));
                let m = choose|m: int| 0 <= m < r.0.len() && r.0[m] == s[i];
                if s[0].is_exempt() || budget > 0 {
                    assert(prune_split(s, budget).0[m + 1] == s[i]);
                } else {
                    assert(prune_split(s, budget).0[m] == s[i]);
                }
            }
        }
    }
}

/// Two different pages of one filtered ordering never share an item id,
/// provided ids are pairwise distinct.
pub proof fn lemma_pages_disjoint(f: Seq<ClipboardItem>, p1: int, p2: int, ps: int)
    requires
        distinct_by(f, item_id()),
        1 <= p1 < p2,
        ps >= 0,
    ensures
        forall|i: int, j: int|
            0 <= i < page_of(f, p1, ps).len() && 0 <= j < page_of(f, p2, ps).len() ==> (
            #[trigger] page_of(f, p1, ps)[i]).id != (#[trigger] page_of(f, p2, ps)[j]).id,
{
    let a1 = (p1 - 1) * ps;
    let a2 = (p2 - 1) * ps;
    assert((p1 - 1) * ps >= 0) by (nonlinear_arith)
        requires
            p1 >= 1 && ps >= 0,
    ;
    assert((p1 - 1) * ps + ps == p1 * ps) by (nonlinear_arith);
    assert(p1 * ps <= (p2 - 1) * ps) by (nonlinear_arith)
        requires
            1 <= p1 < p2 && ps >= 0,
    ;
    assert(a1 >= 0 && a1 + ps <= a2);
    assert forall|i: int, j: int|
        0 <= i < page_of(f, p1, ps).len() && 0 <= j < page_of(f, p2, ps).len() implies (
    #[trigger] page_of(f, p1, ps)[i]).id != (#[trigger] page_of(f, p2, ps)[j]).id by {
        assert(page_of(f, p1, ps)[i] == f[a1 + i]);
        assert(page_of(f, p2, ps)[j] == f[a2 + j]);
        assert(item_id()(f[a1 + i]) != item_id()(f[a2 + j]));
    }
}

/// Pages served by one query on a well-formed store never overlap: the
/// store's ids are pairwise distinct and stay distinct under the filter.
pub proof fn lemma_get_pages_disjoint(
    st: HistoryStore,
    query: Option<Seq<char>>,
    use_regex: bool,
    case_sensitive: bool,
    coll: Option<i64>,
    p1: int,
    p2: int,
    ps: int,
)
    requires
        st.wf(),
        1 <= p1 < p2,
        ps >= 0,
    ensures
        ({
            let f = st.items@.filter(get_pred(query, use_regex, case_sensitive, coll));
            forall|i: int, j: int|
                0 <= i < page_of(f, p1, ps).len() && 0 <= j < page_of(f, p2, ps).len() ==> (
                #[trigger] page_of(f, p1, ps)[i]).id != (#[trigger] page_of(f, p2, ps)[j]).id
        }),
{
    lemma_filter_distinct_by(
        st.items@,
        get_pred(query, use_regex, case_sensitive, coll),
        item_id(),
    );
    lemma_pages_disjoint(
        st.items@.filter(get_pred(query, use_regex, case_sensitive, coll)),
        p1,
        p2,
        ps,
    );
}

/// Toggling the pin of the same entry twice returns the items to exactly
/// their original state, and the second flip reports the original value.
pub proof fn lemma_toggle_pin_involution(s: Seq<ClipboardItem>, i: int)
    requires
        0 <= i < s.len(),
    ensures
        ({
            let once = s.update(i, flip_pin(s[i]));
            &&& once.update(i, flip_pin(once[i])) == s
            &&& flip_pin(once[i]).is_pinned == s[i].is_pinned
        }),
{
    let once = s.update(i, flip_pin(s[i]));
    assert(flip_pin(once[i]) == s[i]);
    assert(once.update(i, flip_pin(once[i])) =~= s);
}

/// The persisted item log and the collections, with fresh-id counters.
pub struct HistoryStore {
    pub items: Vec<ClipboardItem>,
    pub collections: Vec<Collection>,
    pub next_item_id: i64,
    pub next_collection_id: i64,
}

impl HistoryStore {
    /// Every stored item carries a distinct id below `next_item_id`, and
    /// every collection a distinct id below `next_collection_id`.
    pub open spec fn wf(self) -> bool {
        &&& 0 <= self.next_item_id
        &&& 0 <= self.next_collection_id
        &&& forall|i: int|
            0 <= i < self.items@.len() ==> (#[trigger] self.items@[i]).id is Some && 0
                <= self.items@[i].id->0 < self.next_item_id
        &&& distinct_by(self.items@, item_id())
        &&& forall|i: int|
            0 <= i < self.collections@.len() ==> 0 <= (#[trigger] self.collections@[i]).id
                < self.next_collection_id
        &&& distinct_by(self.collections@, |c: Collection| c.id)
    }

    /// An empty store.
    pub fn new() -> (s: Self)
        ensures
            s.wf(),
            s.items@ == Seq::<ClipboardItem>::empty(),
            s.collections@ == Seq::<Collection>::empty(),
    {
        HistoryStore {
            items: Vec::new(),
            collections: Vec::new(),
            next_item_id: 0,
            next_collection_id: 0,
        }
    }

    /// The total stored item count.
    pub fn count(&self) -> (n: usize)
        ensures
            n == self.items@.len(),
    {
        self.items.len()
    }

    /// Store `item` at the front under a fresh id. A prior entry with the
    /// same content and kind is replaced rather than duplicated; afterwards
    /// the oldest non-exempt entries are evicted until at most `cap`
    /// non-exempt entries remain. Returns the evicted items, oldest last, so
    /// the caller can delete their backing files.
    pub fn insert(&mut self, item: ClipboardItem, cap: usize) -> (evicted: Vec<ClipboardItem>)
        requires
            old(self).wf(),
            old(self).next_item_id < i64::MAX,
        ensures
            final(self).wf(),
            final(self).items@ == insert_model(
                old(self).items@,
                with_id(item, old(self).next_item_id),
                cap as nat,
            ).0,
            evicted@ == insert_model(
                old(self).items@,
                with_id(item, old(self).next_item_id),
                cap as nat,
            ).1,
            final(self).collections@ == old(self).collections@,
            final(self).next_item_id == old(self).next_item_id + 1,
            final(self).next_collection_id == old(self).next_collection_id,
    {
        let ghost orig = self.items@;
        let mut it = item;
        it.id = Some(self.next_item_id);
        let ghost stored = with_id(item, old(self).next_item_id);
        proof {
            assert(it == stored);
        }
        let fronted = dedup_front(&self.items, it);
        let (kept, evicted) = prune_exec(&fronted, cap);
        self.items = kept;
        self.next_item_id = self.next_item_id + 1;
        proof {
            lemma_insert_preserves_ids(orig, stored, cap as nat, old(self).next_item_id);
        }
        evicted
    }

    /// Remove the item carrying `id` and hand it back, or report that no
    /// item carries it. The caller deletes a backing file if the returned
    /// item is image-kind.
    pub fn delete(&mut self, id: i64) -> (r: Option<ClipboardItem>)
        requires
            old(self).wf(),
        ensures
            final(self).wf(),
            final(self).collections@ == old(self).collections@,
            final(self).next_item_id == old(self).next_item_id,
            final(self).next_collection_id == old(self).next_collection_id,
            match r {
                None => !has_item_id(old(self).items@, id) && *final(self) == *old(self),
                Some(it) => it.id == Some(id) && exists|i: int|
                    0 <= i < old(self).items@.len() && it == old(self).items@[i] && final(self).items@ == old(self).items@.remove(i),
            },
    {
        match find_index(&self.items, id) {
            None => None,
            Some(i) => {
                let ghost orig = self.items@;
                let it = self.items.remove(i);
                proof {
                    lemma_remove_distinct_by(orig, i as int, item_id());
                    orig.remove_ensures(i as int);
                    assert(it == orig[i as int] && final(self).items@ == orig.remove(i as int));
                }
                Some(it)
            },
        }
    }

    /// Flip the pinned flag of the item carrying `id`; the new value comes
    /// back. Fails when no item carries the id.
    pub fn toggle_pin(&mut self, id: i64) -> (r: Result<bool, StoreError>)
        requires
            old(self).wf(),
        ensures
            final(self).wf(),
            final(self).collections@ == old(self).collections@,
            final(self).next_item_id == old(self).next_item_id,
            final(self).next_collection_id == old(self).next_collection_id,
            match r {
                Err(e) => e == StoreError::NotFound && !has_item_id(old(self).items@, id) && *final(self) == *old(self),
                Ok(b) => exists|i: int|
                    0 <= i < old(self).items@.len() && old(self).items@[i].id == Some(id) && b
                        == !old(self).items@[i].is_pinned && final(self).items@ == old(self).items@.update(i, flip_pin(old(self).items@[i])),
            },
    {
        match find_index(&self.items, id) {
            None => Err(StoreError::NotFound),
            Some(i) => {
                let ghost orig = self.items@;
                let mut it = self.items[i].clone();
                let b = !it.is_pinned;
                it.is_pinned = b;
                proof {
                    assert(it == flip_pin(orig[i as int]));
                }
                self.items.set(i, it);
                proof {
                    lemma_update_distinct_by(orig, i as int, flip_pin(orig[i as int]), item_id());
                }
                Ok(b)
            },
        }
    }

    /// Flip the sensitivity flag of the item carrying `id`; the new value
    /// comes back. Fails when no item carries the id.
    pub fn toggle_sensitive(&mut self, id: i64) -> (r: Result<bool, StoreError>)
        requires
            old(self).wf(),
        ensures
            final(self).wf(),
            final(self).collections@ == old(self).collections@,
            final(self).next_item_id == old(self).next_item_id,
            final(self).next_collection_id == old(self).next_collection_id,
            match r {
                Err(e) => e == StoreError::NotFound && !has_item_id(old(self).items@, id) && *final(self) == *old(self),
                Ok(b) => exists|i: int|
                    0 <= i < old(self).items@.len() && old(self).items@[i].id == Some(id) && b
                        == !old(self).items@[i].is_sensitive && final(self).items@ == old(self).items@.update(i, flip_sensitive(old(self).items@[i])),
            },
    {
        match find_index(&self.items, id) {
            None => Err(StoreError::NotFound),
            Some(i) => {
                let ghost orig = self.items@;
                let mut it = self.items[i].clone();
                let b = !it.is_sensitive;
                it.is_sensitive = b;
                proof {
                    assert(it == flip_sensitive(orig[i as int]));
                }
                self.items.set(i, it);
                proof {
                    lemma_update_distinct_by(
                        orig,
                        i as int,
                        flip_sensitive(orig[i as int]),
                        item_id(),
                    );
                }
                Ok(b)
            },
        }
    }

    /// Edit the content of the item carrying `id` in place. The entry keeps
    /// its position, id, flags and timestamp.
    pub fn update_content(
        &mut self,
        id: i64,
        content: String,
        data_type: crate::model::DataType,
        note: Option<String>,
        html_content: Option<String>,
    ) -> (r: Result<(), StoreError>)
        requires
            old(self).wf(),
        ensures
            final(self).wf(),
            final(self).collections@ == old(self).collections@,
            final(self).next_item_id == old(self).next_item_id,
            final(self).next_collection_id == old(self).next_collection_id,
            match r {
                Err(e) => e == StoreError::NotFound && !has_item_id(old(self).items@, id) && *final(self) == *old(self),
                Ok(u) => exists|i: int|
                    0 <= i < old(self).items@.len() && old(self).items@[i].id == Some(id) && final(self).items@ == old(self).items@.update(
                        i,
                        ClipboardItem {
                            content: content,
                            data_type: data_type,
                            note: note,
                            html_content: html_content,
                            ..old(self).items@[i]
                        },
                    ),
            },
    {
        match find_index(&self.items, id) {
            None => Err(StoreError::NotFound),
            Some(i) => {
                let ghost orig = self.items@;
                let mut it = self.items[i].clone();
                it.content = content;
                it.data_type = data_type;
                it.note = note;
                it.html_content = html_content;
                let ghost updated = it;
                self.items.set(i, it);
                proof {
                    lemma_update_distinct_by(orig, i as int, updated, item_id());
                }
                Ok(())
            },
        }
    }

    /// Refresh the recency of the item carrying `id`: it gets the new
    /// timestamp and moves to the front, without creating a duplicate.
    pub fn update_timestamp(&mut self, id: i64, timestamp: String) -> (r: Result<(), StoreError>)
        requires
            old(self).wf(),
        ensures
            final(self).wf(),
            final(self).collections@ == old(self).collections@,
            final(self).next_item_id == old(self).next_item_id,
            final(self).next_collection_id == old(self).next_collection_id,
            match r {
                Err(e) => e == StoreError::NotFound && !has_item_id(old(self).items@, id) && *final(self) == *old(self),
                Ok(u) => exists|i: int|
                    0 <= i < old(self).items@.len() && old(self).items@[i].id == Some(id) && final(self).items@ == seq![
                        ClipboardItem { timestamp: timestamp, ..old(self).items@[i] },
                    ] + old(self).items@.remove(i),
            },
    {
        match find_index(&self.items, id) {
            None => Err(StoreError::NotFound),
            Some(i) => {
                let ghost orig = self.items@;
                let mut it = self.items.remove(i);
                it.timestamp = timestamp;
                let ghost updated = it;
                self.items.insert(0, it);
                proof {
                    orig.remove_ensures(i as int);
                    lemma_remove_distinct_by(orig, i as int, item_id());
                    let rest = orig.remove(i as int);
                    assert forall|x: ClipboardItem| rest.contains(x) implies item_id()(x)
                        != item_id()(updated) by {
                        let k = choose|k: int| 0 <= k < rest.len() && rest[k] == x;
                        let k2 = if k < i as int {
                            k
                        } else {
                            k + 1
                        };
                        assert(rest[k] == orig[k2]);
                        assert(orig[k2].id != orig[i as int].id);
                    }
                    lemma_prepend_distinct(updated, rest, item_id());
                    assert(self.items@ =~= seq![updated] + rest);
                }
                Ok(())
            },
        }
    }

    /// The raw content of the item carrying `id`.
    pub fn get_item_content(&self, id: i64) -> (r: Result<String, StoreError>)
        requires
            self.wf(),
        ensures
            match r {
                Err(e) => e == StoreError::NotFound && !has_item_id(self.items@, id),
                Ok(s) => exists|i: int|
                    0 <= i < self.items@.len() && self.items@[i].id == Some(id) && s@
                        == self.items@[i].content@,
            },
    {
        match find_index(&self.items, id) {
            None => Err(StoreError::NotFound),
            Some(i) => Ok(self.items[i].content.clone()),
        }
    }

    /// Remove every entry except those the two keep flags exempt; the
    /// removed entries come back, in their stored order, for file cleanup.
    #[verifier::loop_isolation(false)]
    pub fn clear(&mut self, keep_pinned: bool, keep_collected: bool) -> (removed: Vec<
        ClipboardItem,
    >)
        requires
            old(self).wf(),
        ensures
            final(self).wf(),
            final(self).items@ == old(self).items@.filter(clear_keep(keep_pinned, keep_collected)),
            removed@ == old(self).items@.filter(clear_drop(keep_pinned, keep_collected)),
            final(self).collections@ == old(self).collections@,
            final(self).next_item_id == old(self).next_item_id,
            final(self).next_collection_id == old(self).next_collection_id,
    {
        let ghost orig = self.items@;
        let ghost pk = clear_keep(keep_pinned, keep_collected);
        let ghost pd = clear_drop(keep_pinned, keep_collected);
        let mut kept: Vec<ClipboardItem> = Vec::new();
        let mut removed: Vec<ClipboardItem> = Vec::new();
        proof {
            reveal(Seq::filter);
            assert(orig.take(0).filter(pk) =~= Seq::<ClipboardItem>::empty());
            assert(orig.take(0).filter(pd) =~= Seq::<ClipboardItem>::empty());
        }
        let mut i: usize = 0;
        while i < self.items.len()
            invariant
                i <= orig.len(),
                self.items@ == orig,
                kept@ == orig.take(i as int).filter(pk),
                removed@ == orig.take(i as int).filter(pd),
            decreases orig.len() - i,
        {
            let x = &self.items[i];
            if (keep_pinned && x.is_pinned) || (keep_collected && x.collection_id.is_some()) {
                kept.push(x.clone());
            } else {
                removed.push(x.clone());
            }
            proof {
                lemma_filter_take_step(orig, pk, i as int);
                lemma_filter_take_step(orig, pd, i as int);
            }
            i = i + 1;
        }
        proof {
            lemma_filter_take_all(orig, pk);
            lemma_filter_take_all(orig, pd);
        }
        self.items = kept;
        proof {
            lemma_filter_distinct_by(orig, pk, item_id());
            lemma_filter_contains_only(orig, pk);
            assert forall|k: int| 0 <= k < self.items@.len() implies (
            #[trigger] self.items@[k]).id is Some && 0 <= self.items@[k].id->0
                < self.next_item_id by {
                let x = self.items@[k];
                assert(self.items@.contains(x));
                assert(orig.contains(x));
                let m = choose|m: int| 0 <= m < orig.len() && orig[m] == x;
            }
        }
        removed
    }

    /// Create a collection with a fresh id.
    pub fn create_collection(&mut self, name: String) -> (c: Collection)
        requires
            old(self).wf(),
            old(self).next_collection_id < i64::MAX,
        ensures
            final(self).wf(),
            c.id == old(self).next_collection_id,
            c.name == name,
            final(self).collections@ == old(self).collections@.push(c),
            final(self).items@ == old(self).items@,
            final(self).next_item_id == old(self).next_item_id,
            final(self).next_collection_id == old(self).next_collection_id + 1,
    {
        let c = Collection { id: self.next_collection_id, name };
        let stored = c.clone();
        self.collections.push(stored);
        self.next_collection_id = self.next_collection_id + 1;
        proof {
            let f = (|x: Collection| x.id);
            assert forall|a: int, b: int|
                0 <= a < b < self.collections@.len() implies f(#[trigger] self.collections@[a])
                    != f(#[trigger] self.collections@[b]) by {
                if b < self.collections@.len() - 1 {
                    assert(self.collections@[a] == old(self).collections@[a]);
                    assert(self.collections@[b] == old(self).collections@[b]);
                }
            }
        }
        c
    }

    /// All collections, newest last.
    #[verifier::loop_isolation(false)]
    pub fn get_collections(&self) -> (r: Vec<Collection>)
        ensures
            r@ == self.collections@,
    {
        let mut r: Vec<Collection> = Vec::new();
        let mut i: usize = 0;
        while i < self.collections.len()
            invariant
                i <= self.collections@.len(),
                r@ == self.collections@.take(i as int),
            decreases self.collections@.len() - i,
        {
            r.push(self.collections[i].clone());
            proof {
                assert(r@ =~= self.collections@.take(i + 1));
            }
            i = i + 1;
        }
        proof {
            assert(self.collections@.take(self.collections@.len() as int) =~= self.collections@);
        }
        r
    }

    /// Delete the collection carrying `id`. Member items stay and only lose
    /// their reference to it. Fails when no collection carries the id.
    #[verifier::loop_isolation(false)]
    pub fn delete_collection(&mut self, id: i64) -> (r: Result<(), StoreError>)
        requires
            old(self).wf(),
        ensures
            final(self).wf(),
            final(self).next_item_id == old(self).next_item_id,
            final(self).next_collection_id == old(self).next_collection_id,
            match r {
                Err(e) => e == StoreError::NotFound && (forall|i: int|
                    0 <= i < old(self).collections@.len() ==> (#[trigger] old(self).collections@[i]).id != id) && *final(self) == *old(self),
                Ok(u) => exists|ci: int|
                    0 <= ci < old(self).collections@.len() && old(self).collections@[ci].id == id
                        && final(self).collections@ == old(self).collections@.remove(ci) && final(self).items@ == old(self).items@.map_values(unlink_of(id)),
            },
    {
        let found = find_collection_index(&self.collections, id);
        let ci = match found {
            None => {
                return Err(StoreError::NotFound);
            },
            Some(ci) => ci,
        };
        let ghost origc = self.collections@;
        let ghost orig = self.items@;
        self.collections.remove(ci);
        proof {
            lemma_remove_distinct_by(origc, ci as int, |c: Collection| c.id);
            origc.remove_ensures(ci as int);
        }
        let ghost f = unlink_of(id);
        let mut i: usize = 0;
        while i < self.items.len()
            invariant
                i <= orig.len(),
                self.items@.len() == orig.len(),
                self.collections@ == origc.remove(ci as int),
                self.next_item_id == old(self).next_item_id,
                self.next_collection_id == old(self).next_collection_id,
                forall|k: int| 0 <= k < i ==> self.items@[k] == f(#[trigger] orig[k]),
                forall|k: int| i <= k < orig.len() ==> self.items@[k] == #[trigger] orig[k],
            decreases orig.len() - i,
        {
            let linked = match self.items[i].collection_id {
                Some(x) => x == id,
                None => false,
            };
            if linked {
                let mut it = self.items[i].clone();
                it.collection_id = None;
                self.items.set(i, it);
            }
            i = i + 1;
        }
        proof {
            assert(self.items@ =~= orig.map_values(f));
            assert forall|k: int| 0 <= k < self.items@.len() implies (
            #[trigger] self.items@[k]).id is Some && 0 <= self.items@[k].id->0
                < self.next_item_id by {
                assert(self.items@[k] == f(orig[k]));
            }
            assert forall|a: int, b: int|
                0 <= a < b < self.items@.len() implies item_id()(#[trigger] self.items@[a])
                    != item_id()(#[trigger] self.items@[b]) by {
                assert(self.items@[a] == f(orig[a]));
                assert(self.items@[b] == f(orig[b]));
            }
        }
        Ok(())
    }

    /// One page of the filtered, newest-first history. Pages are 1-indexed.
    /// Without a query no text filter applies; with one, the content is
    /// matched as a substring (case-folded unless `case_sensitive`) or, with
    /// `use_regex`, as a regular expression. An invalid pattern fails with
    /// `InvalidPattern`, distinctly from an empty result. `collection_id`
    /// restricts the page to one collection.
    #[verifier::loop_isolation(false)]
    pub fn get(
        &self,
        page: usize,
        page_size: usize,
        query: &Option<String>,
        use_regex: bool,
        case_sensitive: bool,
        collection_id: Option<i64>,
    ) -> (r: Result<Vec<ClipboardItem>, StoreError>)
        requires
            page >= 1,
        ensures
            match r {
                Err(e) => e == StoreError::InvalidPattern && use_regex && query is Some
                    && !crate::search::regex_pattern_ok(query->0@),
                Ok(v) => (use_regex && query is Some ==> crate::search::regex_pattern_ok(
                    query->0@,
                )) && v@ == page_of(
                    self.items@.filter(
                        get_pred(query_view(*query), use_regex, case_sensitive, collection_id),
                    ),
                    page as int,
                    page_size as int,
                ),
            },
    {
        let ghost pred = get_pred(query_view(*query), use_regex, case_sensitive, collection_id);

        // Reject an invalid pattern before anything else, so that a bad
        // regex never degrades into an empty result.
        if use_regex {
            if let Some(q) = query {
                // A compile check: the text does not matter for validity.
                if regex_try_match(q.as_str(), "").is_none() {
                    return Err(StoreError::InvalidPattern);
                }
            }
        }

        // The query characters, case-folded unless the search is exact.
        let ql: Vec<char> = match query {
            Some(q) => {
                if case_sensitive {
                    chars_of(q.as_str())
                } else {
                    let low = to_lower(q.as_str());
                    chars_of(low.as_str())
                }
            },
            None => Vec::new(),
        };

        // Collect the matching items, newest first.
        let mut matched: Vec<ClipboardItem> = Vec::new();
        proof {
            reveal(Seq::filter);
            assert(self.items@.take(0).filter(pred) =~= Seq::<ClipboardItem>::empty());
        }
        let mut i: usize = 0;
        while i < self.items.len()
            invariant
                i <= self.items@.len(),
                matched@ == self.items@.take(i as int).filter(pred),
            decreases self.items@.len() - i,
        {
            let x = &self.items[i];
            let coll_ok = match collection_id {
                Some(c) => match x.collection_id {
                    Some(xc) => xc == c,
                    None => false,
                },
                None => true,
            };
            let text_ok = match query {
                Some(q) => match_content(
                    x.content.as_str(),
                    q.as_str(),
                    &ql,
                    use_regex,
                    case_sensitive,
                ),
                None => true,
            };
            if coll_ok && text_ok {
                matched.push(x.clone());
            }
            proof {
                lemma_filter_take_step(self.items@, pred, i as int);
                assert(matched@ =~= self.items@.take(i + 1).filter(pred));
            }
            i = i + 1;
        }
        proof {
            lemma_filter_take_all(self.items@, pred);
        }
        let ghost f = self.items@.filter(pred);

        // Slice out the requested page.
        let start_opt = (page - 1).checked_mul(page_size);
        let start = match start_opt {
            None => {
                // The page begins beyond any possible history length.
                proof {
                    assert(page_of(f, page as int, page_size as int) =~= Seq::<
                        ClipboardItem,
                    >::empty());
                }
                return Ok(Vec::new());
            },
            Some(s) => s,
        };
        if start >= matched.len() {
            proof {
                assert(page_of(f, page as int, page_size as int) =~= Seq::<ClipboardItem>::empty());
            }
            return Ok(Vec::new());
        }
        let rem = matched.len() - start;
        let take = if page_size < rem {
            page_size
        } else {
            rem
        };
        let mut out: Vec<ClipboardItem> = Vec::new();
        let mut k: usize = 0;
        while k < take
            invariant
                take <= f.len() - start,
                start + take <= f.len(),
                k <= take,
                matched@ == f,
                out@ == f.subrange(start as int, start + k),
            decreases take - k,
        {
            out.push(matched[start + k].clone());
            proof {
                assert(out@ =~= f.subrange(start as int, start + k + 1));
            }
            k = k + 1;
        }
        proof {
            assert(out@ =~= page_of(f, page as int, page_size as int));
        }
        Ok(out)
    }

    /// Attach the item carrying `id` to a collection, or detach it. The
    /// collection reference is taken as given and not checked for existence.
    pub fn set_item_collection(&mut self, id: i64, collection_id: Option<i64>) -> (r: Result<
        (),
        StoreError,
    >)
        requires
            old(self).wf(),
        ensures
            final(self).wf(),
            final(self).collections@ == old(self).collections@,
            final(self).next_item_id == old(self).next_item_id,
            final(self).next_collection_id == old(self).next_collection_id,
            match r {
                Err(e) => e == StoreError::NotFound && !has_item_id(old(self).items@, id) && *final(self) == *old(self),
                Ok(u) => exists|i: int|
                    0 <= i < old(self).items@.len() && old(self).items@[i].id == Some(id) && final(self).items@ == old(self).items@.update(
                        i,
                        ClipboardItem { collection_id: collection_id, ..old(self).items@[i] },
                    ),
            },
    {
        match find_index(&self.items, id) {
            None => Err(StoreError::NotFound),
            Some(i) => {
                let ghost orig = self.items@;
                let mut it = self.items[i].clone();
                it.collection_id = collection_id;
                let ghost updated = it;
                self.items.set(i, it);
                proof {
                    lemma_update_distinct_by(orig, i as int, updated, item_id());
                }
                Ok(())
            },
        }
    }
}

} // verus!
