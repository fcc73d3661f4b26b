//! Display capture results, their overlay geometry, the aggregation of
//! per-display outcomes, and the registry of live overlay surfaces.

use vstd::prelude::*;

use crate::numfmt::{dec_u64, is_dec_digit, spec_dec};
use crate::seq_lemmas::distinct_by;
use crate::text::has_prefix;

verus! {

/// One successfully captured display: its stable id, the encoded file, the
/// logical origin, the physical pixel size, and the scale factor held in
/// hundredths (so 100 is 1.0 and 200 is 2.0).
#[derive(Debug)]
pub struct CaptureResult {
    pub id: u32,
    pub path: String,
    pub x: i32,
    pub y: i32,
    pub width: u32,
    pub height: u32,
    pub scale_pct: u32,
}

impl CaptureResult {
    /// A display never reports a scale factor below 1.0.
    pub open spec fn scale_wf(self) -> bool {
        self.scale_pct >= 100
    }

    /// The logical size the windowing layer expects: physical pixels
    /// divided by the scale factor.
    pub fn logical_size(&self) -> (r: (u32, u32))
        requires
            self.scale_wf(),
        ensures
            r.0 == self.width as int * 100 / self.scale_pct as int,
            r.1 == self.height as int * 100 / self.scale_pct as int,
    {
        let w = (self.width as u64 * 100) / (self.scale_pct as u64);
        let h = (self.height as u64 * 100) / (self.scale_pct as u64);
        proof {
            assert(self.width as int * 100 / self.scale_pct as int <= self.width as int)
                by (nonlinear_arith)
                requires
                    self.scale_pct >= 100,
                    self.width >= 0,
            ;
            assert(self.height as int * 100 / self.scale_pct as int <= self.height as int)
                by (nonlinear_arith)
                requires
                    self.scale_pct >= 100,
                    self.height >= 0,
            ;
        }
        (w as u32, h as u32)
    }
}

impl Clone for CaptureResult {
    fn clone(&self) -> (res: Self)
        ensures
            res == *self,
    {
        CaptureResult {
            id: self.id,
            path: self.path.clone(),
            x: self.x,
            y: self.y,
            width: self.width,
            height: self.height,
            scale_pct: self.scale_pct,
        }
    }
}

/// Why a capture request failed as a whole.
#[derive(Clone, Copy, Debug, PartialEq, Eq, Structural)]
pub enum CaptureError {
    /// No display is attached; downstream orchestration needs at least one.
    NoDisplays,
    /// Displays are attached but every single capture failed.
    NoneSucceeded,
}

/// The successful results among per-display outcomes, in display order.
pub open spec fn successes(s: Seq<Option<CaptureResult>>) -> Seq<CaptureResult> {
    s.filter(|o: Option<CaptureResult>| o is Some).map_values(|o: Option<CaptureResult>| o->0)
}

/// One step of collecting successes front to back.
proof fn lemma_successes_step(s: Seq<Option<CaptureResult>>, i: int)
    requires
        0 <= i < s.len(),
    ensures
        successes(s.take(i + 1)) == if s[i] is Some {
            successes(s.take(i)).push(s[i]->0)
        } else {
            successes(s.take(i))
        },
{
    let p = (|o: Option<CaptureResult>| o is Some);
    let f = (|o: Option<CaptureResult>| o->0);
    crate::seq_lemmas::lemma_filter_take_step(s, p, i);
    if s[i] is Some {
        assert(s.take(i).filter(p).push(s[i]).map_values(f) =~= s.take(i).filter(p).map_values(
            f,
        ).push(f(s[i])));
    }
}

/// Aggregate per-display outcomes: fail outright with no display, fail when
/// nothing succeeded, and otherwise keep the successful results in order —
/// a failed display is omitted, it does not abort the others.
#[verifier::loop_isolation(false)]
pub fn collect_successes(outcomes: &Vec<Option<CaptureResult>>) -> (r: Result<
    Vec<CaptureResult>,
    CaptureError,
>)
    ensures
        match r {
            Err(e) => (e == CaptureError::NoDisplays && outcomes@.len() == 0) || (e
                == CaptureError::NoneSucceeded && outcomes@.len() > 0 && (forall|i: int|
                0 <= i < outcomes@.len() ==> !((#[trigger] outcomes@[i]) is Some))),
            Ok(v) => outcomes@.len() > 0 && (exists|i: int|
                0 <= i < outcomes@.len() && (#[trigger] outcomes@[i]) is Some) && v@ == successes(
                outcomes@,
            ),
        },
{
    if outcomes.len() == 0 {
        return Err(CaptureError::NoDisplays);
    }
    let ghost s = outcomes@;
    let mut out: Vec<CaptureResult> = Vec::new();
    let mut any: bool = false;
    proof {
        reveal(Seq::filter);
        assert(successes(s.take(0)) =~= Seq::<CaptureResult>::empty());
    }
    let mut i: usize = 0;
    while i < outcomes.len()
        invariant
            i <= s.len(),
            out@ == successes(s.take(i as int)),
            any == (exists|k: int| 0 <= k < i && (#[trigger] s[k]) is Some),
        decreases s.len() - i,
    {
        match &outcomes[i] {
            Some(c) => {
                out.push(c.clone());
                any = true;
                proof {
                    assert((#[trigger] s[i as int]) is Some);
                }
            },
            None => {
            },
        }
        proof {
            lemma_successes_step(s, i as int);
        }
        i = i + 1;
    }
    proof {
        assert(s.take(s.len() as int) =~= s);
    }
    if any {
        Ok(out)
    } else {
        Err(CaptureError::NoneSucceeded)
    }
}

/// With every display but one capturing successfully, the aggregate holds
/// exactly one result less than there are displays.
pub proof fn lemma_one_failure(s: Seq<Option<CaptureResult>>, j: int)
    requires
        0 <= j < s.len(),
        !(s[j] is Some),
        forall|k: int| 0 <= k < s.len() && k != j ==> (#[trigger] s[k]) is Some,
    ensures
        successes(s).len() == s.len() - 1,
    decreases s.len(),
{
    reveal(Seq::filter);
    let p = (|o: Option<CaptureResult>| o is Some);
    if s.len() > 0 {
        let dl = s.drop_last();
        if j == s.len() - 1 {
            lemma_all_success(dl);
        } else {
            lemma_one_failure(dl, j);
            assert(s.last() is Some);
        }
    }
}

/// With every display capturing successfully, nothing is omitted.
pub proof fn lemma_all_success(s: Seq<Option<CaptureResult>>)
    requires
        forall|k: int| 0 <= k < s.len() ==> (#[trigger] s[k]) is Some,
    ensures
        successes(s).len() == s.len(),
    decreases s.len(),
{
    reveal(Seq::filter);
    if s.len() > 0 {
        lemma_all_success(s.drop_last());
        assert(s.last() is Some);
    }
}

/// The file name a capture of display `id` taken at `millis` is stored
/// under. Distinct display ids or times give distinct names, so repeated
/// captures never collide.
pub open spec fn spec_capture_file_name(id: nat, millis: nat) -> Seq<char> {
    "screenshot_"@ + spec_dec(id) + "_"@ + spec_dec(millis) + ".png"@
}

/// Build the capture file name for a display and a timestamp.
pub fn capture_file_name(id: u32, millis: u64) -> (r: String)
    ensures
        r@ == spec_capture_file_name(id as nat, millis as nat),
{
    let mut s = String::from_str("screenshot_");
    let ds = dec_u64(id as u64);
    s.append(ds.as_str());
    s.append("_");
    let ms = dec_u64(millis);
    s.append(ms.as_str());
    s.append(".png");
    s
}

/// Capture file names never collide: distinct display ids or distinct
/// times give distinct names.
pub proof fn lemma_capture_file_name_injective(id1: nat, m1: nat, id2: nat, m2: nat)
    requires
        spec_capture_file_name(id1, m1) == spec_capture_file_name(id2, m2),
    ensures
        id1 == id2,
        m1 == m2,
{
    let p = "screenshot_"@;
    let u = "_"@;
    let q = ".png"@;
    let d1 = spec_dec(id1);
    let d2 = spec_dec(id2);
    let t1 = spec_dec(m1);
    let t2 = spec_dec(m2);
    let s1 = spec_capture_file_name(id1, m1);
    let s2 = spec_capture_file_name(id2, m2);
    reveal_strlit("_");
    assert(u =~= seq!['_']);
    crate::numfmt::lemma_dec_digits_only(id1);
    crate::numfmt::lemma_dec_digits_only(id2);
    crate::numfmt::lemma_dec_len(id1);
    crate::numfmt::lemma_dec_len(id2);
    crate::numfmt::lemma_dec_len(m1);
    crate::numfmt::lemma_dec_len(m2);
    let pl = p.len() as int;
    // the id parts are equally long: at the shorter one's end the one name
    // holds the separator and the other a digit
    assert(d1.len() == d2.len()) by {
        if d1.len() < d2.len() {
            assert(s1[pl + d1.len()] == '_');
            assert(s2[pl + d1.len()] == d2[d1.len() as int]);
            assert(is_dec_digit(d2[d1.len() as int]));
        }
        if d2.len() < d1.len() {
            assert(s2[pl + d2.len()] == '_');
            assert(s1[pl + d2.len()] == d1[d2.len() as int]);
            assert(is_dec_digit(d1[d2.len() as int]));
        }
    }
    assert(d1 =~= d2) by {
        assert forall|i: int| 0 <= i < d1.len() implies d1[i] == d2[i] by {
            assert(s1[pl + i] == d1[i]);
            assert(s2[pl + i] == d2[i]);
        }
    }
    crate::numfmt::lemma_dec_injective(id1, id2);
    // the total lengths agree, so the time parts are equally long too
    assert(s1.len() == pl + d1.len() + 1 + t1.len() + q.len());
    assert(s2.len() == pl + d2.len() + 1 + t2.len() + q.len());
    assert(t1.len() == t2.len());
    let o = pl + d1.len() + 1;
    assert(t1 =~= t2) by {
        assert forall|i: int| 0 <= i < t1.len() implies t1[i] == t2[i] by {
            assert(s1[o + i] == t1[i]);
            assert(s2[o + i] == t2[i]);
        }
    }
    crate::numfmt::lemma_dec_injective(m1, m2);
}

/// The window label of the overlay surface covering display `id`.
pub open spec fn spec_overlay_label(id: nat) -> Seq<char> {
    "screenshot_"@ + spec_dec(id)
}

/// Build the overlay window label for a display.
pub fn overlay_label(id: u32) -> (r: String)
    ensures
        r@ == spec_overlay_label(id as nat),
{
    let mut s = String::from_str("screenshot_");
    let ds = dec_u64(id as u64);
    s.append(ds.as_str());
    s
}

/// Overlay labels identify their display: distinct ids give distinct
/// labels, so a label names exactly one surface.
pub proof fn lemma_overlay_label_injective(id1: nat, id2: nat)
    requires
        spec_overlay_label(id1) == spec_overlay_label(id2),
    ensures
        id1 == id2,
{
    let p = "screenshot_"@;
    let d1 = spec_dec(id1);
    let d2 = spec_dec(id2);
    let s1 = spec_overlay_label(id1);
    let s2 = spec_overlay_label(id2);
    assert(s1.len() == p.len() + d1.len());
    assert(s2.len() == p.len() + d2.len());
    assert(d1.len() == d2.len());
    assert(d1 =~= d2) by {
        assert forall|i: int| 0 <= i < d1.len() implies d1[i] == d2[i] by {
            assert(s1[p.len() + i] == d1[i]);
            assert(s2[p.len() + i] == d2[i]);
        }
    }
    crate::numfmt::lemma_dec_injective(id1, id2);
}

/// Whether a window label belongs to this subsystem's overlay surfaces;
/// teardown must leave unrelated windows untouched.
pub fn is_overlay_label(label: &str) -> (r: bool)
    ensures
        r == has_prefix(label@, "screenshot_"@),
{
    let cs = crate::text::chars_of(label);
    let p = crate::text::chars_of("screenshot_");
    crate::text::starts_with(&cs, &p)
}

/// The live overlay surfaces, keyed by display id: never more than one
/// surface per display.
pub struct OverlayRegistry {
    pub ids: Vec<u32>,
}

impl OverlayRegistry {
    /// Display ids of live surfaces are pairwise distinct.
    pub open spec fn wf(self) -> bool {
        distinct_by(self.ids@, |x: u32| x)
    }

    /// A registry with no live surface.
    pub fn new() -> (r: Self)
        ensures
            r.wf(),
            r.ids@ == Seq::<u32>::empty(),
    {
        OverlayRegistry { ids: Vec::new() }
    }

    /// Whether a surface for display `id` is live.
    #[verifier::loop_isolation(false)]
    pub fn is_live(&self, id: u32) -> (r: bool)
        ensures
            r == self.ids@.contains(id),
    {
        let mut i: usize = 0;
        while i < self.ids.len()
            invariant
                i <= self.ids@.len(),
                forall|k: int| 0 <= k < i ==> self.ids@[k] != id,
            decreases self.ids@.len() - i,
        {
            if self.ids[i] == id {
                return true;
            }
            i = i + 1;
        }
        false
    }

    /// Ensure exactly one surface exists for display `id`: reuse the live
    /// one, or register a new one. Returns whether a surface must be
    /// created.
    pub fn ensure_surface(&mut self, id: u32) -> (created: bool)
        requires
            old(self).wf(),
        ensures
            final(self).wf(),
            created == !old(self).ids@.contains(id),
            created ==> final(self).ids@ == old(self).ids@.push(id),
            !created ==> *final(self) == *old(self),
    {
        if self.is_live(id) {
            false
        } else {
            self.ids.push(id);
            proof {
                let f = (|x: u32| x);
                assert forall|a: int, b: int|
                    0 <= a < b < self.ids@.len() implies f(#[trigger] self.ids@[a]) != f(
                    #[trigger] self.ids@[b]) by {
                    if b == self.ids@.len() - 1 {
                        assert(self.ids@[a] == old(self).ids@[a]);
                    }
                }
            }
            true
        }
    }

    /// Tear down every surface of this subsystem.
    pub fn close_all(&mut self)
        ensures
            final(self).wf(),
            final(self).ids@ == Seq::<u32>::empty(),
    {
        self.ids = Vec::new();
    }
}

} // verus!
