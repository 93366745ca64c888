//! Multitouch gesture recognition: per-finger touch histories evaluated
//! against a priority-ordered list of recognizers.
use vstd::prelude::*;

use crate::geometry::DrawRect;

verus! {

/// What happened to a finger in one touch sample.
#[derive(Clone, Copy, Debug, PartialEq, Eq, Structural)]
pub enum EventType {
    Press,
    Move,
    Release,
}

/// One contact as reported by the touch device: its tracking id and position.
#[derive(Clone, Copy, Debug, PartialEq, Eq, Structural)]
pub struct Finger {
    pub tracking_id: i32,
    pub x: u16,
    pub y: u16,
}

/// The ordered samples of one contact, from press onwards.
#[derive(Debug)]
pub struct FingerHistory(pub Vec<(EventType, Finger)>);

impl View for FingerHistory {
    type V = Seq<(EventType, Finger)>;

    open spec fn view(&self) -> Seq<(EventType, Finger)> {
        self.0@
    }
}

impl FingerHistory {
    pub fn new() -> (r: FingerHistory)
        ensures
            r@ == Seq::<(EventType, Finger)>::empty(),
    {
        FingerHistory(Vec::new())
    }
}

/// What a recognizer reports when it fires, beside its action.
#[derive(Clone, Copy, Debug, PartialEq, Eq, Structural)]
pub enum Gesture {
    /// A tap, at the release position.
    Tap { x: u16, y: u16 },
    /// A fresh press, at its position.
    Press { x: u16, y: u16 },
    /// A release, at its position.
    Release { x: u16, y: u16 },
    /// A completed drag, with the displacement first minus latest position.
    Drag { dx: i32, dy: i32 },
}

/// When a drag counts as complete, as a bound on one axis of its
/// displacement (first minus latest position).
#[derive(Clone, Copy, Debug, PartialEq, Eq, Structural)]
pub enum DragRule {
    XAbove(i32),
    XBelow(i32),
    YAbove(i32),
    YBelow(i32),
}

impl DragRule {
    pub open spec fn completes_spec(self, dx: int, dy: int) -> bool {
        match self {
            DragRule::XAbove(t) => dx > t,
            DragRule::XBelow(t) => dx < t,
            DragRule::YAbove(t) => dy > t,
            DragRule::YBelow(t) => dy < t,
        }
    }

    pub fn completes(self, dx: i32, dy: i32) -> (r: bool)
        ensures
            r == self.completes_spec(dx as int, dy as int),
    {
        match self {
            DragRule::XAbove(t) => dx > t,
            DragRule::XBelow(t) => dx < t,
            DragRule::YAbove(t) => dy > t,
            DragRule::YBelow(t) => dy < t,
        }
    }
}

/// A predicate over a whole touch history; when it matches it yields its
/// action and what was recognized.
pub enum Recognizer<A> {
    /// Passes the history to `inner` only when its first sample lies in `zone`.
    ZoneGate { zone: DrawRect, inner: Box<Recognizer<A>> },
    /// Press then release, displaced strictly less than `hysteresis` pixels.
    Tap { hysteresis: u32, action: A },
    /// A history made of a single press.
    Press { action: A },
    /// Any history whose latest sample is a release.
    Release { action: A },
    /// Any history whose displacement satisfies `rule`.
    Drag { rule: DragRule, action: A },
}

/// Displacement of a non-empty history: first position minus latest.
pub open spec fn displacement(h: Seq<(EventType, Finger)>) -> (int, int) {
    (h[0].1.x - h.last().1.x, h[0].1.y - h.last().1.y)
}

/// Squared length of the displacement of a non-empty history.
pub open spec fn displacement_sq(h: Seq<(EventType, Finger)>) -> int {
    let d = displacement(h);
    d.0 * d.0 + d.1 * d.1
}

impl<A> Recognizer<A> {
    /// What the recognizer yields on a history, if it matches.
    pub open spec fn outcome(self, h: Seq<(EventType, Finger)>) -> Option<(A, Gesture)>
        decreases self,
    {
        match self {
            Recognizer::ZoneGate { zone, inner } => {
                if h.len() > 0 && zone.contains_spec(h[0].1.x as int, h[0].1.y as int) {
                    inner.outcome(h)
                } else {
                    None
                }
            },
            Recognizer::Tap { hysteresis, action } => {
                if h.len() >= 2 && h[0].0 == EventType::Press && h.last().0 == EventType::Release
                    && displacement_sq(h) < hysteresis * hysteresis {
                    Some((action, Gesture::Tap { x: h.last().1.x, y: h.last().1.y }))
                } else {
                    None
                }
            },
            Recognizer::Press { action } => {
                if h.len() == 1 && h[0].0 == EventType::Press {
                    Some((action, Gesture::Press { x: h[0].1.x, y: h[0].1.y }))
                } else {
                    None
                }
            },
            Recognizer::Release { action } => {
                if h.len() > 0 && h.last().0 == EventType::Release {
                    Some((action, Gesture::Release { x: h.last().1.x, y: h.last().1.y }))
                } else {
                    None
                }
            },
            Recognizer::Drag { rule, action } => {
                if h.len() > 0 && rule.completes_spec(displacement(h).0, displacement(h).1) {
                    Some(
                        (
                            action,
                            Gesture::Drag {
                                dx: displacement(h).0 as i32,
                                dy: displacement(h).1 as i32,
                            },
                        ),
                    )
                } else {
                    None
                }
            },
        }
    }
}

/// The outcome of the first recognizer, in priority order, that matches.
pub open spec fn first_match<A>(recs: Seq<Recognizer<A>>, h: Seq<(EventType, Finger)>) -> Option<
    (A, Gesture),
>
    decreases recs.len(),
{
    if recs.len() == 0 {
        None
    } else {
        match recs[0].outcome(h) {
            Some(o) => Some(o),
            None => first_match(recs.drop_first(), h),
        }
    }
}

impl<A: Copy> Recognizer<A> {
    /// Evaluates the recognizer on a history.
    pub fn check(&self, h: &FingerHistory) -> (r: Option<(A, Gesture)>)
        ensures
            r == self.outcome(h@),
        decreases self,
    {
        let n = h.0.len();
        match self {
            Recognizer::ZoneGate { zone, inner } => {
                if n > 0 && zone.contains(h.0[0].1.x as u32, h.0[0].1.y as u32) {
                    inner.check(h)
                } else {
                    None
                }
            },
            Recognizer::Tap { hysteresis, action } => {
                if n < 2 {
                    return None;
                }
                let first = h.0[0];
                let last = h.0[n - 1];
                if first.0 != EventType::Press || last.0 != EventType::Release {
                    return None;
                }
                let dx: i64 = first.1.x as i64 - last.1.x as i64;
                let dy: i64 = first.1.y as i64 - last.1.y as i64;
                assert(0 <= dx * dx <= 65535 * 65535) by (nonlinear_arith)
                    requires
                        -65535 <= dx <= 65535,
                ;
                assert(0 <= dy * dy <= 65535 * 65535) by (nonlinear_arith)
                    requires
                        -65535 <= dy <= 65535,
                ;
                let d2: u64 = (dx * dx + dy * dy) as u64;
                let hy: u64 = *hysteresis as u64;
                assert(hy * hy <= 0xffff_ffff * 0xffff_ffff) by (nonlinear_arith)
                    requires
                        0 <= hy <= 0xffff_ffff,
                ;
                if d2 < hy * hy {
                    Some((*action, Gesture::Tap { x: last.1.x, y: last.1.y }))
                } else {
                    None
                }
            },
            Recognizer::Press { action } => {
                if n == 1 && h.0[0].0 == EventType::Press {
                    Some((*action, Gesture::Press { x: h.0[0].1.x, y: h.0[0].1.y }))
                } else {
                    None
                }
            },
            Recognizer::Release { action } => {
                if n > 0 && h.0[n - 1].0 == EventType::Release {
                    Some((*action, Gesture::Release { x: h.0[n - 1].1.x, y: h.0[n - 1].1.y }))
                } else {
                    None
                }
            },
            Recognizer::Drag { rule, action } => {
                if n == 0 {
                    return None;
                }
                let dx: i32 = h.0[0].1.x as i32 - h.0[n - 1].1.x as i32;
                let dy: i32 = h.0[0].1.y as i32 - h.0[n - 1].1.y as i32;
                if rule.completes(dx, dy) {
                    Some((*action, Gesture::Drag { dx, dy }))
                } else {
                    None
                }
            },
        }
    }

    /// An independent copy of the recognizer.
    pub fn duplicate(&self) -> (r: Recognizer<A>)
        ensures
            r == *self,
        decreases self,
    {
        match self {
            Recognizer::ZoneGate { zone, inner } => {
                Recognizer::ZoneGate { zone: *zone, inner: Box::new(inner.duplicate()) }
            },
            Recognizer::Tap { hysteresis, action } => Recognizer::Tap {
                hysteresis: *hysteresis,
                action: *action,
            },
            Recognizer::Press { action } => Recognizer::Press { action: *action },
            Recognizer::Release { action } => Recognizer::Release { action: *action },
            Recognizer::Drag { rule, action } => Recognizer::Drag { rule: *rule, action: *action },
        }
    }
}

/// Gates `next` on the first sample lying inside `[position, position + size)`.
pub fn recognize_starting_zone<A>(zone: DrawRect, next: Recognizer<A>) -> (r: Recognizer<A>)
    ensures
        r == (Recognizer::ZoneGate { zone, inner: Box::new(next) }),
{
    Recognizer::ZoneGate { zone, inner: Box::new(next) }
}

/// A tap: press then release displaced strictly less than `hysteresis`.
pub fn recognize_tap<A>(hysteresis: u32, action: A) -> (r: Recognizer<A>)
    ensures
        r == (Recognizer::Tap { hysteresis, action }),
{
    Recognizer::Tap { hysteresis, action }
}

/// A press: fires the instant a single-sample press history exists.
pub fn recognize_press<A>(action: A) -> (r: Recognizer<A>)
    ensures
        r == (Recognizer::Press { action }),
{
    Recognizer::Press { action }
}

/// A release: fires whenever the latest sample is a release.
pub fn recognize_release<A>(action: A) -> (r: Recognizer<A>)
    ensures
        r == (Recognizer::Release { action }),
{
    Recognizer::Release { action }
}

/// A drag: fires once the displacement satisfies `rule`.
pub fn recognize_drag<A>(rule: DragRule, action: A) -> (r: Recognizer<A>)
    ensures
        r == (Recognizer::Drag { rule, action }),
{
    Recognizer::Drag { rule, action }
}

/// Evaluates recognizers in priority order, stopping at the first match.
pub fn first_matching<A: Copy>(recs: &Vec<Recognizer<A>>, h: &FingerHistory) -> (r: Option<
    (A, Gesture),
>)
    ensures
        r == first_match(recs@, h@),
{
    let n = recs.len();
    let mut i: usize = 0;
    assert(recs@.subrange(0, n as int) =~= recs@);
    while i < n
        invariant
            n == recs@.len(),
            i <= n,
            first_match(recs@, h@) == first_match(recs@.subrange(i as int, n as int), h@),
        decreases n - i,
    {
        proof {
            let rest = recs@.subrange(i as int, n as int);
            assert(rest[0] == recs@[i as int]);
            assert(rest.drop_first() =~= recs@.subrange(i + 1, n as int));
        }
        let o = recs[i].check(h);
        if o.is_some() {
            return o;
        }
        i = i + 1;
    }
    assert(recs@.subrange(n as int, n as int).len() == 0);
    None
}

} // verus!

verus! {

/// A touch history as a plain sequence of samples.
pub type Samples = Seq<(EventType, Finger)>;

/// One firing of a recognizer: which finger, the recognizer's action, and
/// what it recognized.
#[derive(Debug)]
pub struct GestureMatch<A> {
    pub finger_id: i32,
    pub action: A,
    pub gesture: Gesture,
}

/// The model of the live fingers: `(id, history)` pairs.
pub open spec fn entries_view(v: Seq<(i32, FingerHistory)>) -> Seq<(i32, Samples)> {
    v.map_values(|e: (i32, FingerHistory)| (e.0, e.1@))
}

/// Ids strictly ascending, hence at most one history per id.
pub open spec fn ids_ascending(s: Seq<(i32, Samples)>) -> bool {
    forall|i: int, j: int| 0 <= i < j < s.len() ==> s[i].0 < s[j].0
}

/// Whether some entry belongs to finger `id`.
pub open spec fn has_id(s: Seq<(i32, Samples)>, id: i32) -> bool {
    exists|i: int| 0 <= i < s.len() && s[i].0 == id
}

/// Index of the first entry whose id is not below `id`.
pub open spec fn slot(s: Seq<(i32, Samples)>, id: i32) -> int
    decreases s.len(),
{
    if s.len() == 0 || s[0].0 >= id {
        0
    } else {
        1 + slot(s.drop_first(), id)
    }
}

/// The history of finger `id`, empty when it has none.
pub open spec fn lookup(s: Seq<(i32, Samples)>, id: i32) -> Samples {
    let p = slot(s, id);
    if p < s.len() && s[p].0 == id {
        s[p].1
    } else {
        Seq::empty()
    }
}

/// `s` with the history of finger `id` set to `h`, keeping ids in order.
pub open spec fn upsert(s: Seq<(i32, Samples)>, id: i32, h: Samples) -> Seq<(i32, Samples)> {
    let p = slot(s, id);
    if p < s.len() && s[p].0 == id {
        s.update(p, (id, h))
    } else {
        s.insert(p, (id, h))
    }
}

/// Entries of `s` that satisfy `keep`, in order.
pub open spec fn retain(s: Seq<(i32, Samples)>, keep: spec_fn((i32, Samples)) -> bool) -> Seq<
    (i32, Samples),
>
    decreases s.len(),
{
    if s.len() == 0 {
        s
    } else if keep(s.last()) {
        retain(s.drop_last(), keep).push(s.last())
    } else {
        retain(s.drop_last(), keep)
    }
}

/// The entries on which no recognizer fires.
pub open spec fn unmatched<A>(s: Seq<(i32, Samples)>, recs: Seq<Recognizer<A>>) -> Seq<
    (i32, Samples),
> {
    retain(s, no_match(recs))
}

/// Holds of an entry on which no recognizer of `recs` fires.
pub open spec fn no_match<A>(recs: Seq<Recognizer<A>>) -> spec_fn((i32, Samples)) -> bool {
    |e: (i32, Samples)| first_match(recs, e.1) is None
}

/// Holds of an entry of any finger but `id`.
pub open spec fn other_than(id: i32) -> spec_fn((i32, Samples)) -> bool {
    |e: (i32, Samples)| e.0 != id
}

/// The entries of every finger but `id`.
pub open spec fn without(s: Seq<(i32, Samples)>, id: i32) -> Seq<(i32, Samples)> {
    retain(s, other_than(id))
}

/// What fires, finger by finger in the order of `s`.
pub open spec fn matches_of<A>(s: Seq<(i32, Samples)>, recs: Seq<Recognizer<A>>) -> Seq<
    GestureMatch<A>,
>
    decreases s.len(),
{
    if s.len() == 0 {
        Seq::empty()
    } else {
        let prev = matches_of(s.drop_last(), recs);
        match first_match(recs, s.last().1) {
            Some(o) => prev.push(GestureMatch { finger_id: s.last().0, action: o.0, gesture: o.1 }),
            None => prev,
        }
    }
}

/// `s` in reverse order.
pub open spec fn reversed<T>(s: Seq<T>) -> Seq<T> {
    Seq::new(s.len(), |i: int| s[s.len() - 1 - i])
}

proof fn lemma_slot_bounds(s: Seq<(i32, Samples)>, id: i32)
    ensures
        0 <= slot(s, id) <= s.len(),
        forall|i: int| 0 <= i < slot(s, id) ==> s[i].0 < id,
        slot(s, id) < s.len() ==> s[slot(s, id)].0 >= id,
    decreases s.len(),
{
    if s.len() > 0 && s[0].0 < id {
        lemma_slot_bounds(s.drop_first(), id);
        assert forall|i: int| 0 <= i < slot(s, id) implies s[i].0 < id by {
            if i > 0 {
                assert(s[i] == s.drop_first()[i - 1]);
            }
        }
    }
}

proof fn lemma_slot_is(s: Seq<(i32, Samples)>, id: i32, p: int)
    requires
        0 <= p <= s.len(),
        forall|i: int| 0 <= i < p ==> s[i].0 < id,
        p < s.len() ==> s[p].0 >= id,
    ensures
        slot(s, id) == p,
    decreases p,
{
    if p > 0 {
        lemma_slot_is(s.drop_first(), id, p - 1);
    }
}

proof fn lemma_upsert_ascending(s: Seq<(i32, Samples)>, id: i32, h: Samples)
    requires
        ids_ascending(s),
    ensures
        ids_ascending(upsert(s, id, h)),
        has_id(upsert(s, id, h), id),
{
    lemma_slot_bounds(s, id);
    let p = slot(s, id);
    let u = upsert(s, id, h);
    assert(u[p] == (id, h));
}

proof fn lemma_retain(s: Seq<(i32, Samples)>, keep: spec_fn((i32, Samples)) -> bool)
    requires
        ids_ascending(s),
    ensures
        ids_ascending(retain(s, keep)),
        forall|k: int|
            0 <= k < retain(s, keep).len() ==> keep(#[trigger] retain(s, keep)[k]) && exists|i: int|
                0 <= i < s.len() && s[i] == retain(s, keep)[k],
        forall|i: int| 0 <= i < s.len() && keep(#[trigger] s[i]) ==> has_id(retain(s, keep), s[i].0),
    decreases s.len(),
{
    if s.len() > 0 {
        let t = s.drop_last();
        lemma_retain(t, keep);
        let r = retain(s, keep);
        let rt = retain(t, keep);
        assert forall|k: int| 0 <= k < rt.len() implies rt[k].0 < s.last().0 by {
            let i = choose|i: int| 0 <= i < t.len() && t[i] == rt[k];
            assert(s[i] == t[i]);
        }
        assert forall|k: int| 0 <= k < r.len() implies keep(#[trigger] r[k]) && exists|i: int|
            0 <= i < s.len() && s[i] == r[k] by {
            if k < rt.len() {
                assert(r[k] == rt[k]);
                let i = choose|i: int| 0 <= i < t.len() && t[i] == rt[k];
                assert(s[i] == t[i]);
            } else {
                assert(r[k] == s[s.len() - 1]);
            }
        }
        assert forall|i: int| 0 <= i < s.len() && keep(#[trigger] s[i]) implies has_id(r, s[i].0) by {
            if i < s.len() - 1 {
                assert(t[i] == s[i]);
                let k = choose|k: int| 0 <= k < rt.len() && rt[k].0 == t[i].0;
                assert(r[k] == rt[k]);
            } else {
                assert(r[r.len() - 1] == s[i]);
            }
        }
    }
}

/// Per-finger touch histories and the recognizers tried on them, front first.
pub struct GestureRecognizer<A> {
    active_fingers: Vec<(i32, FingerHistory)>,
    callbacks: Vec<Recognizer<A>>,
}

impl<A: Copy> GestureRecognizer<A> {
    /// The live fingers and their histories, in ascending id order.
    pub closed spec fn entries(&self) -> Seq<(i32, Samples)> {
        entries_view(self.active_fingers@)
    }

    /// The recognizers, highest priority first.
    pub closed spec fn callbacks(&self) -> Seq<Recognizer<A>> {
        self.callbacks@
    }

    pub open spec fn wf(&self) -> bool {
        ids_ascending(self.entries())
    }

    /// An engine with no live finger and no recognizer.
    pub fn new() -> (r: GestureRecognizer<A>)
        ensures
            r.wf(),
            r.entries().len() == 0,
            r.callbacks().len() == 0,
    {
        GestureRecognizer { active_fingers: Vec::new(), callbacks: Vec::new() }
    }

    /// Adds a recognizer at the lowest priority.
    pub fn with_callback(self, f: Recognizer<A>) -> (r: GestureRecognizer<A>)
        ensures
            r.entries() == self.entries(),
            r.callbacks() == self.callbacks().push(f),
    {
        let mut s = self;
        s.callbacks.push(f);
        s
    }

    /// Appends the recognizers of `other` below those of `self`.
    pub fn with_recognizer(self, other: GestureRecognizer<A>) -> (r: GestureRecognizer<A>)
        ensures
            r.entries() == self.entries(),
            r.callbacks() == self.callbacks() + other.callbacks(),
    {
        let mut s = self;
        let mut o = other;
        s.callbacks.append(&mut o.callbacks);
        s
    }

    /// Reverses the priority order of the recognizers.
    pub fn reverse_callback_priority(self) -> (r: GestureRecognizer<A>)
        ensures
            r.entries() == self.entries(),
            r.callbacks() == reversed(self.callbacks()),
    {
        let mut s = self;
        let ghost orig = s.callbacks@;
        let mut out: Vec<Recognizer<A>> = Vec::new();
        while s.callbacks.len() > 0
            invariant
                s.callbacks@ == orig.subrange(0, orig.len() - out@.len()),
                out@.len() <= orig.len(),
                forall|i: int| 0 <= i < out@.len() ==> out@[i] == orig[orig.len() - 1 - i],
                s.active_fingers@ == self.active_fingers@,
            decreases s.callbacks@.len(),
        {
            let c = s.callbacks.pop().unwrap();
            out.push(c);
        }
        s.callbacks = out;
        assert(s.callbacks@ =~= reversed(orig));
        s
    }

    /// Whether finger `id` has a live history.
    pub fn is_tracking(&self, id: i32) -> (r: bool)
        requires
            self.wf(),
        ensures
            r == has_id(self.entries(), id),
    {
        let n = self.active_fingers.len();
        let mut i: usize = 0;
        while i < n
            invariant
                n == self.active_fingers@.len(),
                i <= n,
                forall|j: int| 0 <= j < i ==> self.entries()[j].0 != id,
            decreases n - i,
        {
            if self.active_fingers[i].0 == id {
                assert(self.entries()[i as int].0 == id);
                return true;
            }
            i = i + 1;
        }
        false
    }

    fn find_slot(&self, id: i32) -> (p: usize)
        requires
            self.wf(),
        ensures
            p == slot(self.entries(), id),
            p <= self.entries().len(),
    {
        let n = self.active_fingers.len();
        let mut i: usize = 0;
        while i < n && self.active_fingers[i].0 < id
            invariant
                n == self.active_fingers@.len(),
                i <= n,
                forall|j: int| 0 <= j < i ==> self.entries()[j].0 < id,
            decreases n - i,
        {
            i = i + 1;
        }
        proof {
            lemma_slot_is(self.entries(), id, i as int);
        }
        i
    }

    /// Sets the history of finger `id` to `h`.
    fn put_history(&mut self, id: i32, h: FingerHistory)
        requires
            old(self).wf(),
        ensures
            final(self).wf(),
            final(self).entries() == upsert(old(self).entries(), id, h@),
            final(self).callbacks() == old(self).callbacks(),
    {
        let p = self.find_slot(id);
        let ghost v = self.active_fingers@;
        proof {
            lemma_upsert_ascending(self.entries(), id, h@);
        }
        if p < self.active_fingers.len() && self.active_fingers[p].0 == id {
            let _ = self.active_fingers.remove(p);
            self.active_fingers.insert(p, (id, h));
            assert(self.active_fingers@ =~= v.update(p as int, (id, h)));
            assert(self.entries() =~= upsert(entries_view(v), id, h@));
        } else {
            self.active_fingers.insert(p, (id, h));
            assert(self.entries() =~= upsert(entries_view(v), id, h@));
        }
    }

    /// Appends `sample` to the history of finger `id`, opening one if needed.
    fn add_sample(&mut self, id: i32, sample: (EventType, Finger))
        requires
            old(self).wf(),
        ensures
            final(self).wf(),
            final(self).entries() == upsert(
                old(self).entries(),
                id,
                lookup(old(self).entries(), id).push(sample),
            ),
            final(self).callbacks() == old(self).callbacks(),
    {
        let p = self.find_slot(id);
        let ghost v = self.active_fingers@;
        let ghost s = self.entries();
        proof {
            lemma_slot_bounds(s, id);
            lemma_upsert_ascending(s, id, lookup(s, id).push(sample));
        }
        if p < self.active_fingers.len() && self.active_fingers[p].0 == id {
            let mut e = self.active_fingers.remove(p);
            e.1.0.push(sample);
            self.active_fingers.insert(p, e);
            assert(self.active_fingers@ =~= v.update(p as int, e));
            assert(self.entries() =~= upsert(s, id, lookup(s, id).push(sample)));
        } else {
            let mut h = FingerHistory::new();
            h.0.push(sample);
            self.active_fingers.insert(p, (id, h));
            assert(h@ =~= lookup(s, id).push(sample));
            assert(self.entries() =~= upsert(s, id, lookup(s, id).push(sample)));
        }
    }

    /// Tries every live finger, in ascending id order, against the
    /// recognizers; the fingers that fired are dropped afterwards.
    fn check_gesture(&mut self) -> (r: Vec<GestureMatch<A>>)
        requires
            old(self).wf(),
        ensures
            final(self).wf(),
            final(self).callbacks() == old(self).callbacks(),
            r@ == matches_of(old(self).entries(), old(self).callbacks()),
            final(self).entries() == unmatched(old(self).entries(), old(self).callbacks()),
            forall|k: int|
                0 <= k < r@.len() ==> !has_id(final(self).entries(), #[trigger] r@[k].finger_id),
    {
        let mut rest: Vec<(i32, FingerHistory)> = Vec::new();
        std::mem::swap(&mut rest, &mut self.active_fingers);
        let ghost s = entries_view(rest@);
        let ghost recs = self.callbacks@;
        let n = rest.len();
        let mut out: Vec<GestureMatch<A>> = Vec::new();
        let mut i: usize = 0;
        assert(s.subrange(0, 0) =~= Seq::<(i32, Samples)>::empty());
        assert(entries_view(self.active_fingers@) =~= Seq::<(i32, Samples)>::empty());
        assert(s.subrange(0, n as int) =~= s);
        while rest.len() > 0
            invariant
                i + rest@.len() == n,
                n == s.len(),
                entries_view(rest@) == s.subrange(i as int, n as int),
                out@ == matches_of(s.subrange(0, i as int), recs),
                entries_view(self.active_fingers@) == unmatched(s.subrange(0, i as int), recs),
                self.callbacks@ == recs,
            decreases rest@.len(),
        {
            let ghost before = rest@;
            let e = rest.remove(0);
            proof {
                assert(e == before[0]);
                assert(entries_view(before)[0] == (e.0, e.1@));
                assert(s.subrange(i as int, n as int)[0] == s[i as int]);
                assert(rest@ =~= before.subrange(1, before.len() as int));
                assert forall|k: int| 0 <= k < rest@.len() implies entries_view(rest@)[k] == s[i + 1
                    + k] by {
                    assert(entries_view(before)[k + 1] == s.subrange(i as int, n as int)[k + 1]);
                }
                assert(entries_view(rest@) =~= s.subrange(i + 1, n as int));
                assert(s[i as int] == (e.0, e.1@));
                assert(s.subrange(0, i + 1).drop_last() =~= s.subrange(0, i as int));
            }
            let ghost kept = self.active_fingers@;
            match first_matching(&self.callbacks, &e.1) {
                Some(o) => {
                    out.push(GestureMatch { finger_id: e.0, action: o.0, gesture: o.1 });
                },
                None => {
                    self.active_fingers.push(e);
                    assert(entries_view(self.active_fingers@) =~= entries_view(kept).push(
                        (e.0, e.1@),
                    ));
                },
            }
            i = i + 1;
        }
        proof {
            lemma_retain(s, no_match(recs));
            lemma_matches_of(s, recs);
            assert forall|k: int| 0 <= k < out@.len() implies !has_id(
                self.entries(),
                #[trigger] out@[k].finger_id,
            ) by {
                let u = self.entries();
                if has_id(u, out@[k].finger_id) {
                    let j = choose|j: int| 0 <= j < u.len() && u[j].0 == out@[k].finger_id;
                    let a = choose|a: int| 0 <= a < s.len() && s[a] == u[j];
                    let b = choose|b: int|
                        0 <= b < s.len() && s[b].0 == out@[k].finger_id && first_match(
                            recs,
                            s[b].1,
                        ) is Some;
                    assert(no_match(recs)(u[j]));
                    if a < b {
                        assert(s[a].0 < s[b].0);
                    } else if b < a {
                        assert(s[b].0 < s[a].0);
                    }
                }
            }
        }
        out
    }

    /// A finger touches down: its history restarts with this press, then
    /// every live finger is evaluated.
    pub fn finger_press(&mut self, finger: Finger) -> (r: Vec<GestureMatch<A>>)
        requires
            old(self).wf(),
        ensures
            final(self).wf(),
            final(self).callbacks() == old(self).callbacks(),
            ({
                let s = upsert(
                    old(self).entries(),
                    finger.tracking_id,
                    seq![(EventType::Press, finger)],
                );
                &&& r@ == matches_of(s, old(self).callbacks())
                &&& final(self).entries() == unmatched(s, old(self).callbacks())
            }),
            forall|k: int|
                0 <= k < r@.len() ==> !has_id(final(self).entries(), #[trigger] r@[k].finger_id),
    {
        let mut h = FingerHistory::new();
        h.0.push((EventType::Press, finger));
        assert(h@ =~= seq![(EventType::Press, finger)]);
        self.put_history(finger.tracking_id, h);
        self.check_gesture()
    }

    /// A finger moves: the sample is appended, then every live finger is
    /// evaluated. A finger with no live history (its gesture already fired)
    /// is ignored, so a recognizer fires at most once per gesture.
    pub fn finger_move(&mut self, finger: Finger) -> (r: Vec<GestureMatch<A>>)
        requires
            old(self).wf(),
        ensures
            final(self).wf(),
            final(self).callbacks() == old(self).callbacks(),
            !has_id(old(self).entries(), finger.tracking_id) ==> r@.len() == 0
                && final(self).entries() == old(self).entries(),
            has_id(old(self).entries(), finger.tracking_id) ==> ({
                let s = upsert(
                    old(self).entries(),
                    finger.tracking_id,
                    lookup(old(self).entries(), finger.tracking_id).push((EventType::Move, finger)),
                );
                &&& r@ == matches_of(s, old(self).callbacks())
                &&& final(self).entries() == unmatched(s, old(self).callbacks())
            }),
            forall|k: int|
                0 <= k < r@.len() ==> !has_id(final(self).entries(), #[trigger] r@[k].finger_id),
    {
        if !self.is_tracking(finger.tracking_id) {
            return Vec::new();
        }
        self.add_sample(finger.tracking_id, (EventType::Move, finger));
        self.check_gesture()
    }

    /// A finger lifts: the sample is appended, every live finger is
    /// evaluated, and the lifted finger's history is discarded whatever
    /// the outcome. A finger with no live history is ignored.
    pub fn finger_release(&mut self, finger: Finger) -> (r: Vec<GestureMatch<A>>)
        requires
            old(self).wf(),
        ensures
            final(self).wf(),
            final(self).callbacks() == old(self).callbacks(),
            !has_id(old(self).entries(), finger.tracking_id) ==> r@.len() == 0
                && final(self).entries() == old(self).entries(),
            has_id(old(self).entries(), finger.tracking_id) ==> ({
                let s = upsert(
                    old(self).entries(),
                    finger.tracking_id,
                    lookup(old(self).entries(), finger.tracking_id).push(
                        (EventType::Release, finger),
                    ),
                );
                &&& r@ == matches_of(s, old(self).callbacks())
                &&& final(self).entries() == without(
                    unmatched(s, old(self).callbacks()),
                    finger.tracking_id,
                )
            }),
            !has_id(final(self).entries(), finger.tracking_id),
            forall|k: int|
                0 <= k < r@.len() ==> !has_id(final(self).entries(), #[trigger] r@[k].finger_id),
    {
        if !self.is_tracking(finger.tracking_id) {
            return Vec::new();
        }
        self.add_sample(finger.tracking_id, (EventType::Release, finger));
        let r = self.check_gesture();
        let ghost mid = self.entries();
        let _ = self.take_history(finger.tracking_id);
        proof {
            lemma_without_all(mid, finger.tracking_id);
            lemma_retain(mid, other_than(finger.tracking_id));
            assert forall|k: int| 0 <= k < r@.len() implies !has_id(
                self.entries(),
                #[trigger] r@[k].finger_id,
            ) by {
                if has_id(self.entries(), r@[k].finger_id) {
                    let j = choose|j: int|
                        0 <= j < self.entries().len() && self.entries()[j].0 == r@[k].finger_id;
                    let a = choose|a: int| 0 <= a < mid.len() && mid[a] == self.entries()[j];
                    assert(has_id(mid, r@[k].finger_id));
                }
            }
        }
        r
    }

    /// Removes and returns the history of finger `id`, empty if it has none.
    #[verifier::rlimit(40)]
    fn take_history(&mut self, id: i32) -> (h: FingerHistory)
        requires
            old(self).wf(),
        ensures
            final(self).wf(),
            h@ == lookup(old(self).entries(), id),
            final(self).callbacks() == old(self).callbacks(),
            final(self).entries() == without(old(self).entries(), id),
    {
        let p = self.find_slot(id);
        let ghost s = self.entries();
        proof {
            lemma_slot_bounds(s, id);
            lemma_retain(s, other_than(id));
            lemma_without_all(s, id);
        }
        if p < self.active_fingers.len() && self.active_fingers[p].0 == id {
            let e = self.active_fingers.remove(p);
            proof {
                lemma_without_at(s, id, p as int);
            }
            assert(self.entries() =~= s.remove(p as int));
            e.1
        } else {
            proof {
                lemma_without_absent(s, id);
            }
            FingerHistory::new()
        }
    }
}

proof fn lemma_matches_of<A>(s: Seq<(i32, Samples)>, recs: Seq<Recognizer<A>>)
    ensures
        forall|k: int|
            0 <= k < matches_of(s, recs).len() ==> exists|b: int|
                0 <= b < s.len() && s[b].0 == (#[trigger] matches_of(s, recs)[k]).finger_id
                    && first_match(recs, s[b].1) is Some,
    decreases s.len(),
{
    if s.len() > 0 {
        let t = s.drop_last();
        lemma_matches_of(t, recs);
        let m = matches_of(s, recs);
        let mt = matches_of(t, recs);
        assert forall|k: int| 0 <= k < m.len() implies exists|b: int|
            0 <= b < s.len() && s[b].0 == (#[trigger] m[k]).finger_id && first_match(
                recs,
                s[b].1,
            ) is Some by {
            if k < mt.len() {
                assert(m[k] == mt[k]);
                let b = choose|b: int|
                    0 <= b < t.len() && t[b].0 == mt[k].finger_id && first_match(recs, t[b].1) is Some;
                assert(s[b] == t[b]);
            } else {
                assert(s[s.len() - 1].0 == m[k].finger_id);
            }
        }
    }
}

proof fn lemma_retain_kept(s: Seq<(i32, Samples)>, keep: spec_fn((i32, Samples)) -> bool)
    ensures
        forall|k: int| 0 <= k < retain(s, keep).len() ==> keep(#[trigger] retain(s, keep)[k]),
    decreases s.len(),
{
    if s.len() > 0 {
        let r = retain(s, keep);
        let rt = retain(s.drop_last(), keep);
        lemma_retain_kept(s.drop_last(), keep);
        assert forall|k: int| 0 <= k < r.len() implies keep(#[trigger] r[k]) by {
            if k < rt.len() {
                assert(r[k] == rt[k]);
            }
        }
    }
}

proof fn lemma_without_all(s: Seq<(i32, Samples)>, id: i32)
    ensures
        forall|k: int| 0 <= k < without(s, id).len() ==> without(s, id)[k].0 != id,
{
    lemma_retain_kept(s, other_than(id));
}

proof fn lemma_without_absent(s: Seq<(i32, Samples)>, id: i32)
    requires
        forall|i: int| 0 <= i < s.len() ==> s[i].0 != id,
    ensures
        without(s, id) == s,
    decreases s.len(),
{
    if s.len() > 0 {
        lemma_without_absent(s.drop_last(), id);
        assert(s.drop_last().push(s.last()) =~= s);
    }
}

proof fn lemma_without_at(s: Seq<(i32, Samples)>, id: i32, p: int)
    requires
        ids_ascending(s),
        0 <= p < s.len(),
        s[p].0 == id,
    ensures
        without(s, id) == s.remove(p),
    decreases s.len(),
{
    let t = s.drop_last();
    if p == s.len() - 1 {
        assert forall|i: int| 0 <= i < t.len() implies t[i].0 != id by {
            assert(t[i] == s[i]);
        }
        lemma_without_absent(t, id);
        assert(s.remove(p) =~= t);
    } else {
        assert(ids_ascending(t));
        lemma_without_at(t, id, p);
        assert(s.last().0 != id);
        assert(t.remove(p).push(s.last()) =~= s.remove(p));
    }
}

} // verus!

verus! {

/// A tap matches exactly when the history has two samples or more, starts
/// with a press, ends with a release and is displaced strictly less than
/// the hysteresis; a displacement of exactly the hysteresis does not match.
pub proof fn tap_matches_iff<A>(tap: Recognizer<A>, h: Samples)
    requires
        tap is Tap,
    ensures
        (tap.outcome(h) is Some) <==> (h.len() >= 2 && h[0].0 == EventType::Press && h.last().0
            == EventType::Release && displacement_sq(h) < tap->hysteresis * tap->hysteresis),
        h.len() >= 2 && displacement_sq(h) == tap->hysteresis * tap->hysteresis ==> tap.outcome(h)
            == None::<(A, Gesture)>,
{
}

/// A zone gate decides on the first sample alone: outside the zone it never
/// consults its inner recognizer; inside, later samples wherever they lie
/// leave the decision to the inner one.
pub proof fn zone_gate_first_sample<A>(gate: Recognizer<A>, h: Samples)
    requires
        gate is ZoneGate,
        h.len() > 0,
    ensures
        !gate->zone.contains_spec(h[0].1.x as int, h[0].1.y as int) ==> gate.outcome(h) == None::<
            (A, Gesture),
        >,
        gate->zone.contains_spec(h[0].1.x as int, h[0].1.y as int) ==> gate.outcome(h)
            == gate->inner.outcome(h),
{
}

/// When two recognizers both match a history, the one in front fires;
/// reversing their order makes the other one fire.
pub proof fn front_recognizer_wins<A>(r1: Recognizer<A>, r2: Recognizer<A>, h: Samples)
    requires
        r1.outcome(h) is Some,
        r2.outcome(h) is Some,
    ensures
        first_match(seq![r1, r2], h) == r1.outcome(h),
        first_match(reversed(seq![r1, r2]), h) == r2.outcome(h),
{
    assert(seq![r1, r2][0] == r1);
    assert(reversed(seq![r1, r2]) =~= seq![r2, r1]);
    assert(seq![r2, r1][0] == r2);
}

} // verus!

verus! {

proof fn lemma_upsert_other(e: Seq<(i32, Samples)>, id2: i32, h: Samples, id: i32)
    requires
        id != id2,
        has_id(upsert(e, id2, h), id),
    ensures
        has_id(e, id),
{
    lemma_slot_bounds(e, id2);
    let p = slot(e, id2);
    let u = upsert(e, id2, h);
    let j = choose|j: int| 0 <= j < u.len() && u[j].0 == id;
    if p < e.len() && e[p].0 == id2 {
        assert(u[j] == e[j]);
    } else if j < p {
        assert(u[j] == e[j]);
    } else {
        assert(j != p);
        assert(u[j] == e[j - 1]);
    }
}

/// Once a finger's gesture has fired, the finger has no history. A sample
/// of any other finger then neither reports it nor gives it a history back,
/// and the finger's own moves and releases are ignored; so a finger fires
/// at most once per gesture, until it is pressed again.
pub proof fn fired_finger_stays_silent<A>(
    e: Seq<(i32, Samples)>,
    recs: Seq<Recognizer<A>>,
    id2: i32,
    h: Samples,
    id: i32,
)
    requires
        ids_ascending(e),
        !has_id(e, id),
        id2 != id,
    ensures
        forall|k: int|
            0 <= k < matches_of(upsert(e, id2, h), recs).len() ==> (#[trigger] matches_of(
                upsert(e, id2, h),
                recs,
            )[k]).finger_id != id,
        !has_id(unmatched(upsert(e, id2, h), recs), id),
        !has_id(without(unmatched(upsert(e, id2, h), recs), id2), id),
{
    let s = upsert(e, id2, h);
    lemma_upsert_ascending(e, id2, h);
    if has_id(s, id) {
        lemma_upsert_other(e, id2, h, id);
    }
    lemma_matches_of(s, recs);
    lemma_retain(s, no_match(recs));
    let u = unmatched(s, recs);
    if has_id(u, id) {
        let j = choose|j: int| 0 <= j < u.len() && u[j].0 == id;
        let b = choose|b: int| 0 <= b < s.len() && s[b] == u[j];
        assert(s[b].0 == id);
    }
    lemma_retain(u, other_than(id2));
    let w = without(u, id2);
    if has_id(w, id) {
        let j = choose|j: int| 0 <= j < w.len() && w[j].0 == id;
        let b = choose|b: int| 0 <= b < u.len() && u[b] == w[j];
        assert(u[b].0 == id);
    }
}

} // verus!

verus! {

proof fn lemma_retain_contains(
    s: Seq<(i32, Samples)>,
    keep: spec_fn((i32, Samples)) -> bool,
    x: (i32, Samples),
)
    requires
        s.contains(x),
        keep(x),
    ensures
        retain(s, keep).contains(x),
    decreases s.len(),
{
    let t = s.drop_last();
    if s.last() == x {
        let r = retain(s, keep);
        assert(r[r.len() - 1] == x);
    } else {
        let j = choose|j: int| 0 <= j < s.len() && s[j] == x;
        assert(t[j] == x);
        lemma_retain_contains(t, keep, x);
        let r = retain(t, keep);
        let i = choose|i: int| 0 <= i < r.len() && r[i] == x;
        if keep(s.last()) {
            assert(retain(s, keep)[i] == x);
        }
    }
}

proof fn lemma_upsert_keeps(e: Seq<(i32, Samples)>, id: i32, h: Samples, x: (i32, Samples))
    requires
        e.contains(x),
        x.0 != id,
    ensures
        upsert(e, id, h).contains(x),
{
    lemma_slot_bounds(e, id);
    let p = slot(e, id);
    let u = upsert(e, id, h);
    let j = choose|j: int| 0 <= j < e.len() && e[j] == x;
    if p < e.len() && e[p].0 == id {
        assert(u[j] == x);
    } else if j < p {
        assert(u[j] == x);
    } else {
        assert(u[j + 1] == x);
    }
}

/// A sample of one finger leaves every other finger on which no recognizer
/// fires with its history exactly as it was, also when the sample is a
/// release.
pub proof fn others_keep_history<A>(
    e: Seq<(i32, Samples)>,
    recs: Seq<Recognizer<A>>,
    id: i32,
    h: Samples,
    k: i32,
    hk: Samples,
)
    requires
        e.contains((k, hk)),
        k != id,
        first_match(recs, hk) is None,
    ensures
        unmatched(upsert(e, id, h), recs).contains((k, hk)),
        without(unmatched(upsert(e, id, h), recs), id).contains((k, hk)),
{
    lemma_upsert_keeps(e, id, h, (k, hk));
    lemma_retain_contains(upsert(e, id, h), no_match(recs), (k, hk));
    lemma_retain_contains(unmatched(upsert(e, id, h), recs), other_than(id), (k, hk));
}

} // verus!
