//! The set of connected reload listeners and the fan-out of notifications.
//!
//! One listener stands for one connected browser tab awaiting a reload
//! signal.  The broadcaster owns the set of currently registered listeners
//! and decides, for each notification, exactly who receives it: the listeners
//! present at the moment the notification is issued, each once.  Delivery
//! itself happens over transport channels outside this crate; a delivery that
//! fails marks its listener dead, and [`Broadcaster::prune_failed`] removes
//! the dead listeners from the set.

use vstd::prelude::*;

verus! {

/// The broadcaster's abstract state: the identifiers of the currently
/// registered listeners in registration order, and the next fresh identifier.
pub ghost struct BroadcastModel {
    pub ids: Seq<u64>,
    pub next_id: u64,
}

/// Listener identifiers are registered in strictly increasing order (so no
/// two listeners share one) and every identifier in use is below the next
/// fresh one.
pub open spec fn wf_model(m: BroadcastModel) -> bool {
    &&& forall|i: int, j: int| 0 <= i < j < m.ids.len() ==> m.ids[i] < m.ids[j]
    &&& forall|i: int| 0 <= i < m.ids.len() ==> m.ids[i] < m.next_id
}

/// The state after one registration: the next fresh identifier is appended
/// to the listener set and retired.
pub open spec fn spec_register(m: BroadcastModel) -> BroadcastModel {
    BroadcastModel { ids: m.ids.push(m.next_id), next_id: (m.next_id + 1) as u64 }
}

/// The predicate that keeps every listener but `id`.
pub open spec fn keep_other_than(id: u64) -> spec_fn(u64) -> bool {
    |x: u64| x != id
}

/// The predicate that keeps every listener not listed in `failed`.
pub open spec fn keep_not_failed(failed: Seq<u64>) -> spec_fn(u64) -> bool {
    |x: u64| !failed.contains(x)
}

/// The state after unregistering `id`: that listener is gone, all others
/// stay, in order.
pub open spec fn spec_unregister(m: BroadcastModel, id: u64) -> BroadcastModel {
    BroadcastModel { ids: m.ids.filter(keep_other_than(id)), next_id: m.next_id }
}

/// The state after pruning the listeners whose delivery failed.
pub open spec fn spec_prune(m: BroadcastModel, failed: Seq<u64>) -> BroadcastModel {
    BroadcastModel { ids: m.ids.filter(keep_not_failed(failed)), next_id: m.next_id }
}

/// Maintains the set of connected reload listeners.
pub struct Broadcaster {
    next_id: u64,
    listeners: Vec<u64>,
}

impl View for Broadcaster {
    type V = BroadcastModel;

    closed spec fn view(&self) -> BroadcastModel {
        BroadcastModel { ids: self.listeners@, next_id: self.next_id }
    }
}

impl Broadcaster {
    pub open spec fn wf(&self) -> bool {
        wf_model(self@)
    }

    /// An empty broadcaster: no listeners, identifiers start at zero.
    pub fn new() -> (b: Broadcaster)
        ensures
            b.wf(),
            b@.ids == Seq::<u64>::empty(),
            b@.next_id == 0,
    {
        Broadcaster { next_id: 0, listeners: Vec::new() }
    }

    /// Registers a new listener and returns its identifier, which no
    /// listener in the set already carries.
    pub fn register(&mut self) -> (id: u64)
        requires
            old(self).wf(),
            old(self)@.next_id < u64::MAX,
        ensures
            final(self).wf(),
            id == old(self)@.next_id,
            !old(self)@.ids.contains(id),
            final(self)@ == spec_register(old(self)@),
            final(self)@.ids == old(self)@.ids.push(id),
    {
        let id = self.next_id;
        self.next_id = self.next_id + 1;
        self.listeners.push(id);
        proof {
            let s = self.listeners@;
            assert forall|i: int, j: int| 0 <= i < j < s.len() implies s[i] < s[j] by {
                if j == s.len() - 1 {
                    assert(old(self)@.ids[i] < id);
                }
            }
            assert forall|i: int| 0 <= i < s.len() implies s[i] < self.next_id by {
                if i < s.len() - 1 {
                    assert(old(self)@.ids[i] < old(self)@.next_id);
                }
            }
        }
        id
    }

    /// The identifier the next registration will hand out.  Registration
    /// asks that this has not reached the last identifier, so a caller can
    /// test it first.
    pub fn peek_next_id(&self) -> (r: u64)
        ensures
            r == self@.next_id,
    {
        self.next_id
    }

    /// The recipients of one notification: exactly the listeners registered
    /// at the moment of the call, in registration order.
    pub fn recipients(&self) -> (r: Vec<u64>)
        ensures
            r@ == self@.ids,
    {
        let mut r: Vec<u64> = Vec::new();
        let mut i: usize = 0;
        while i < self.listeners.len()
            invariant
                i <= self.listeners.len(),
                r@ == self.listeners@.subrange(0, i as int),
            decreases self.listeners.len() - i,
        {
            r.push(self.listeners[i]);
            proof {
                assert(r@ =~= self.listeners@.subrange(0, i + 1));
            }
            i = i + 1;
        }
        proof {
            assert(self.listeners@.subrange(0, self.listeners@.len() as int) =~= self.listeners@);
        }
        r
    }

    /// Removes the listener with identifier `id`, if present.  Removal is
    /// total: it asks nothing of `id` and cannot fail.
    pub fn unregister(&mut self, id: u64)
        requires
            old(self).wf(),
        ensures
            final(self).wf(),
            final(self)@ == spec_unregister(old(self)@, id),
    {
        let ghost pred = keep_other_than(id);
        let mut kept: Vec<u64> = Vec::new();
        let mut i: usize = 0;
        while i < self.listeners.len()
            invariant
                i <= self.listeners.len(),
                kept@ == self.listeners@.subrange(0, i as int).filter(pred),
                pred == keep_other_than(id),
            decreases self.listeners.len() - i,
        {
            let x = self.listeners[i];
            proof {
                lemma_filter_step(self.listeners@, pred, i as int);
            }
            if x != id {
                kept.push(x);
            }
            i = i + 1;
        }
        proof {
            assert(self.listeners@.subrange(0, self.listeners@.len() as int) =~= self.listeners@);
            lemma_filter_keeps_wf(self@, pred);
        }
        self.listeners = kept;
    }

    /// Removes every listener whose identifier is in `failed`: the ones a
    /// delivery attempt found dead.  This is the garbage-collection point for
    /// dead listeners.
    pub fn prune_failed(&mut self, failed: &Vec<u64>)
        requires
            old(self).wf(),
        ensures
            final(self).wf(),
            final(self)@ == spec_prune(old(self)@, failed@),
    {
        let ghost pred = keep_not_failed(failed@);
        let mut kept: Vec<u64> = Vec::new();
        let mut i: usize = 0;
        while i < self.listeners.len()
            invariant
                i <= self.listeners.len(),
                kept@ == self.listeners@.subrange(0, i as int).filter(pred),
                pred == keep_not_failed(failed@),
            decreases self.listeners.len() - i,
        {
            let x = self.listeners[i];
            proof {
                lemma_filter_step(self.listeners@, pred, i as int);
            }
            if !vec_contains_u64(failed, x) {
                kept.push(x);
            }
            i = i + 1;
        }
        proof {
            assert(self.listeners@.subrange(0, self.listeners@.len() as int) =~= self.listeners@);
            lemma_filter_keeps_wf(self@, pred);
        }
        self.listeners = kept;
    }
}

/// Whether `v` holds `x`.
fn vec_contains_u64(v: &Vec<u64>, x: u64) -> (r: bool)
    ensures
        r == v@.contains(x),
{
    let mut i: usize = 0;
    while i < v.len()
        invariant
            i <= v.len(),
            forall|k: int| 0 <= k < i ==> v@[k] != x,
        decreases v.len() - i,
    {
        if v[i] == x {
            return true;
        }
        i = i + 1;
    }
    false
}

/// Extending a prefix by one element extends its filtering by that element
/// when the element passes the predicate, and leaves it as it was otherwise.
proof fn lemma_filter_step(s: Seq<u64>, pred: spec_fn(u64) -> bool, i: int)
    requires
        0 <= i < s.len(),
    ensures
        pred(s[i]) ==> s.subrange(0, i + 1).filter(pred) == s.subrange(0, i).filter(pred).push(s[i]),
        !pred(s[i]) ==> s.subrange(0, i + 1).filter(pred) == s.subrange(0, i).filter(pred),
{
    reveal(Seq::filter);
    let ext = s.subrange(0, i + 1);
    assert(ext.drop_last() =~= s.subrange(0, i));
    assert(ext.last() == s[i]);
}

/// Filtering keeps the listener identifiers strictly increasing and below
/// the next fresh identifier.
proof fn lemma_filter_keeps_wf(m: BroadcastModel, pred: spec_fn(u64) -> bool)
    ensures
        wf_model(m) ==> wf_model(BroadcastModel { ids: m.ids.filter(pred), next_id: m.next_id }),
{
    if wf_model(m) {
        lemma_filter_keeps_sorted_below(m.ids, pred, m.next_id);
    }
}

/// Filtering a strictly increasing sequence whose elements lie below `bound`
/// yields another one.
proof fn lemma_filter_keeps_sorted_below(s: Seq<u64>, pred: spec_fn(u64) -> bool, bound: u64)
    requires
        forall|i: int, j: int| 0 <= i < j < s.len() ==> s[i] < s[j],
        forall|i: int| 0 <= i < s.len() ==> s[i] < bound,
    ensures
        forall|i: int, j: int|
            0 <= i < j < s.filter(pred).len() ==> s.filter(pred)[i] < s.filter(pred)[j],
        forall|i: int| 0 <= i < s.filter(pred).len() ==> s.filter(pred)[i] < bound,
    decreases s.len(),
{
    reveal(Seq::filter);
    if s.len() == 0 {
    } else {
        let rest = s.drop_last();
        lemma_filter_keeps_sorted_below(rest, pred, bound);
        let f = s.filter(pred);
        let fr = rest.filter(pred);
        assert forall|i: int| 0 <= i < fr.len() implies fr[i] < s.last() by {
            assert(fr.contains(fr[i]));
            rest.lemma_filter_contains_rev(pred, fr[i]);
            let w = choose|w: int| 0 <= w < rest.len() && rest[w] == fr[i];
            assert(s[w] < s[s.len() - 1]);
        }
        if pred(s.last()) {
            assert(f == fr.push(s.last()));
        } else {
            assert(f == fr);
        }
    }
}

/// Iterated registration: the broadcaster's state after `n` further
/// listeners register, oldest first.
pub open spec fn after_registers(m: BroadcastModel, n: nat) -> BroadcastModel
    decreases n,
{
    if n == 0 {
        m
    } else {
        spec_register(after_registers(m, (n - 1) as nat))
    }
}

/// Fan-out after a burst of registrations: when `n` listeners register, one
/// after another, and one notification is then issued, its recipients are
/// exactly the listeners already present plus the `n` newly registered ones;
/// each recipient appears once, so exactly `n` reload instructions go to the
/// new listeners, one per listener; and no identifier issued only after the
/// notification's snapshot was taken (that is, at or above the snapshot's
/// next fresh identifier) is among the recipients.
pub proof fn lemma_notify_after_registrations(m: BroadcastModel, n: nat)
    requires
        wf_model(m),
        m.next_id + n <= u64::MAX,
    ensures
        ({
            let t = after_registers(m, n);
            &&& wf_model(t)
            &&& t.next_id == m.next_id + n
            &&& t.ids.len() == m.ids.len() + n
            &&& forall|k: int| 0 <= k < m.ids.len() ==> t.ids[k] == m.ids[k]
            &&& forall|k: int| 0 <= k < n ==> #[trigger] t.ids[m.ids.len() + k] == m.next_id + k
            &&& forall|i: int, j: int| 0 <= i < j < t.ids.len() ==> t.ids[i] != t.ids[j]
            &&& forall|id: u64| id >= t.next_id ==> !t.ids.contains(id)
        }),
    decreases n,
{
    let t = after_registers(m, n);
    if n == 0 {
        assert forall|id: u64| id >= t.next_id implies !t.ids.contains(id) by {
            if t.ids.contains(id) {
                let w = choose|w: int| 0 <= w < t.ids.len() && t.ids[w] == id;
            }
        }
    } else {
        let prev = after_registers(m, (n - 1) as nat);
        lemma_notify_after_registrations(m, (n - 1) as nat);
        assert(t == spec_register(prev));
        assert forall|id: u64| id >= t.next_id implies !t.ids.contains(id) by {
            if t.ids.contains(id) {
                let w = choose|w: int| 0 <= w < t.ids.len() && t.ids[w] == id;
            }
        }
    }
}

/// After a listener is unregistered, a notification never reaches it: it is
/// no longer among the recipients, while every other listener's membership
/// is untouched.  Unregistering asks nothing of the identifier, so removing
/// one that is absent or already removed cannot fail.
pub proof fn lemma_unregister_then_notify(m: BroadcastModel, id: u64)
    requires
        wf_model(m),
    ensures
        wf_model(spec_unregister(m, id)),
        !spec_unregister(m, id).ids.contains(id),
        forall|other: u64|
            other != id ==> (spec_unregister(m, id).ids.contains(other) <==> m.ids.contains(
                other,
            )),
{
    let pred = keep_other_than(id);
    let f = m.ids.filter(pred);
    lemma_filter_keeps_wf(m, pred);
    if f.contains(id) {
        m.ids.lemma_filter_contains_rev(pred, id);
    }
    assert forall|other: u64| other != id implies (f.contains(other) <==> m.ids.contains(
        other,
    )) by {
        if f.contains(other) {
            m.ids.lemma_filter_contains_rev(pred, other);
        }
        if m.ids.contains(other) {
            let w = choose|w: int| 0 <= w < m.ids.len() && m.ids[w] == other;
            m.ids.lemma_filter_contains(pred, w);
        }
    }
}

} // verus!
