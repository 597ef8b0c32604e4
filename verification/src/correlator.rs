//! Request/response correlation: fresh identifiers, one pending slot
//! per outstanding request, and exactly-once resolution.
//!
//! The completion primitive the caller blocks on (a oneshot channel,
//! a condition variable) lives with the caller, keyed by the identifier;
//! this table decides which request an answer belongs to, and it is the
//! single source of truth for what is outstanding.

use vstd::prelude::*;

use crate::protocol::{opt_bytes_view, BridgeEvent, SpecEvent};

verus! {

/// One outstanding or answered request.
#[derive(Debug, Clone, PartialEq, Eq)]
pub struct PendingSlot {
    /// The request identifier the slot belongs to.
    pub id: i64,
    /// Whether an answer has arrived.
    pub resolved: bool,
    /// The answer, once one has arrived.
    pub value: Option<Vec<u8>>,
}

/// Specification twin of [`PendingSlot`].
pub struct SpecPending {
    pub id: int,
    pub resolved: bool,
    pub value: Option<Seq<u8>>,
}

impl View for PendingSlot {
    type V = SpecPending;

    open spec fn view(&self) -> SpecPending {
        SpecPending { id: self.id as int, resolved: self.resolved, value: opt_bytes_view(self.value) }
    }
}

/// The view of a slot table.
pub open spec fn slots_view(s: Seq<PendingSlot>) -> Seq<SpecPending> {
    s.map_values(|p: PendingSlot| p@)
}

/// Whether a table holds a slot for an identifier.
pub open spec fn has_slot(s: Seq<SpecPending>, id: int) -> bool {
    exists|i: int| 0 <= i < s.len() && s[i].id == id
}

/// What resolving an identifier does to a table: the waiting slot for
/// that identifier takes the value, everything else stays as it was.
/// An unknown identifier, or one already resolved, changes nothing.
pub open spec fn spec_resolve(s: Seq<SpecPending>, id: int, v: Option<Seq<u8>>) -> Seq<
    SpecPending,
> {
    s.map_values(
        |p: SpecPending|
            if p.id == id && !p.resolved {
                SpecPending { id: p.id, resolved: true, value: v }
            } else {
                p
            },
    )
}

/// The first waiting slot for an identifier, if any.
fn find_waiting(pending: &Vec<PendingSlot>, id: i64) -> (r: Option<usize>)
    ensures
        ({
            let s = slots_view(pending@);
            match r {
                Some(j) => j < s.len() && s[j as int].id == id as int && !s[j as int].resolved
                    && (forall|k: int|
                    0 <= k < j ==> !((#[trigger] s[k]).id == id as int && !s[k].resolved)),
                None => forall|k: int|
                    0 <= k < s.len() ==> !((#[trigger] s[k]).id == id as int && !s[k].resolved),
            }
        }),
{
    let mut i: usize = 0;
    while i < pending.len()
        invariant
            i <= pending@.len(),
            forall|k: int|
                0 <= k < i ==> !((#[trigger] slots_view(pending@)[k]).id == id as int
                    && !slots_view(pending@)[k].resolved),
        decreases pending@.len() - i,
    {
        if pending[i].id == id && !pending[i].resolved {
            return Some(i);
        }
        proof {
            assert(slots_view(pending@)[i as int] == pending@[i as int]@);
        }
        i = i + 1;
    }
    None
}

/// The first slot for an identifier, waiting or resolved, if any.
fn find_id(pending: &Vec<PendingSlot>, id: i64) -> (r: Option<usize>)
    ensures
        ({
            let s = slots_view(pending@);
            match r {
                Some(j) => j < s.len() && s[j as int].id == id as int && (forall|k: int|
                    0 <= k < j ==> (#[trigger] s[k]).id != id as int),
                None => forall|k: int| 0 <= k < s.len() ==> (#[trigger] s[k]).id != id as int,
            }
        }),
{
    let mut i: usize = 0;
    while i < pending.len()
        invariant
            i <= pending@.len(),
            forall|k: int| 0 <= k < i ==> (#[trigger] slots_view(pending@)[k]).id != id as int,
        decreases pending@.len() - i,
    {
        if pending[i].id == id {
            return Some(i);
        }
        proof {
            assert(slots_view(pending@)[i as int] == pending@[i as int]@);
        }
        i = i + 1;
    }
    None
}

/// The correlator: a monotonically increasing identifier source and
/// the table of outstanding requests.
#[derive(Debug)]
pub struct Correlator {
    next_id: i64,
    pending: Vec<PendingSlot>,
}

impl Correlator {
    /// The identifier the next allocation returns.
    pub closed spec fn spec_next_id(&self) -> int {
        self.next_id as int
    }

    /// The table of slots.
    pub closed spec fn slots(&self) -> Seq<SpecPending> {
        slots_view(self.pending@)
    }

    /// Identifiers are distinct and below the allocation cursor.
    pub closed spec fn wf(&self) -> bool {
        &&& forall|i: int, j: int|
            0 <= i < j < self.slots().len() ==> (#[trigger] self.slots()[i]).id != (
            #[trigger] self.slots()[j]).id
        &&& forall|i: int|
            0 <= i < self.slots().len() ==> (#[trigger] self.slots()[i]).id < self.spec_next_id()
    }

    /// An empty correlator; identifiers start at one.
    pub fn new() -> (r: Self)
        ensures
            r.wf(),
            r.spec_next_id() == 1,
            r.slots().len() == 0,
    {
        let r = Correlator { next_id: 1, pending: Vec::new() };
        proof {
            assert(r.slots() =~= Seq::<SpecPending>::empty());
        }
        r
    }

    /// Hand out a fresh identifier: strictly larger than every
    /// identifier handed out before, so distinct requests never share
    /// one.
    pub fn allocate_id(&mut self) -> (id: i64)
        requires
            old(self).wf(),
            old(self).spec_next_id() < i64::MAX,
        ensures
            final(self).wf(),
            id as int == old(self).spec_next_id(),
            final(self).spec_next_id() == old(self).spec_next_id() + 1,
            final(self).slots() == old(self).slots(),
    {
        let id = self.next_id;
        self.next_id = self.next_id + 1;
        id
    }

    /// Park a slot for an identifier that was just allocated.
    pub fn register(&mut self, id: i64)
        requires
            old(self).wf(),
            !has_slot(old(self).slots(), id as int),
            (id as int) < old(self).spec_next_id(),
        ensures
            final(self).wf(),
            final(self).spec_next_id() == old(self).spec_next_id(),
            final(self).slots() == old(self).slots().push(
                SpecPending { id: id as int, resolved: false, value: None },
            ),
    {
        self.pending.push(PendingSlot { id, resolved: false, value: None });
        proof {
            assert(final(self).slots() =~= old(self).slots().push(
                SpecPending { id: id as int, resolved: false, value: None },
            ));
            assert forall|i: int, j: int| 0 <= i < j < final(self).slots().len() implies (
            #[trigger] final(self).slots()[i]).id != (#[trigger] final(self).slots()[j]).id by {
                if j < old(self).slots().len() {
                } else {
                    assert(final(self).slots()[j].id == id as int);
                    assert(!(0 <= i < old(self).slots().len() && old(self).slots()[i].id
                        == id as int));
                }
            }
        }
    }

    /// Fulfil the waiting slot for `id` with a value, exactly once:
    /// no other slot changes, an unknown identifier is a no-op, and a
    /// second answer for the same identifier is a no-op. Returns
    /// whether a waiting slot took the value.
    pub fn resolve(&mut self, id: i64, value: Option<Vec<u8>>) -> (r: bool)
        requires
            old(self).wf(),
        ensures
            final(self).wf(),
            final(self).spec_next_id() == old(self).spec_next_id(),
            final(self).slots() == spec_resolve(
                old(self).slots(),
                id as int,
                opt_bytes_view(value),
            ),
            r == (exists|i: int|
                0 <= i < old(self).slots().len() && (#[trigger] old(self).slots()[i]).id
                    == id as int && !old(self).slots()[i].resolved),
    {
        let ghost orig: Seq<SpecPending> = self.slots();
        match find_waiting(&self.pending, id) {
            Some(j) => {
                self.pending[j] = PendingSlot { id, resolved: true, value };
                proof {
                    let now = self.slots();
                    let target = spec_resolve(orig, id as int, opt_bytes_view(value));
                    assert forall|k: int| 0 <= k < orig.len() implies now[k] == target[k] by {
                        if k != j {
                            assert(now[k] == orig[k]);
                            if orig[k].id == id as int {
                                assert(orig[j as int].id == id as int);
                                if k < j {
                                    assert(orig[k].id != orig[j as int].id);
                                } else {
                                    assert(orig[j as int].id != orig[k].id);
                                }
                            }
                        }
                    }
                    assert(now =~= target);
                    assert forall|a: int, b: int| 0 <= a < b < now.len() implies (
                    #[trigger] now[a]).id != (#[trigger] now[b]).id by {
                        assert(now[a].id == orig[a].id);
                        assert(now[b].id == orig[b].id);
                    }
                    assert forall|a: int| 0 <= a < now.len() implies (#[trigger] now[a]).id
                        < self.spec_next_id() by {
                        assert(now[a].id == orig[a].id);
                    }
                }
                true
            },
            None => {
                proof {
                    let target = spec_resolve(orig, id as int, opt_bytes_view(value));
                    assert forall|k: int| 0 <= k < orig.len() implies orig[k] == target[k] by {
                        assert(!(orig[k].id == id as int && !orig[k].resolved));
                    }
                    assert(orig =~= target);
                }
                false
            },
        }
    }

    /// Take the slot for an identifier out of the table, reporting
    /// whether it was resolved and with what; the caller does this
    /// when its wait ends, by answer or by timeout. An unknown
    /// identifier yields nothing and changes nothing.
    pub fn take(&mut self, id: i64) -> (r: Option<(bool, Option<Vec<u8>>)>)
        requires
            old(self).wf(),
        ensures
            final(self).wf(),
            final(self).spec_next_id() == old(self).spec_next_id(),
            match r {
                Some(p) => {
                    &&& has_slot(old(self).slots(), id as int)
                    &&& exists|i: int|
                        0 <= i < old(self).slots().len() && (#[trigger] old(self).slots()[i]).id
                            == id as int && old(self).slots()[i].resolved == p.0 && old(self).slots()[i].value == opt_bytes_view(p.1) && final(self).slots() == old(self).slots().remove(i)
                },
                None => !has_slot(old(self).slots(), id as int) && final(self).slots() == old(self).slots(),
            },
    {
        let ghost orig: Seq<SpecPending> = self.slots();
        match find_id(&self.pending, id) {
            Some(j) => {
                let slot = self.pending.remove(j);
                proof {
                    let now = self.slots();
                    assert(now =~= orig.remove(j as int));
                    assert forall|a: int, b: int| 0 <= a < b < now.len() implies (
                    #[trigger] now[a]).id != (#[trigger] now[b]).id by {
                        let oa: int = if a < j {
                            a
                        } else {
                            a + 1
                        };
                        let ob: int = if b < j {
                            b
                        } else {
                            b + 1
                        };
                        assert(now[a] == orig[oa]);
                        assert(now[b] == orig[ob]);
                    }
                    assert forall|a: int| 0 <= a < now.len() implies (#[trigger] now[a]).id
                        < self.spec_next_id() by {
                        let oa: int = if a < j {
                            a
                        } else {
                            a + 1
                        };
                        assert(now[a] == orig[oa]);
                    }
                    assert(orig[j as int].id == id as int);
                }
                Some((slot.resolved, slot.value))
            },
            None => None,
        }
    }

    /// Drop every slot: at teardown nothing may stay parked, so every
    /// outstanding request ends as cancelled rather than leaking.
    pub fn cancel_all(&mut self)
        requires
            old(self).wf(),
        ensures
            final(self).wf(),
            final(self).spec_next_id() == old(self).spec_next_id(),
            final(self).slots().len() == 0,
    {
        self.pending.clear();
        proof {
            assert(final(self).slots() =~= Seq::<SpecPending>::empty());
        }
    }

    /// Whether another identifier can still be handed out.
    pub fn has_capacity(&self) -> (r: bool)
        ensures
            r == (self.spec_next_id() < i64::MAX),
    {
        self.next_id < i64::MAX
    }

    /// How many requests are outstanding.
    pub fn pending_count(&self) -> (r: usize)
        ensures
            r == self.slots().len(),
    {
        self.pending.len()
    }
}

// ---------------------------------------------------------------------------
// Correlation laws.
// ---------------------------------------------------------------------------

/// Resolving an identifier touches no slot of any other identifier.
pub proof fn lemma_resolve_touches_only_own(
    s: Seq<SpecPending>,
    id: int,
    v: Option<Seq<u8>>,
    i: int,
)
    requires
        0 <= i < s.len(),
        s[i].id != id,
    ensures
        spec_resolve(s, id, v)[i] == s[i],
{
}

/// Resolving an identifier with no slot leaves the table unchanged.
pub proof fn lemma_resolve_unknown_is_noop(s: Seq<SpecPending>, id: int, v: Option<Seq<u8>>)
    requires
        !has_slot(s, id),
    ensures
        spec_resolve(s, id, v) == s,
{
    assert forall|i: int| 0 <= i < s.len() implies spec_resolve(s, id, v)[i] == s[i] by {
        assert(!(0 <= i < s.len() && s[i].id == id));
    }
    assert(spec_resolve(s, id, v) =~= s);
}

/// A second answer for the same identifier changes nothing: the first
/// value stays.
pub proof fn lemma_resolve_twice_keeps_first(
    s: Seq<SpecPending>,
    id: int,
    v1: Option<Seq<u8>>,
    v2: Option<Seq<u8>>,
)
    ensures
        spec_resolve(spec_resolve(s, id, v1), id, v2) == spec_resolve(s, id, v1),
{
    let once = spec_resolve(s, id, v1);
    assert forall|i: int| 0 <= i < s.len() implies spec_resolve(once, id, v2)[i] == once[i] by {
        assert(once[i] == if s[i].id == id && !s[i].resolved {
            SpecPending { id: s[i].id, resolved: true, value: v1 }
        } else {
            s[i]
        });
    }
    assert(spec_resolve(once, id, v2) =~= once);
}

// ---------------------------------------------------------------------------
// Which events answer a request.
// ---------------------------------------------------------------------------

/// The correlation a decoded event carries: profile picture replies
/// answer the request of their identifier with the optional URL.
/// Everything else — including a send result without an identifier —
/// asks nothing of the correlator and is still delivered as an event.
pub open spec fn spec_correlation_of(e: SpecEvent) -> Option<(int, Option<Seq<u8>>)> {
    match e {
        SpecEvent::ProfilePicture { request_id, url, .. } => Some((request_id, url)),
        _ => None,
    }
}

/// Extract the correlation an event carries, if any.
pub fn correlation_of(e: &BridgeEvent) -> (r: Option<(i64, Option<Vec<u8>>)>)
    ensures
        ({
            let s = spec_correlation_of(e@);
            match r {
                Some(p) => s == Some((p.0 as int, opt_bytes_view(p.1))),
                None => s is None,
            }
        }),
{
    match e {
        BridgeEvent::ProfilePicture { request_id, url, .. } => {
            let u = match url {
                Some(v) => Some(crate::codec::clone_bytes(v)),
                None => None,
            };
            Some((*request_id, u))
        },
        _ => None,
    }
}

} // verus!
