//! Registry of native engine events: engine-defined event kind to the
//! ordered list of handlers registered for it.
//!
//! Dispatch follows the same two-phase protocol as the local event
//! registry: [`EventManager::take_handlers`] hands out the plan (all
//! handlers of the kind, in registration order) and
//! [`EventManager::restore_handlers`] puts the handlers back after
//! the unverified invocation loop ran them. An event kind with no
//! registered handlers yields an empty plan and is dropped, never an
//! error; decoding of the engine-owned payload is the caller's
//! business and is only worth doing when the plan is non-empty.

use vstd::prelude::*;

verus! {

/// The closed set of engine event kinds this runtime dispatches,
/// plus a default arm for kinds it does not know.
#[derive(Clone, Copy, PartialEq, Eq, Structural, Debug)]
pub enum SdkEventType {
    ServerStarted,
    PlayerConnect,
    PlayerDisconnect,
    ConsoleCommand,
    Unknown,
}

/// The handlers registered for one event kind, in registration order.
pub struct EventEntry<N> {
    pub event_type: SdkEventType,
    pub handlers: Vec<N>,
}

/// Mapping from engine event kind to the ordered sequence of
/// handlers for it.
pub struct EventManager<N> {
    pub handlers: Vec<EventEntry<N>>,
}

/// Event kinds are pairwise distinct.
pub open spec fn kinds_distinct<N>(s: Seq<EventEntry<N>>) -> bool {
    forall|i: int, j: int| 0 <= i < j < s.len() ==> s[i].event_type != s[j].event_type
}

/// Whether some entry carries this event kind.
pub open spec fn has_kind<N>(s: Seq<EventEntry<N>>, kind: SdkEventType) -> bool {
    exists|i: int| 0 <= i < s.len() && (#[trigger] s[i]).event_type == kind
}

/// The index of the entry carrying this event kind.
pub open spec fn kind_index<N>(s: Seq<EventEntry<N>>, kind: SdkEventType) -> int {
    choose|i: int| 0 <= i < s.len() && (#[trigger] s[i]).event_type == kind
}

/// The handlers registered for an event kind, in registration order;
/// empty if the kind was never registered.
pub open spec fn kind_handlers<N>(s: Seq<EventEntry<N>>, kind: SdkEventType) -> Seq<N> {
    if has_kind(s, kind) {
        s[kind_index(s, kind)].handlers@
    } else {
        Seq::empty()
    }
}

/// With distinct kinds, an entry observed to carry a kind is the one
/// entry `kind_index` designates.
pub proof fn lemma_kind_index<N>(s: Seq<EventEntry<N>>, kind: SdkEventType, i: int)
    requires
        kinds_distinct(s),
        0 <= i < s.len(),
        s[i].event_type == kind,
    ensures
        has_kind(s, kind),
        kind_index(s, kind) == i,
{
    assert(has_kind(s, kind));
    let j = kind_index(s, kind);
    assert(0 <= j < s.len() && s[j].event_type == kind);
}

/// Two registries whose entries carry the same kinds pointwise, and
/// agree everywhere but at one index, serve every other event kind
/// identically.
pub proof fn lemma_same_kinds_same_handlers<N>(
    s: Seq<EventEntry<N>>,
    t: Seq<EventEntry<N>>,
    other: SdkEventType,
    i: int,
)
    requires
        kinds_distinct(s),
        t.len() == s.len(),
        0 <= i < s.len(),
        s[i].event_type != other,
        forall|k: int| 0 <= k < s.len() ==> (#[trigger] t[k]).event_type == s[k].event_type,
        forall|k: int| 0 <= k < s.len() && k != i ==> (#[trigger] t[k]) == s[k],
    ensures
        kind_handlers(t, other) == kind_handlers(s, other),
{
    if has_kind(s, other) {
        let j = kind_index(s, other);
        assert(t[j].event_type == other);
        assert(has_kind(t, other));
        let j2 = kind_index(t, other);
        assert(s[j2].event_type == t[j2].event_type);
        assert(kinds_distinct(t)) by {
            assert(forall|a: int, b: int|
                0 <= a < b < t.len() ==> t[a].event_type == s[a].event_type && t[b].event_type
                    == s[b].event_type);
        }
        assert(j2 == j);
        assert(j != i);
    } else {
        if has_kind(t, other) {
            let j = kind_index(t, other);
            assert(s[j].event_type == other);
        }
    }
}

/// Appending an entry for a fresh kind serves every other event kind
/// as before.
pub proof fn lemma_appended_other_kind<N>(
    s: Seq<EventEntry<N>>,
    t: Seq<EventEntry<N>>,
    other: SdkEventType,
)
    requires
        kinds_distinct(s),
        t.len() == s.len() + 1,
        t[s.len() as int].event_type != other,
        forall|k: int| 0 <= k < s.len() ==> (#[trigger] t[k]) == s[k],
    ensures
        kind_handlers(t, other) == kind_handlers(s, other),
{
    if has_kind(s, other) {
        let j = kind_index(s, other);
        assert(t[j].event_type == other);
        assert(has_kind(t, other));
        let j2 = kind_index(t, other);
        assert(t[j2].event_type == other);
        assert(j2 != s.len() as int);
        assert(s[j2].event_type == other);
        assert(j2 == j);
        assert(t[j2] == s[j]);
    } else {
        if has_kind(t, other) {
            let j = kind_index(t, other);
            if j < s.len() {
                assert(s[j].event_type == other);
            }
        }
    }
}

impl<N> EventManager<N> {
    /// Empty registry.
    pub fn new() -> (r: EventManager<N>)
        ensures
            r.handlers@.len() == 0,
            kinds_distinct(r.handlers@),
    {
        EventManager { handlers: Vec::new() }
    }

    /// Appends a handler at the end of the sequence registered for
    /// this event kind; registration order is dispatch order.
    pub fn add_handler(&mut self, event_type: SdkEventType, handler: N)
        requires
            kinds_distinct(old(self).handlers@),
        ensures
            kinds_distinct(final(self).handlers@),
            kind_handlers(final(self).handlers@, event_type) == kind_handlers(
                old(self).handlers@,
                event_type,
            ).push(handler),
            forall|other: SdkEventType|
                other != event_type ==> #[trigger] kind_handlers(final(self).handlers@, other)
                    == kind_handlers(old(self).handlers@, other),
    {
        let ghost s = old(self).handlers@;
        let n = self.handlers.len();
        let mut i: usize = 0;
        while i < n
            invariant
                n == self.handlers@.len(),
                i <= n,
                s == old(self).handlers@,
                self.handlers@ == s,
                kinds_distinct(s),
                forall|k: int| 0 <= k < i ==> (#[trigger] s[k]).event_type != event_type,
            decreases n - i,
        {
            if self.handlers[i].event_type == event_type {
                self.handlers[i].handlers.push(handler);
                proof {
                    lemma_kind_index(s, event_type, i as int);
                    let t = self.handlers@;
                    assert(t.len() == s.len());
                    assert(t[i as int].event_type == s[i as int].event_type);
                    assert(t[i as int].handlers@ == s[i as int].handlers@.push(handler));
                    assert(forall|k: int|
                        0 <= k < s.len() && k != i ==> (#[trigger] t[k]) == s[k]);
                    assert(kinds_distinct(t)) by {
                        assert(forall|k: int|
                            0 <= k < t.len() ==> (#[trigger] t[k]).event_type == s[k].event_type);
                    }
                    lemma_kind_index(t, event_type, i as int);
                    assert forall|other: SdkEventType| other != event_type implies #[trigger] kind_handlers(
                        t,
                        other,
                    ) == kind_handlers(s, other) by {
                        lemma_same_kinds_same_handlers(s, t, other, i as int);
                    }
                }
                return ;
            }
            i = i + 1;
        }
        let mut hs: Vec<N> = Vec::new();
        hs.push(handler);
        self.handlers.push(EventEntry { event_type, handlers: hs });
        proof {
            let t = self.handlers@;
            assert(forall|k: int| 0 <= k < s.len() ==> (#[trigger] s[k]).event_type != event_type);
            assert(kinds_distinct(t)) by {
                assert(forall|k: int| 0 <= k < s.len() ==> (#[trigger] t[k]) == s[k]);
            }
            lemma_kind_index(t, event_type, s.len() as int);
            assert(kind_handlers(t, event_type) =~= kind_handlers(s, event_type).push(handler));
            assert forall|other: SdkEventType| other != event_type implies #[trigger] kind_handlers(
                t,
                other,
            ) == kind_handlers(s, other) by {
                lemma_appended_other_kind(s, t, other);
            }
        }
    }

    /// Begins dispatch of an engine event: hands out every handler
    /// of the kind, in registration order, leaving the entry in place
    /// with an emptied sequence. An unknown kind yields an empty plan
    /// and changes nothing.
    pub fn take_handlers(&mut self, event_type: SdkEventType) -> (r: Vec<N>)
        requires
            kinds_distinct(old(self).handlers@),
        ensures
            kinds_distinct(final(self).handlers@),
            r@ == kind_handlers(old(self).handlers@, event_type),
            kind_handlers(final(self).handlers@, event_type) == Seq::<N>::empty(),
            forall|other: SdkEventType|
                other != event_type ==> #[trigger] kind_handlers(final(self).handlers@, other)
                    == kind_handlers(old(self).handlers@, other),
    {
        let ghost s = old(self).handlers@;
        let n = self.handlers.len();
        let mut i: usize = 0;
        while i < n
            invariant
                n == self.handlers@.len(),
                i <= n,
                s == old(self).handlers@,
                self.handlers@ == s,
                kinds_distinct(s),
                forall|k: int| 0 <= k < i ==> (#[trigger] s[k]).event_type != event_type,
            decreases n - i,
        {
            if self.handlers[i].event_type == event_type {
                let mut taken: Vec<N> = Vec::new();
                core::mem::swap(&mut self.handlers[i].handlers, &mut taken);
                proof {
                    lemma_kind_index(s, event_type, i as int);
                    let t = self.handlers@;
                    assert(t.len() == s.len());
                    assert(t[i as int].event_type == s[i as int].event_type);
                    assert(t[i as int].handlers@ == Seq::<N>::empty());
                    assert(forall|k: int|
                        0 <= k < s.len() && k != i ==> (#[trigger] t[k]) == s[k]);
                    assert(kinds_distinct(t)) by {
                        assert(forall|k: int|
                            0 <= k < t.len() ==> (#[trigger] t[k]).event_type == s[k].event_type);
                    }
                    lemma_kind_index(t, event_type, i as int);
                    assert forall|other: SdkEventType| other != event_type implies #[trigger] kind_handlers(
                        t,
                        other,
                    ) == kind_handlers(s, other) by {
                        lemma_same_kinds_same_handlers(s, t, other, i as int);
                    }
                }
                return taken;
            }
            i = i + 1;
        }
        proof {
            assert(forall|k: int| 0 <= k < s.len() ==> (#[trigger] s[k]).event_type != event_type);
            assert(!has_kind(s, event_type));
        }
        Vec::new()
    }

    /// Ends dispatch of an engine event: the handlers taken for it
    /// are put back in front of any handler registered while dispatch
    /// ran, preserving registration order.
    pub fn restore_handlers(&mut self, event_type: SdkEventType, handlers: Vec<N>)
        requires
            kinds_distinct(old(self).handlers@),
        ensures
            kinds_distinct(final(self).handlers@),
            kind_handlers(final(self).handlers@, event_type) == handlers@ + kind_handlers(
                old(self).handlers@,
                event_type,
            ),
            forall|other: SdkEventType|
                other != event_type ==> #[trigger] kind_handlers(final(self).handlers@, other)
                    == kind_handlers(old(self).handlers@, other),
    {
        let ghost s = old(self).handlers@;
        let n = self.handlers.len();
        let mut i: usize = 0;
        while i < n
            invariant
                n == self.handlers@.len(),
                i <= n,
                s == old(self).handlers@,
                self.handlers@ == s,
                kinds_distinct(s),
                forall|k: int| 0 <= k < i ==> (#[trigger] s[k]).event_type != event_type,
            decreases n - i,
        {
            if self.handlers[i].event_type == event_type {
                let mut merged = handlers;
                let mut rest: Vec<N> = Vec::new();
                core::mem::swap(&mut self.handlers[i].handlers, &mut rest);
                merged.append(&mut rest);
                core::mem::swap(&mut self.handlers[i].handlers, &mut merged);
                proof {
                    lemma_kind_index(s, event_type, i as int);
                    let t = self.handlers@;
                    assert(t[i as int].handlers@ == handlers@ + s[i as int].handlers@);
                    assert(kinds_distinct(t)) by {
                        assert(forall|k: int|
                            0 <= k < t.len() ==> (#[trigger] t[k]).event_type == s[k].event_type);
                    }
                    lemma_kind_index(t, event_type, i as int);
                    assert forall|other: SdkEventType| other != event_type implies #[trigger] kind_handlers(
                        t,
                        other,
                    ) == kind_handlers(s, other) by {
                        lemma_same_kinds_same_handlers(s, t, other, i as int);
                    }
                }
                return ;
            }
            i = i + 1;
        }
        self.handlers.push(EventEntry { event_type, handlers });
        proof {
            let t = self.handlers@;
            assert(forall|k: int| 0 <= k < s.len() ==> (#[trigger] s[k]).event_type != event_type);
            assert(!has_kind(s, event_type));
            assert(kinds_distinct(t)) by {
                assert(forall|k: int| 0 <= k < s.len() ==> (#[trigger] t[k]) == s[k]);
            }
            lemma_kind_index(t, event_type, s.len() as int);
            assert(kind_handlers(t, event_type) =~= handlers@ + kind_handlers(s, event_type));
            assert forall|other: SdkEventType| other != event_type implies #[trigger] kind_handlers(
                t,
                other,
            ) == kind_handlers(s, other) by {
                lemma_appended_other_kind(s, t, other);
            }
        }
    }
}

} // verus!
