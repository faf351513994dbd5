//! Registry of user-defined local script events: event name to the
//! ordered list of handlers registered for it.
//!
//! Dispatch is split in two verified halves around the unverified
//! handler calls: [`LocalEventManager::take_handlers`] hands the
//! caller every handler of the event, in registration order, and
//! leaves the registry consistent; after invoking them (catching each
//! failure separately, so one failing handler never stops the next),
//! the caller gives them back through
//! [`LocalEventManager::restore_handlers`], which puts them back in
//! front of any handler registered while dispatch ran.

use vstd::prelude::*;

verus! {

/// The handlers registered for one event name, in registration order.
pub struct LocalEventEntry<H> {
    pub name: String,
    pub handlers: Vec<H>,
}

/// Mapping from event name (case-sensitive, unique key) to the
/// ordered sequence of handlers for it.
pub struct LocalEventManager<H> {
    pub handlers: Vec<LocalEventEntry<H>>,
}

/// Event names are pairwise distinct.
pub open spec fn names_distinct<H>(s: Seq<LocalEventEntry<H>>) -> bool {
    forall|i: int, j: int| 0 <= i < j < s.len() ==> s[i].name@ != s[j].name@
}

/// Whether some entry carries this event name.
pub open spec fn has_event<H>(s: Seq<LocalEventEntry<H>>, name: Seq<char>) -> bool {
    exists|i: int| 0 <= i < s.len() && (#[trigger] s[i]).name@ == name
}

/// The index of the entry carrying this event name.
pub open spec fn event_index<H>(s: Seq<LocalEventEntry<H>>, name: Seq<char>) -> int {
    choose|i: int| 0 <= i < s.len() && (#[trigger] s[i]).name@ == name
}

/// The handlers registered for an event name, in registration order;
/// empty if the name was never registered.
pub open spec fn handlers_for<H>(s: Seq<LocalEventEntry<H>>, name: Seq<char>) -> Seq<H> {
    if has_event(s, name) {
        s[event_index(s, name)].handlers@
    } else {
        Seq::empty()
    }
}

/// With distinct names, an entry observed to carry a name is the one
/// entry `event_index` designates.
pub proof fn lemma_event_index<H>(s: Seq<LocalEventEntry<H>>, name: Seq<char>, i: int)
    requires
        names_distinct(s),
        0 <= i < s.len(),
        s[i].name@ == name,
    ensures
        has_event(s, name),
        event_index(s, name) == i,
{
    assert(has_event(s, name));
    let j = event_index(s, name);
    assert(0 <= j < s.len() && s[j].name@ == name);
}

impl<H> LocalEventManager<H> {
    /// Empty registry.
    pub fn new() -> (r: LocalEventManager<H>)
        ensures
            r.handlers@.len() == 0,
            names_distinct(r.handlers@),
    {
        LocalEventManager { handlers: Vec::new() }
    }

    /// Appends a handler at the end of the sequence registered for
    /// this event name; registration order is dispatch order. There
    /// is no de-duplication and no removal.
    pub fn add_handler(&mut self, event_name: String, handler: H)
        requires
            names_distinct(old(self).handlers@),
        ensures
            names_distinct(final(self).handlers@),
            handlers_for(final(self).handlers@, event_name@) == handlers_for(
                old(self).handlers@,
                event_name@,
            ).push(handler),
            forall|other: Seq<char>|
                other != event_name@ ==> #[trigger] handlers_for(final(self).handlers@, other)
                    == handlers_for(old(self).handlers@, other),
    {
        let ghost s = old(self).handlers@;
        let n = self.handlers.len();
        let mut i: usize = 0;
        while i < n
            invariant
                n == self.handlers@.len(),
                i <= n,
                s == old(self).handlers@,
                self.handlers@ == s,
                names_distinct(s),
                forall|k: int| 0 <= k < i ==> (#[trigger] s[k]).name@ != event_name@,
            decreases n - i,
        {
            if self.handlers[i].name == event_name {
                self.handlers[i].handlers.push(handler);
                proof {
                    lemma_event_index(s, event_name@, i as int);
                    let t = self.handlers@;
                    assert(t.len() == s.len());
                    assert(t[i as int].name@ == s[i as int].name@);
                    assert(t[i as int].handlers@ == s[i as int].handlers@.push(handler));
                    assert(forall|k: int| 0 <= k < s.len() && k != i ==> (#[trigger] t[k]) == s[k]);
                    assert(names_distinct(t)) by {
                        assert(forall|k: int|
                            0 <= k < t.len() ==> (#[trigger] t[k]).name@ == s[k].name@);
                    }
                    lemma_event_index(t, event_name@, i as int);
                    assert forall|other: Seq<char>| other != event_name@ implies #[trigger] handlers_for(
                        t,
                        other,
                    ) == handlers_for(s, other) by {
                        lemma_same_names_same_handlers(s, t, other, i as int);
                    }
                }
                return ;
            }
            i = i + 1;
        }
        let mut hs: Vec<H> = Vec::new();
        hs.push(handler);
        self.handlers.push(LocalEventEntry { name: event_name, handlers: hs });
        proof {
            let t = self.handlers@;
            assert(forall|k: int| 0 <= k < s.len() ==> (#[trigger] s[k]).name@ != event_name@);
            assert(names_distinct(t)) by {
                assert(forall|k: int| 0 <= k < s.len() ==> (#[trigger] t[k]) == s[k]);
            }
            lemma_event_index(t, event_name@, s.len() as int);
            assert(handlers_for(t, event_name@) =~= handlers_for(s, event_name@).push(handler));
            assert forall|other: Seq<char>| other != event_name@ implies #[trigger] handlers_for(
                t,
                other,
            ) == handlers_for(s, other) by {
                lemma_appended_other_name(s, t, other);
            }
        }
    }

    /// Begins dispatch of an event: hands out every handler of the
    /// name, in registration order, leaving the entry in place with
    /// an emptied sequence. With no handler registered the returned
    /// plan is empty and the registry is unchanged -- dispatch to zero
    /// handlers is a normal case, not an error.
    pub fn take_handlers(&mut self, event_name: &String) -> (r: Vec<H>)
        requires
            names_distinct(old(self).handlers@),
        ensures
            names_distinct(final(self).handlers@),
            r@ == handlers_for(old(self).handlers@, event_name@),
            handlers_for(final(self).handlers@, event_name@) == Seq::<H>::empty(),
            forall|other: Seq<char>|
                other != event_name@ ==> #[trigger] handlers_for(final(self).handlers@, other)
                    == handlers_for(old(self).handlers@, other),
    {
        let ghost s = old(self).handlers@;
        let n = self.handlers.len();
        let mut i: usize = 0;
        while i < n
            invariant
                n == self.handlers@.len(),
                i <= n,
                s == old(self).handlers@,
                self.handlers@ == s,
                names_distinct(s),
                forall|k: int| 0 <= k < i ==> (#[trigger] s[k]).name@ != event_name@,
            decreases n - i,
        {
            if self.handlers[i].name == *event_name {
                let mut taken: Vec<H> = Vec::new();
                core::mem::swap(&mut self.handlers[i].handlers, &mut taken);
                proof {
                    lemma_event_index(s, event_name@, i as int);
                    let t = self.handlers@;
                    assert(t.len() == s.len());
                    assert(t[i as int].name@ == s[i as int].name@);
                    assert(t[i as int].handlers@ == Seq::<H>::empty());
                    assert(forall|k: int| 0 <= k < s.len() && k != i ==> (#[trigger] t[k]) == s[k]);
                    assert(names_distinct(t)) by {
                        assert(forall|k: int|
                            0 <= k < t.len() ==> (#[trigger] t[k]).name@ == s[k].name@);
                    }
                    lemma_event_index(t, event_name@, i as int);
                    assert(handlers_for(t, event_name@) =~= Seq::<H>::empty());
                    assert forall|other: Seq<char>| other != event_name@ implies #[trigger] handlers_for(
                        t,
                        other,
                    ) == handlers_for(s, other) by {
                        lemma_same_names_same_handlers(s, t, other, i as int);
                    }
                }
                return taken;
            }
            i = i + 1;
        }
        proof {
            assert(forall|k: int| 0 <= k < s.len() ==> (#[trigger] s[k]).name@ != event_name@);
            assert(!has_event(s, event_name@));
        }
        Vec::new()
    }

    /// Ends dispatch of an event: the handlers taken for it are put
    /// back in front of any handler registered while dispatch ran, so
    /// registration order is preserved.
    pub fn restore_handlers(&mut self, event_name: &String, handlers: Vec<H>)
        requires
            names_distinct(old(self).handlers@),
        ensures
            names_distinct(final(self).handlers@),
            handlers_for(final(self).handlers@, event_name@) == handlers@ + handlers_for(
                old(self).handlers@,
                event_name@,
            ),
            forall|other: Seq<char>|
                other != event_name@ ==> #[trigger] handlers_for(final(self).handlers@, other)
                    == handlers_for(old(self).handlers@, other),
    {
        let ghost s = old(self).handlers@;
        let n = self.handlers.len();
        let mut i: usize = 0;
        while i < n
            invariant
                n == self.handlers@.len(),
                i <= n,
                s == old(self).handlers@,
                self.handlers@ == s,
                names_distinct(s),
                forall|k: int| 0 <= k < i ==> (#[trigger] s[k]).name@ != event_name@,
            decreases n - i,
        {
            if self.handlers[i].name == *event_name {
                let mut merged = handlers;
                let mut rest: Vec<H> = Vec::new();
                core::mem::swap(&mut self.handlers[i].handlers, &mut rest);
                merged.append(&mut rest);
                core::mem::swap(&mut self.handlers[i].handlers, &mut merged);
                proof {
                    lemma_event_index(s, event_name@, i as int);
                    let t = self.handlers@;
                    assert(t[i as int].handlers@ == handlers@ + s[i as int].handlers@);
                    assert(names_distinct(t)) by {
                        assert(forall|k: int|
                            0 <= k < t.len() ==> (#[trigger] t[k]).name@ == s[k].name@);
                    }
                    lemma_event_index(t, event_name@, i as int);
                    assert forall|other: Seq<char>| other != event_name@ implies #[trigger] handlers_for(
                        t,
                        other,
                    ) == handlers_for(s, other) by {
                        lemma_same_names_same_handlers(s, t, other, i as int);
                    }
                }
                return ;
            }
            i = i + 1;
        }
        let name = event_name.clone();
        self.handlers.push(LocalEventEntry { name, handlers });
        proof {
            let t = self.handlers@;
            assert(forall|k: int| 0 <= k < s.len() ==> (#[trigger] s[k]).name@ != event_name@);
            assert(!has_event(s, event_name@));
            assert(names_distinct(t)) by {
                assert(forall|k: int| 0 <= k < s.len() ==> (#[trigger] t[k]) == s[k]);
            }
            lemma_event_index(t, event_name@, s.len() as int);
            assert(handlers_for(t, event_name@) =~= handlers@ + handlers_for(s, event_name@));
            assert forall|other: Seq<char>| other != event_name@ implies #[trigger] handlers_for(
                t,
                other,
            ) == handlers_for(s, other) by {
                lemma_appended_other_name(s, t, other);
            }
        }
    }

    /// How many handlers are registered for an event name.
    pub fn handler_count(&self, event_name: &String) -> (r: usize)
        requires
            names_distinct(self.handlers@),
        ensures
            r == handlers_for(self.handlers@, event_name@).len(),
    {
        let n = self.handlers.len();
        let mut i: usize = 0;
        while i < n
            invariant
                n == self.handlers@.len(),
                names_distinct(self.handlers@),
                i <= n,
                forall|k: int|
                    0 <= k < i ==> (#[trigger] self.handlers@[k]).name@ != event_name@,
            decreases n - i,
        {
            if self.handlers[i].name == *event_name {
                proof {
                    lemma_event_index(self.handlers@, event_name@, i as int);
                }
                return self.handlers[i].handlers.len();
            }
            i = i + 1;
        }
        proof {
            assert(forall|k: int|
                0 <= k < self.handlers@.len() ==> (#[trigger] self.handlers@[k]).name@
                    != event_name@);
            assert(!has_event(self.handlers@, event_name@));
        }
        0
    }
}

/// Two registries whose entries carry the same names pointwise, and
/// agree everywhere but at one index, serve every other event name
/// identically.
pub proof fn lemma_same_names_same_handlers<H>(
    s: Seq<LocalEventEntry<H>>,
    t: Seq<LocalEventEntry<H>>,
    other: Seq<char>,
    i: int,
)
    requires
        names_distinct(s),
        t.len() == s.len(),
        0 <= i < s.len(),
        s[i].name@ != other,
        forall|k: int| 0 <= k < s.len() ==> (#[trigger] t[k]).name@ == s[k].name@,
        forall|k: int| 0 <= k < s.len() && k != i ==> (#[trigger] t[k]) == s[k],
    ensures
        handlers_for(t, other) == handlers_for(s, other),
{
    if has_event(s, other) {
        let j = event_index(s, other);
        assert(t[j].name@ == other);
        assert(has_event(t, other));
        let j2 = event_index(t, other);
        assert(s[j2].name@ == t[j2].name@);
        assert(names_distinct(t)) by {
            assert(forall|a: int, b: int|
                0 <= a < b < t.len() ==> t[a].name@ == s[a].name@ && t[b].name@ == s[b].name@);
        }
        assert(j2 == j);
        assert(j != i);
    } else {
        if has_event(t, other) {
            let j = event_index(t, other);
            assert(s[j].name@ == other);
        }
    }
}

/// Appending an entry for a fresh name serves every other event name
/// as before.
pub proof fn lemma_appended_other_name<H>(
    s: Seq<LocalEventEntry<H>>,
    t: Seq<LocalEventEntry<H>>,
    other: Seq<char>,
)
    requires
        names_distinct(s),
        t.len() == s.len() + 1,
        t[s.len() as int].name@ != other,
        forall|k: int| 0 <= k < s.len() ==> (#[trigger] t[k]) == s[k],
    ensures
        handlers_for(t, other) == handlers_for(s, other),
{
    if has_event(s, other) {
        let j = event_index(s, other);
        assert(t[j].name@ == other);
        assert(has_event(t, other));
        let j2 = event_index(t, other);
        assert(t[j2].name@ == other);
        assert(j2 != s.len() as int);
        assert(s[j2].name@ == other);
        assert(j2 == j);
        assert(t[j2] == s[j]);
    } else {
        if has_event(t, other) {
            let j = event_index(t, other);
            if j < s.len() {
                assert(s[j].name@ == other);
            }
        }
    }
}

/// Registers a handler for a local event on the given registry.
pub fn add_handler<H>(manager: &mut LocalEventManager<H>, event_name: String, handler: H)
    requires
        names_distinct(old(manager).handlers@),
    ensures
        names_distinct(final(manager).handlers@),
        handlers_for(final(manager).handlers@, event_name@) == handlers_for(
            old(manager).handlers@,
            event_name@,
        ).push(handler),
        forall|other: Seq<char>|
            other != event_name@ ==> #[trigger] handlers_for(final(manager).handlers@, other)
                == handlers_for(old(manager).handlers@, other),
{
    manager.add_handler(event_name, handler)
}

} // verus!
