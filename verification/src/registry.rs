//! The broadcast registry: the set of live dashboard subscribers and the
//! best-effort fan-out of snapshot updates to all of them.
//!
//! Each subscriber is modelled with its delivery record: the `inbox` holds
//! exactly the payloads its sink has accepted, and `sink_healthy` models
//! whether the sink currently accepts pushes.  A failing sink never blocks
//! delivery to the others and never surfaces as an error to the
//! broadcaster.  Ids come from a monotonic counter, so they are unique
//! among live subscribers.  The shell maps each subscriber onto a real push
//! connection and performs the sends this model records.

use vstd::prelude::*;

verus! {

/// A payload pushed to one dashboard subscriber.
pub struct Message(pub String);

impl View for Message {
    type V = Seq<char>;

    open spec fn view(&self) -> Seq<char> {
        self.0@
    }
}

/// Request to drop the subscriber with this id.
pub struct Disconnect {
    pub id: usize,
}

/// Request to push one payload to every live subscriber.
pub struct MassSend {
    pub message: String,
}

/// Mathematical view of one registered subscriber.
pub struct SpecSubscriber {
    pub id: int,
    pub sink_healthy: bool,
    pub inbox: Seq<Seq<char>>,
}

/// One registered dashboard subscriber and its delivery record.
pub struct Subscriber {
    pub id: usize,
    pub sink_healthy: bool,
    pub inbox: Vec<String>,
}

impl View for Subscriber {
    type V = SpecSubscriber;

    open spec fn view(&self) -> SpecSubscriber {
        SpecSubscriber {
            id: self.id as int,
            sink_healthy: self.sink_healthy,
            inbox: self.inbox.deep_view(),
        }
    }
}

impl DeepView for Subscriber {
    type V = SpecSubscriber;

    open spec fn deep_view(&self) -> SpecSubscriber {
        self.view()
    }
}

/// No two subscribers share an id.
pub open spec fn ids_unique(s: Seq<SpecSubscriber>) -> bool {
    forall|i: int, j: int| 0 <= i < j < s.len() ==> (#[trigger] s[i]).id != (#[trigger] s[j]).id
}

/// Some subscriber carries this id.
pub open spec fn spec_contains_id(s: Seq<SpecSubscriber>, id: int) -> bool {
    exists|i: int| 0 <= i < s.len() && (#[trigger] s[i]).id == id
}

/// Index of the first subscriber carrying `id`, scanning from `from`.
pub open spec fn spec_id_index_from(s: Seq<SpecSubscriber>, id: int, from: int) -> Option<int>
    decreases s.len() - from,
{
    if from < 0 || from >= s.len() {
        None
    } else if s[from].id == id {
        Some(from)
    } else {
        spec_id_index_from(s, id, from + 1)
    }
}

/// Index of the subscriber carrying `id`, if any.
pub open spec fn spec_id_index(s: Seq<SpecSubscriber>, id: int) -> Option<int> {
    spec_id_index_from(s, id, 0)
}

/// The membership after a new subscriber registers under `id`: appended
/// with a healthy sink and an empty delivery record.
pub open spec fn spec_register(s: Seq<SpecSubscriber>, id: int) -> Seq<SpecSubscriber> {
    s.push(SpecSubscriber { id: id, sink_healthy: true, inbox: Seq::empty() })
}

/// The membership after the subscriber carrying `id` leaves, if present.
pub open spec fn spec_unregister(s: Seq<SpecSubscriber>, id: int) -> Seq<SpecSubscriber> {
    match spec_id_index(s, id) {
        Some(i) => s.remove(i),
        None => s,
    }
}

/// One subscriber after a broadcast: a healthy sink accepts the payload,
/// a broken one is skipped and left as it was.
pub open spec fn spec_deliver(c: SpecSubscriber, payload: Seq<char>) -> SpecSubscriber {
    if c.sink_healthy {
        SpecSubscriber { id: c.id, sink_healthy: c.sink_healthy, inbox: c.inbox.push(payload) }
    } else {
        c
    }
}

/// One subscriber with its sink marked as accepting pushes or as broken.
pub open spec fn spec_with_health(c: SpecSubscriber, healthy: bool) -> SpecSubscriber {
    SpecSubscriber { id: c.id, sink_healthy: healthy, inbox: c.inbox }
}

/// The membership after the sink of the subscriber carrying `id` is marked
/// as accepting pushes or as broken, if that subscriber is present.
pub open spec fn spec_set_health(s: Seq<SpecSubscriber>, id: int, healthy: bool) -> Seq<
    SpecSubscriber,
> {
    match spec_id_index(s, id) {
        Some(i) => s.update(i, spec_with_health(s[i], healthy)),
        None => s,
    }
}

/// The membership after a broadcast: every subscriber offered the payload,
/// independently of the others.
pub open spec fn spec_broadcast(s: Seq<SpecSubscriber>, payload: Seq<char>) -> Seq<SpecSubscriber> {
    Seq::new(s.len(), |i: int| spec_deliver(s[i], payload))
}

/// What a found id index means: the first matching entry; `None` means no
/// entry at or after `from` matches.
pub proof fn lemma_id_index_from_props(s: Seq<SpecSubscriber>, id: int, from: int)
    requires
        0 <= from <= s.len(),
    ensures
        match spec_id_index_from(s, id, from) {
            Some(i) => from <= i < s.len() && s[i].id == id && (forall|j: int|
                from <= j < i ==> (#[trigger] s[j]).id != id),
            None => forall|j: int| from <= j < s.len() ==> (#[trigger] s[j]).id != id,
        },
    decreases s.len() - from,
{
    if from < s.len() && s[from].id != id {
        lemma_id_index_from_props(s, id, from + 1);
    }
}

/// Law: broadcasting delivers the payload to every registered subscriber
/// whose sink is healthy, and a failing sink neither blocks the others nor
/// changes the membership.
pub proof fn lemma_broadcast_delivery(s: Seq<SpecSubscriber>, payload: Seq<char>)
    ensures
        spec_broadcast(s, payload).len() == s.len(),
        forall|i: int|
            0 <= i < s.len() && s[i].sink_healthy ==> (#[trigger] spec_broadcast(s, payload)[i]).inbox
                == s[i].inbox.push(payload),
        forall|i: int|
            0 <= i < s.len() && !s[i].sink_healthy ==> #[trigger] spec_broadcast(s, payload)[i]
                == s[i],
        forall|i: int|
            0 <= i < s.len() ==> (#[trigger] spec_broadcast(s, payload)[i]).id == s[i].id
                && spec_broadcast(s, payload)[i].sink_healthy == s[i].sink_healthy,
{
}

/// Law: once a subscriber has unregistered, no later broadcast reaches it —
/// its id is gone from the membership, and broadcasting never resurrects it.
pub proof fn lemma_unregister_isolates(s: Seq<SpecSubscriber>, id: int, payload: Seq<char>)
    requires
        ids_unique(s),
    ensures
        !spec_contains_id(spec_unregister(s, id), id),
        !spec_contains_id(spec_broadcast(spec_unregister(s, id), payload), id),
{
    lemma_unregister_wf(s, id);
    let t = spec_unregister(s, id);
    let b = spec_broadcast(t, payload);
    assert forall|i: int| 0 <= i < b.len() implies (#[trigger] b[i]).id != id by {
        assert(t[i].id != id);
        assert(b[i] == spec_deliver(t[i], payload));
    }
}

/// Unregistering keeps ids unique and removes the id, leaving everyone
/// else in place.
pub proof fn lemma_unregister_wf(s: Seq<SpecSubscriber>, id: int)
    requires
        ids_unique(s),
    ensures
        ids_unique(spec_unregister(s, id)),
        !spec_contains_id(spec_unregister(s, id), id),
{
    lemma_id_index_from_props(s, id, 0);
    let t = spec_unregister(s, id);
    match spec_id_index(s, id) {
        Some(i) => {
            assert forall|a: int, b: int| 0 <= a < b < t.len() implies (#[trigger] t[a]).id != (
            #[trigger] t[b]).id by {
                let a0 = if a < i { a } else { a + 1 };
                let b0 = if b < i { b } else { b + 1 };
                assert(t[a] == s[a0] && t[b] == s[b0]);
            }
            assert forall|k: int| 0 <= k < t.len() implies (#[trigger] t[k]).id != id by {
                let k0 = if k < i { k } else { k + 1 };
                assert(t[k] == s[k0]);
                if k0 != i && s[k0].id == id {
                    if k0 < i {
                        assert(s[k0].id != s[i].id);
                    } else {
                        assert(s[i].id != s[k0].id);
                    }
                }
            }
        },
        None => {
            assert forall|k: int| 0 <= k < t.len() implies (#[trigger] t[k]).id != id by {
                assert(t[k] == s[k]);
            }
        },
    }
}

/// The registry of live dashboard subscribers.  Fans a payload out to every
/// member, best effort, and assigns ids from a monotonic counter.
pub struct UpdateServer {
    clients: Vec<Subscriber>,
    next_id: usize,
}

impl View for UpdateServer {
    type V = Seq<SpecSubscriber>;

    closed spec fn view(&self) -> Seq<SpecSubscriber> {
        self.clients.deep_view()
    }
}

impl UpdateServer {
    /// The next id the counter will hand out.
    pub closed spec fn spec_next_id(&self) -> int {
        self.next_id as int
    }

    /// Ids are unique and below the counter.
    pub open spec fn wf(&self) -> bool {
        &&& ids_unique(self@)
        &&& forall|i: int| 0 <= i < self@.len() ==> (#[trigger] self@[i]).id < self.spec_next_id()
    }

    /// How many subscribers are live.
    pub fn client_count(&self) -> (n: usize)
        ensures
            n == self@.len(),
    {
        self.clients.len()
    }

    /// Register a new subscriber.  The returned id is unique among the
    /// currently live subscribers; the new member starts healthy with an
    /// empty delivery record.
    pub fn register(&mut self) -> (id: usize)
        requires
            old(self).wf(),
            old(self).spec_next_id() < usize::MAX,
        ensures
            final(self).wf(),
            final(self)@ == spec_register(old(self)@, id as int),
            id as int == old(self).spec_next_id(),
            final(self).spec_next_id() == old(self).spec_next_id() + 1,
            !spec_contains_id(old(self)@, id as int),
    {
        let id = self.next_id;
        self.clients.push(Subscriber { id: id, sink_healthy: true, inbox: Vec::new() });
        self.next_id = self.next_id + 1;
        proof {
            assert(final(self)@ =~= spec_register(old(self)@, id as int)) by {
                assert forall|i: int| 0 <= i < final(self)@.len() implies final(self)@[i]
                    == spec_register(old(self)@, id as int)[i] by {
                    if i < old(self)@.len() {
                        assert(final(self)@[i] == old(self)@[i]);
                    } else {
                        assert(final(self)@[i].inbox =~= Seq::<Seq<char>>::empty());
                    }
                }
            }
            if spec_contains_id(old(self)@, id as int) {
                let w = choose|i: int|
                    0 <= i < old(self)@.len() && (#[trigger] old(self)@[i]).id == id as int;
                assert(old(self)@[w].id < id as int);
            }
        }
        id
    }


    /// Index of the live subscriber carrying `id`, if any.
    fn find_id(&self, id: usize) -> (r: Option<usize>)
        ensures
            match r {
                Some(i) => i < self@.len() && Some(i as int) == spec_id_index(self@, id as int),
                None => spec_id_index(self@, id as int) is None,
            },
    {
        let n: usize = self.clients.len();
        let mut k: usize = 0;
        while k < n
            invariant
                k <= n,
                n == self.clients.len(),
                n == self@.len(),
                spec_id_index(self@, id as int) == spec_id_index_from(self@, id as int, k as int),
            decreases n - k,
        {
            if self.clients[k].id == id {
                assert(self@[k as int].id == id as int);
                return Some(k);
            }
            assert(self@[k as int].id != id as int);
            k += 1;
        }
        None
    }

    /// Drop the subscriber carrying `id`, if present.  After return that
    /// subscriber can never receive another broadcast.
    pub fn unregister(&mut self, id: usize)
        requires
            old(self).wf(),
        ensures
            final(self).wf(),
            final(self)@ == spec_unregister(old(self)@, id as int),
            final(self).spec_next_id() == old(self).spec_next_id(),
            !spec_contains_id(final(self)@, id as int),
    {
        proof {
            lemma_unregister_wf(self@, id as int);
        }
        match self.find_id(id) {
            Some(i) => {
                self.clients.remove(i);
                proof {
                    assert(final(self)@ =~= old(self)@.remove(i as int));
                }
            },
            None => {},
        }
    }

    /// Mark the sink of the subscriber carrying `id` as accepting pushes
    /// (`true`) or as broken (`false`).  Models a dashboard connection
    /// failing without (or before) an unregister; membership, ids and
    /// delivery records stay as they were.
    pub fn set_sink_health(&mut self, id: usize, healthy: bool)
        requires
            old(self).wf(),
        ensures
            final(self).wf(),
            final(self)@ == spec_set_health(old(self)@, id as int, healthy),
            final(self).spec_next_id() == old(self).spec_next_id(),
    {
        proof {
            lemma_id_index_from_props(self@, id as int, 0);
        }
        match self.find_id(id) {
            Some(i) => {
                let mut sub = self.clients.remove(i);
                sub.sink_healthy = healthy;
                self.clients.insert(i, sub);
                proof {
                    assert(final(self)@ =~= old(self)@.update(
                        i as int,
                        spec_with_health(old(self)@[i as int], healthy),
                    ));
                    assert forall|a: int, b: int| 0 <= a < b < final(self)@.len() implies (
                    #[trigger] final(self)@[a]).id != (#[trigger] final(self)@[b]).id by {
                        assert(old(self)@[a].id != old(self)@[b].id);
                    }
                }
            },
            None => {},
        }
    }

    /// Push `message` to every live subscriber, best effort: each healthy
    /// sink records it, each broken sink is skipped, and no failure stops
    /// the loop or reaches the caller.
    pub fn send_update(&mut self, message: &str)
        requires
            old(self).wf(),
        ensures
            final(self).wf(),
            final(self)@ == spec_broadcast(old(self)@, message@),
            final(self).spec_next_id() == old(self).spec_next_id(),
    {
        let n: usize = self.clients.len();
        let mut k: usize = 0;
        while k < n
            invariant
                k <= n,
                n == self.clients.len(),
                n == self@.len(),
                self.next_id == old(self).next_id,
                forall|i: int|
                    0 <= i < k as int ==> #[trigger] self@[i] == spec_deliver(
                        old(self)@[i],
                        message@,
                    ),
                forall|i: int|
                    k as int <= i < n as int ==> #[trigger] self@[i] == old(self)@[i],
            decreases n - k,
        {
            let ghost pre = self@;
            let mut sub = self.clients.remove(k);
            if sub.sink_healthy {
                let ghost inbox_pre = sub.inbox.deep_view();
                let line: String = message.to_owned();
                sub.inbox.push(line);
                proof {
                    assert(sub.inbox.deep_view() =~= inbox_pre.push(message@));
                }
            }
            self.clients.insert(k, sub);
            proof {
                assert(self@ =~= pre.update(k as int, spec_deliver(pre[k as int], message@)));
            }
            k += 1;
        }
        proof {
            assert(final(self)@ =~= spec_broadcast(old(self)@, message@));
            assert forall|a: int, b: int| 0 <= a < b < final(self)@.len() implies (
            #[trigger] final(self)@[a]).id != (#[trigger] final(self)@[b]).id by {
                assert(old(self)@[a].id != old(self)@[b].id);
                assert(final(self)@[a] == spec_deliver(old(self)@[a], message@));
                assert(final(self)@[b] == spec_deliver(old(self)@[b], message@));
            }
            assert forall|i: int| 0 <= i < final(self)@.len() implies (#[trigger] final(self)@[i]).id
                < final(self).spec_next_id() by {
                assert(final(self)@[i] == spec_deliver(old(self)@[i], message@));
                assert(old(self)@[i].id < old(self).spec_next_id());
            }
        }
    }

    /// The delivery record of the subscriber carrying `id`, if present.
    pub fn delivered(&self, id: usize) -> (r: Option<&Vec<String>>)
        ensures
            match r {
                Some(v) => spec_contains_id(self@, id as int) && (exists|i: int|
                    0 <= i < self@.len() && (#[trigger] self@[i]).id == id as int && v.deep_view()
                        == self@[i].inbox),
                None => !spec_contains_id(self@, id as int),
            },
    {
        proof {
            lemma_id_index_from_props(self@, id as int, 0);
        }
        match self.find_id(id) {
            Some(i) => {
                assert(self@[i as int].id == id as int);
                Some(&self.clients[i].inbox)
            },
            None => None,
        }
    }
}

impl Default for UpdateServer {
    /// An empty registry with the id counter at zero.
    fn default() -> (r: UpdateServer)
        ensures
            r@ == Seq::<SpecSubscriber>::empty(),
            r.spec_next_id() == 0,
            r.wf(),
    {
        let r = UpdateServer { clients: Vec::new(), next_id: 0 };
        proof {
            assert(r@ =~= Seq::<SpecSubscriber>::empty());
        }
        r
    }
}

} // verus!
