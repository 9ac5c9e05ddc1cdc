//! Topic-based subscribe/publish registry.
//!
//! Topics are identified by a numeric code and hold a set of subscribers,
//! each keyed by its connection identifier and carrying the request context
//! it subscribed with plus a per-subscriber stream sequence number. A publish
//! pass plans one envelope per current subscriber, stamping the subscriber's
//! current stream sequence and then advancing it; the caller performs the
//! actual delivery and reports dead connections back through `evict_dead`,
//! so the set is never mutated while it is being enumerated.

use vstd::prelude::*;

use crate::alist::{
    alist_find, alist_has, alist_lookup, alist_remove_key, alist_upsert, alist_wf,
    lemma_lookup_at_index, lemma_lookup_push, lemma_lookup_some_index, lemma_lookup_update,
};

verus! {

/// The request that opened a subscription: the connection it arrived on,
/// its sequence number and its method code.
#[derive(Clone, Copy, PartialEq, Eq, Structural, Debug)]
pub struct RequestContext {
    pub connection_id: u32,
    pub seq: u32,
    pub method: u32,
}

/// A subscription entry: the original request context plus the stream
/// sequence number stamped on the next published envelope.
#[derive(Clone, Copy, PartialEq, Eq, Structural, Debug)]
pub struct SubscriberContext {
    pub ctx: RequestContext,
    pub stream_seq: u64,
}

/// The subscribers of one topic, keyed by connection identifier.
pub struct Subscribers {
    pub subscribers: Vec<(u32, SubscriberContext)>,
}

/// One planned delivery: the connection to send to and the stream message
/// fields, with the payload already serialized.
#[derive(Clone, Debug)]
pub struct StreamEnvelope {
    pub recipient: u32,
    pub original_seq: u32,
    pub method: u32,
    pub stream_seq: u64,
    pub stream_code: u32,
    pub data: String,
}

/// The registry: a map from topic code to that topic's subscriber set.
pub struct SubscribeManager {
    pub topics: Vec<(u32, Subscribers)>,
}

/// The stream sequence after one more envelope; it sticks at the largest
/// representable value instead of wrapping.
pub open spec fn bump_seq(n: u64) -> u64 {
    if n < u64::MAX {
        (n + 1) as u64
    } else {
        n
    }
}

pub open spec fn bumped(sc: SubscriberContext) -> SubscriberContext {
    SubscriberContext { ctx: sc.ctx, stream_seq: bump_seq(sc.stream_seq) }
}

pub open spec fn bump_entry(e: (u32, SubscriberContext)) -> (u32, SubscriberContext) {
    (e.0, bumped(e.1))
}

/// The envelope planned for one subscriber entry of `topic`, with payload
/// `data`: addressed to that connection, stamped with the request's own
/// sequence and method, the subscriber's current stream sequence and the
/// topic code.
pub open spec fn is_envelope_for(
    env: StreamEnvelope,
    entry: (u32, SubscriberContext),
    topic: u32,
    data: Seq<char>,
) -> bool {
    &&& env.recipient == entry.0
    &&& env.original_seq == entry.1.ctx.seq
    &&& env.method == entry.1.ctx.method
    &&& env.stream_seq == entry.1.stream_seq
    &&& env.stream_code == topic
    &&& env.data@ == data
}

impl Subscribers {
    /// Keys are unique and each entry is keyed by its own connection id.
    pub open spec fn wf(self) -> bool {
        &&& alist_wf(self.subscribers@)
        &&& forall|i: int|
            0 <= i < self.subscribers@.len() ==> (#[trigger] self.subscribers@[i]).0
                == self.subscribers@[i].1.ctx.connection_id
    }
}

/// What one publish pass over `topic` leaves behind: every other topic is
/// untouched, and on `topic` every subscriber got exactly one envelope
/// carrying its pre-pass stream sequence, which the pass then advanced.
pub open spec fn publish_all_post(
    pre: SubscribeManager,
    post: SubscribeManager,
    out: Seq<StreamEnvelope>,
    topic: u32,
    data: Seq<char>,
) -> bool {
    &&& forall|t: u32| post.has_topic(t) == pre.has_topic(t)
    &&& forall|t: u32, c: u32| t != topic ==> post.sub_of(t, c) == pre.sub_of(t, c)
    &&& match pre.topic_subs(topic) {
        None => out.len() == 0 && forall|c: u32|
            post.sub_of(topic, c) == pre.sub_of(topic, c),
        Some(subs) => {
            &&& out.len() == subs.subscribers@.len()
            &&& forall|j: int|
                0 <= j < out.len() ==> is_envelope_for(
                    out[j],
                    subs.subscribers@[j],
                    topic,
                    data,
                )
            &&& forall|c: u32|
                post.sub_of(topic, c) == match pre.sub_of(topic, c) {
                    Some(sc) => Some(bumped(sc)),
                    None => None::<SubscriberContext>,
                }
        },
    }
}

/// What eviction leaves behind: on `topic` exactly the named connections are
/// gone; every other topic keeps every entry.
pub open spec fn evict_post(
    pre: SubscribeManager,
    post: SubscribeManager,
    topic: u32,
    dead: Seq<u32>,
) -> bool {
    &&& forall|t: u32| post.has_topic(t) == pre.has_topic(t)
    &&& forall|t: u32, c: u32| t != topic ==> post.sub_of(t, c) == pre.sub_of(t, c)
    &&& forall|c: u32| dead.contains(c) ==> post.sub_of(topic, c) is None
    &&& forall|c: u32| !dead.contains(c) ==> post.sub_of(topic, c) == pre.sub_of(topic, c)
}

impl SubscribeManager {
    pub open spec fn wf(self) -> bool {
        &&& alist_wf(self.topics@)
        &&& forall|i: int| 0 <= i < self.topics@.len() ==> (#[trigger] self.topics@[i]).1.wf()
    }

    pub open spec fn has_topic(self, t: u32) -> bool {
        alist_has(self.topics@, t)
    }

    pub open spec fn topic_subs(self, t: u32) -> Option<Subscribers> {
        alist_lookup(self.topics@, t)
    }

    /// The subscription entry of connection `c` on topic `t`, if any.
    pub open spec fn sub_of(self, t: u32, c: u32) -> Option<SubscriberContext> {
        match alist_lookup(self.topics@, t) {
            Some(subs) => alist_lookup(subs.subscribers@, c),
            None => None,
        }
    }

    pub fn new() -> (r: SubscribeManager)
        ensures
            r.wf(),
            forall|t: u32| !r.has_topic(t),
            forall|t: u32, c: u32| r.sub_of(t, c) is None,
    {
        SubscribeManager { topics: Vec::new() }
    }

    /// Create `topic` with no subscribers if it is absent; a present topic
    /// keeps its subscribers.
    pub fn add_topic(&mut self, topic: u32)
        requires
            old(self).wf(),
        ensures
            final(self).wf(),
            final(self).has_topic(topic),
            forall|t: u32| t != topic ==> final(self).has_topic(t) == old(self).has_topic(t),
            forall|t: u32, c: u32| final(self).sub_of(t, c) == old(self).sub_of(t, c),
    {
        let ghost s = self.topics@;
        match alist_find(&self.topics, topic) {
            Some(_) => {},
            None => {
                let empty = Subscribers { subscribers: Vec::new() };
                let ghost esubs = empty;
                self.topics.push((topic, empty));
                proof {
                    assert(self.topics@ =~= s.push((topic, esubs)));
                    assert forall|t: u32|
                        alist_lookup(self.topics@, t) == (if t == topic {
                            Some(esubs)
                        } else {
                            alist_lookup(s, t)
                        }) by {
                        lemma_lookup_push(s, (topic, esubs), t);
                    }
                    assert forall|a: int, b: int|
                        0 <= a < b < self.topics@.len() implies self.topics@[a].0
                        != self.topics@[b].0 by {
                        if b == self.topics@.len() - 1 {
                            lemma_lookup_at_index(s, a);
                        }
                    }
                    assert(forall|c: u32| alist_lookup(esubs.subscribers@, c) is None);
                }
            },
        }
    }

    pub fn add_topics(&mut self, topics: Vec<u32>)
        requires
            old(self).wf(),
        ensures
            final(self).wf(),
            forall|t: u32|
                final(self).has_topic(t) == (old(self).has_topic(t) || topics@.contains(t)),
            forall|t: u32, c: u32| final(self).sub_of(t, c) == old(self).sub_of(t, c),
    {
        let ghost m0 = *self;
        let mut i: usize = 0;
        while i < topics.len()
            invariant
                self.wf(),
                0 <= i <= topics@.len(),
                forall|m: int| 0 <= m < i ==> self.has_topic(#[trigger] topics@[m]),
                forall|t: u32|
                    #[trigger] self.has_topic(t) ==> (m0.has_topic(t) || topics@.contains(t)),
                forall|t: u32| m0.has_topic(t) ==> #[trigger] self.has_topic(t),
                forall|t: u32, c: u32| self.sub_of(t, c) == m0.sub_of(t, c),
            decreases topics@.len() - i,
        {
            let t = topics[i];
            self.add_topic(t);
            proof {
                assert(topics@.contains(topics@[i as int]));
            }
            i = i + 1;
        }
        proof {
            assert forall|t: u32|
                self.has_topic(t) == (m0.has_topic(t) || topics@.contains(t)) by {
                if topics@.contains(t) {
                    let m = choose|m: int| 0 <= m < topics@.len() && #[trigger] topics@[m] == t;
                    assert(self.has_topic(topics@[m]));
                }
            }
        }
    }

    /// Insert or overwrite the entry of `ctx.connection_id` on `topic`,
    /// starting its stream sequence at zero; the topic is created if absent.
    pub fn subscribe(&mut self, topic: u32, ctx: RequestContext)
        requires
            old(self).wf(),
        ensures
            final(self).wf(),
            final(self).sub_of(topic, ctx.connection_id) == Some(
                SubscriberContext { ctx, stream_seq: 0 },
            ),
            forall|t: u32, c: u32|
                !(t == topic && c == ctx.connection_id) ==> final(self).sub_of(t, c) == old(
                    self,
                ).sub_of(t, c),
            final(self).has_topic(topic),
            forall|t: u32| t != topic ==> final(self).has_topic(t) == old(self).has_topic(t),
    {
        let ghost s = self.topics@;
        let entry = SubscriberContext { ctx, stream_seq: 0 };
        match alist_find(&self.topics, topic) {
            Some(i) => {
                let ghost old_subs = s[i as int].1;
                let (k, mut subs) = self.topics.remove(i);
                proof {
                    assert(old(self).wf());
                    assert(s[i as int].1.wf());
                }
                alist_upsert(&mut subs.subscribers, ctx.connection_id, entry);
                let ghost gsubs = subs;
                self.topics.insert(i, (k, subs));
                proof {
                    assert(self.topics@ =~= s.update(i as int, (k, gsubs)));
                    lemma_lookup_update(s, i as int, (k, gsubs), topic);
                    assert forall|t: u32| t != topic implies alist_lookup(self.topics@, t)
                        == alist_lookup(s, t) by {
                        lemma_lookup_update(s, i as int, (k, gsubs), t);
                    }
                    assert(gsubs.wf()) by {
                        assert(alist_wf(gsubs.subscribers@));
                        assert forall|j: int|
                            0 <= j < gsubs.subscribers@.len() implies (
                            #[trigger] gsubs.subscribers@[j]).0
                            == gsubs.subscribers@[j].1.ctx.connection_id by {
                            lemma_lookup_at_index(gsubs.subscribers@, j);
                            if gsubs.subscribers@[j].0 != ctx.connection_id {
                                lemma_lookup_some_index(old_subs.subscribers@, gsubs.subscribers@[j].0);
                            }
                        }
                    }
                }
            },
            None => {
                let mut subs = Subscribers { subscribers: Vec::new() };
                alist_upsert(&mut subs.subscribers, ctx.connection_id, entry);
                let ghost gsubs = subs;
                self.topics.push((topic, subs));
                proof {
                    assert(self.topics@ =~= s.push((topic, gsubs)));
                    assert forall|t: u32|
                        alist_lookup(self.topics@, t) == (if t == topic {
                            Some(gsubs)
                        } else {
                            alist_lookup(s, t)
                        }) by {
                        lemma_lookup_push(s, (topic, gsubs), t);
                    }
                    assert forall|a: int, b: int|
                        0 <= a < b < self.topics@.len() implies self.topics@[a].0
                        != self.topics@[b].0 by {
                        if b == self.topics@.len() - 1 {
                            lemma_lookup_at_index(s, a);
                        }
                    }
                    assert(gsubs.wf()) by {
                        assert forall|j: int|
                            0 <= j < gsubs.subscribers@.len() implies (
                            #[trigger] gsubs.subscribers@[j]).0
                            == gsubs.subscribers@[j].1.ctx.connection_id by {
                            lemma_lookup_at_index(gsubs.subscribers@, j);
                        }
                    }
                    assert forall|c: u32| c != ctx.connection_id implies alist_lookup(
                        gsubs.subscribers@,
                        c,
                    ) is None by {
                        assert(alist_lookup(Seq::<(u32, SubscriberContext)>::empty(), c) is None);
                    }
                }
            },
        }
    }

    pub fn subscribe_multi(&mut self, topics: Vec<u32>, ctx: RequestContext)
        requires
            old(self).wf(),
        ensures
            final(self).wf(),
            forall|t: u32|
                topics@.contains(t) ==> final(self).sub_of(t, ctx.connection_id) == Some(
                    SubscriberContext { ctx, stream_seq: 0 },
                ),
            forall|t: u32, c: u32|
                !(topics@.contains(t) && c == ctx.connection_id) ==> final(self).sub_of(t, c)
                    == old(self).sub_of(t, c),
            forall|t: u32|
                final(self).has_topic(t) == (old(self).has_topic(t) || topics@.contains(t)),
    {
        let ghost m0 = *self;
        let mut i: usize = 0;
        while i < topics.len()
            invariant
                self.wf(),
                0 <= i <= topics@.len(),
                forall|m: int|
                    0 <= m < i ==> self.sub_of(#[trigger] topics@[m], ctx.connection_id)
                        == Some(SubscriberContext { ctx, stream_seq: 0 }),
                forall|t: u32, c: u32|
                    !(topics@.contains(t) && c == ctx.connection_id) ==> self.sub_of(t, c)
                        == m0.sub_of(t, c),
                forall|m: int| 0 <= m < i ==> self.has_topic(#[trigger] topics@[m]),
                forall|t: u32|
                    #[trigger] self.has_topic(t) ==> (m0.has_topic(t) || topics@.contains(t)),
                forall|t: u32| m0.has_topic(t) ==> #[trigger] self.has_topic(t),
            decreases topics@.len() - i,
        {
            let t = topics[i];
            self.subscribe(t, ctx);
            proof {
                assert(topics@.contains(topics@[i as int]));
            }
            i = i + 1;
        }
        proof {
            assert forall|t: u32| topics@.contains(t) implies self.sub_of(t, ctx.connection_id)
                == Some(SubscriberContext { ctx, stream_seq: 0 }) by {
                let m = choose|m: int| 0 <= m < topics@.len() && #[trigger] topics@[m] == t;
                assert(self.sub_of(topics@[m], ctx.connection_id) == Some(
                    SubscriberContext { ctx, stream_seq: 0 },
                ));
            }
            assert forall|t: u32|
                self.has_topic(t) == (m0.has_topic(t) || topics@.contains(t)) by {
                if topics@.contains(t) {
                    let m = choose|m: int| 0 <= m < topics@.len() && #[trigger] topics@[m] == t;
                    assert(self.has_topic(topics@[m]));
                }
            }
        }
    }

    /// Remove the entry of `connection_id` on `topic`, if either exists.
    pub fn unsubscribe(&mut self, topic: u32, connection_id: u32)
        requires
            old(self).wf(),
        ensures
            final(self).wf(),
            final(self).sub_of(topic, connection_id) is None,
            forall|t: u32, c: u32|
                !(t == topic && c == connection_id) ==> final(self).sub_of(t, c) == old(
                    self,
                ).sub_of(t, c),
            forall|t: u32| final(self).has_topic(t) == old(self).has_topic(t),
    {
        let ghost s = self.topics@;
        match alist_find(&self.topics, topic) {
            Some(i) => {
                let ghost old_subs = s[i as int].1;
                let (k, mut subs) = self.topics.remove(i);
                proof {
                    assert(s[i as int].1.wf());
                }
                alist_remove_key(&mut subs.subscribers, connection_id);
                let ghost gsubs = subs;
                self.topics.insert(i, (k, subs));
                proof {
                    assert(self.topics@ =~= s.update(i as int, (k, gsubs)));
                    lemma_lookup_update(s, i as int, (k, gsubs), topic);
                    assert forall|t: u32| t != topic implies alist_lookup(self.topics@, t)
                        == alist_lookup(s, t) by {
                        lemma_lookup_update(s, i as int, (k, gsubs), t);
                    }
                    assert(gsubs.wf()) by {
                        assert forall|j: int|
                            0 <= j < gsubs.subscribers@.len() implies (
                            #[trigger] gsubs.subscribers@[j]).0
                            == gsubs.subscribers@[j].1.ctx.connection_id by {
                            lemma_lookup_at_index(gsubs.subscribers@, j);
                            lemma_lookup_some_index(old_subs.subscribers@, gsubs.subscribers@[j].0);
                        }
                    }
                }
            },
            None => {},
        }
    }

    pub fn unsubscribe_multi(&mut self, topics: Vec<u32>, connection_id: u32)
        requires
            old(self).wf(),
        ensures
            final(self).wf(),
            forall|t: u32|
                topics@.contains(t) ==> final(self).sub_of(t, connection_id) is None,
            forall|t: u32, c: u32|
                !(topics@.contains(t) && c == connection_id) ==> final(self).sub_of(t, c) == old(
                    self,
                ).sub_of(t, c),
            forall|t: u32| final(self).has_topic(t) == old(self).has_topic(t),
    {
        let ghost m0 = *self;
        let mut i: usize = 0;
        while i < topics.len()
            invariant
                self.wf(),
                0 <= i <= topics@.len(),
                forall|m: int|
                    0 <= m < i ==> self.sub_of(#[trigger] topics@[m], connection_id) is None,
                forall|t: u32, c: u32|
                    !(topics@.contains(t) && c == connection_id) ==> self.sub_of(t, c)
                        == m0.sub_of(t, c),
                forall|t: u32| self.has_topic(t) == m0.has_topic(t),
            decreases topics@.len() - i,
        {
            let t = topics[i];
            self.unsubscribe(t, connection_id);
            proof {
                assert(topics@.contains(topics@[i as int]));
            }
            i = i + 1;
        }
        proof {
            assert forall|t: u32| topics@.contains(t) implies self.sub_of(
                t,
                connection_id,
            ) is None by {
                let m = choose|m: int| 0 <= m < topics@.len() && #[trigger] topics@[m] == t;
                assert(self.sub_of(topics@[m], connection_id) is None);
            }
        }
    }

    /// Plan one publish pass over `topic` with the already-serialized payload
    /// `data`: one envelope per current subscriber, stamped with that
    /// subscriber's current stream sequence, which the pass then advances.
    /// The caller delivers the envelopes and reports failures to
    /// `evict_dead`.
    pub fn publish_to_all(&mut self, topic: u32, data: &str) -> (out: Vec<StreamEnvelope>)
        requires
            old(self).wf(),
        ensures
            final(self).wf(),
            publish_all_post(*old(self), *final(self), out@, topic, data@),
    {
        let mut out: Vec<StreamEnvelope> = Vec::new();
        let ghost s = self.topics@;
        match alist_find(&self.topics, topic) {
            None => out,
            Some(i) => {
                let ghost old_subs = s[i as int].1;
                let (k, mut subs) = self.topics.remove(i);
                proof {
                    assert(s[i as int].1.wf());
                }
                let ghost s0 = subs.subscribers@;
                let mut j: usize = 0;
                while j < subs.subscribers.len()
                    invariant
                        0 <= j <= s0.len(),
                        subs.subscribers@.len() == s0.len(),
                        forall|m: int| j <= m < s0.len() ==> subs.subscribers@[m] == s0[m],
                        forall|m: int|
                            0 <= m < j ==> subs.subscribers@[m] == bump_entry(s0[m]),
                        out@.len() == j,
                        forall|m: int|
                            0 <= m < j ==> is_envelope_for(out@[m], s0[m], topic, data@),
                    decreases s0.len() - j,
                {
                    let entry = subs.subscribers[j];
                    let env = StreamEnvelope {
                        recipient: entry.0,
                        original_seq: entry.1.ctx.seq,
                        method: entry.1.ctx.method,
                        stream_seq: entry.1.stream_seq,
                        stream_code: topic,
                        data: data.to_owned(),
                    };
                    out.push(env);
                    let next_seq: u64 = if entry.1.stream_seq < u64::MAX {
                        entry.1.stream_seq + 1
                    } else {
                        entry.1.stream_seq
                    };
                    subs.subscribers.set(
                        j,
                        (entry.0, SubscriberContext { ctx: entry.1.ctx, stream_seq: next_seq }),
                    );
                    j = j + 1;
                }
                let ghost gsubs = subs;
                self.topics.insert(i, (k, subs));
                proof {
                    assert(self.topics@ =~= s.update(i as int, (k, gsubs)));
                    assert(gsubs.wf()) by {
                        assert(forall|m: int|
                            0 <= m < gsubs.subscribers@.len() ==> (
                            #[trigger] gsubs.subscribers@[m]).0 == s0[m].0);
                        assert(old_subs.wf());
                    }
                    lemma_lookup_update(s, i as int, (k, gsubs), topic);
                    assert forall|t: u32| t != topic implies alist_lookup(self.topics@, t)
                        == alist_lookup(s, t) by {
                        lemma_lookup_update(s, i as int, (k, gsubs), t);
                    }
                    assert forall|c: u32|
                        alist_lookup(gsubs.subscribers@, c) == (match alist_lookup(s0, c) {
                            Some(sc) => Some(bumped(sc)),
                            None => None::<SubscriberContext>,
                        }) by {
                        lemma_lookup_bump_all(s0, gsubs.subscribers@, c);
                    }
                }
                out
            },
        }
    }

    /// Remove every connection named in `dead` from `topic`'s subscriber
    /// set; other topics keep all their entries, so a connection subscribed
    /// elsewhere is evicted only from the topic whose delivery failed.
    pub fn evict_dead(&mut self, topic: u32, dead: &Vec<u32>)
        requires
            old(self).wf(),
        ensures
            final(self).wf(),
            evict_post(*old(self), *final(self), topic, dead@),
    {
        let ghost s = self.topics@;
        match alist_find(&self.topics, topic) {
            None => {},
            Some(i) => {
                let ghost old_subs = s[i as int].1;
                let (k, mut subs) = self.topics.remove(i);
                proof {
                    assert(s[i as int].1.wf());
                }
                let ghost s0 = subs.subscribers@;
                let mut j: usize = 0;
                while j < dead.len()
                    invariant
                        0 <= j <= dead@.len(),
                        alist_wf(subs.subscribers@),
                        forall|m: int|
                            0 <= m < j ==> alist_lookup(
                                subs.subscribers@,
                                #[trigger] dead@[m],
                            ) is None,
                        forall|c: u32|
                            !dead@.contains(c) ==> alist_lookup(subs.subscribers@, c)
                                == alist_lookup(s0, c),
                    decreases dead@.len() - j,
                {
                    let c = dead[j];
                    alist_remove_key(&mut subs.subscribers, c);
                    proof {
                        assert(dead@.contains(dead@[j as int]));
                    }
                    j = j + 1;
                }
                proof {
                    assert forall|c: u32| dead@.contains(c) implies alist_lookup(
                        subs.subscribers@,
                        c,
                    ) is None by {
                        let m = choose|m: int| 0 <= m < dead@.len() && #[trigger] dead@[m] == c;
                        assert(alist_lookup(subs.subscribers@, dead@[m]) is None);
                    }
                }
                let ghost gsubs = subs;
                self.topics.insert(i, (k, subs));
                proof {
                    assert(self.topics@ =~= s.update(i as int, (k, gsubs)));
                    assert(gsubs.wf()) by {
                        assert forall|m: int|
                            0 <= m < gsubs.subscribers@.len() implies (
                            #[trigger] gsubs.subscribers@[m]).0
                            == gsubs.subscribers@[m].1.ctx.connection_id by {
                            lemma_lookup_at_index(gsubs.subscribers@, m);
                            lemma_lookup_some_index(s0, gsubs.subscribers@[m].0);
                        }
                    }
                    lemma_lookup_update(s, i as int, (k, gsubs), topic);
                    assert forall|t: u32| t != topic implies alist_lookup(self.topics@, t)
                        == alist_lookup(s, t) by {
                        lemma_lookup_update(s, i as int, (k, gsubs), t);
                    }
                }
            },
        }
    }
}

proof fn lemma_subrange_snoc<T>(s: Seq<T>, i: int)
    requires
        0 <= i < s.len(),
    ensures
        s.subrange(0, i + 1).contains(s[i]),
        forall|x: T| #[trigger]
            s.subrange(0, i + 1).contains(x) ==> s.subrange(0, i).contains(x) || x == s[i],
        forall|x: T| #[trigger] s.subrange(0, i).contains(x) ==> s.subrange(0, i + 1).contains(x),
{
    assert(s.subrange(0, i + 1)[i] == s[i]);
    assert forall|x: T| #[trigger] s.subrange(0, i + 1).contains(x) implies s.subrange(
        0,
        i,
    ).contains(x) || x == s[i] by {
        let m = choose|m: int| 0 <= m < i + 1 && #[trigger] s.subrange(0, i + 1)[m] == x;
        if m < i {
            assert(s.subrange(0, i)[m] == x);
        }
    }
    assert forall|x: T| #[trigger] s.subrange(0, i).contains(x) implies s.subrange(
        0,
        i + 1,
    ).contains(x) by {
        let m = choose|m: int| 0 <= m < i && #[trigger] s.subrange(0, i)[m] == x;
        assert(s.subrange(0, i + 1)[m] == x);
    }
}

proof fn lemma_lookup_bump_all(
    s1: Seq<(u32, SubscriberContext)>,
    s2: Seq<(u32, SubscriberContext)>,
    c: u32,
)
    requires
        s1.len() == s2.len(),
        forall|i: int| 0 <= i < s1.len() ==> s2[i] == bump_entry(s1[i]),
    ensures
        alist_lookup(s2, c) == (match alist_lookup(s1, c) {
            Some(sc) => Some(bumped(sc)),
            None => None::<SubscriberContext>,
        }),
    decreases s1.len(),
{
    if s1.len() > 0 {
        assert(s2[0] == bump_entry(s1[0]));
        assert(forall|i: int|
            0 <= i < s1.drop_first().len() ==> s1.drop_first()[i] == s1[i + 1]
                && s2.drop_first()[i] == s2[i + 1]);
        lemma_lookup_bump_all(s1.drop_first(), s2.drop_first(), c);
    }
}

impl Default for SubscribeManager {
    /// An empty registry.
    fn default() -> (r: SubscribeManager)
        ensures
            r.wf(),
            forall|t: u32| !r.has_topic(t),
            forall|t: u32, c: u32| r.sub_of(t, c) is None,
    {
        SubscribeManager::new()
    }
}


/// Law: a connection subscribed to a topic is notified by the first publish
/// pass with stream sequence zero and only under the published topic's
/// code; the pass advances its sequence to one, other topics' entries are
/// untouched, and a second pass delivers stream sequence one.
pub proof fn lemma_stream_sequence_progression(
    m0: SubscribeManager,
    m1: SubscribeManager,
    out1: Seq<StreamEnvelope>,
    m2: SubscribeManager,
    out2: Seq<StreamEnvelope>,
    topic: u32,
    other_topic: u32,
    c: u32,
    d1: Seq<char>,
    d2: Seq<char>,
)
    requires
        m0.wf(),
        m1.wf(),
        (m0.sub_of(topic, c) matches Some(sc) && sc.stream_seq == 0),
        publish_all_post(m0, m1, out1, topic, d1),
        publish_all_post(m1, m2, out2, topic, d2),
        other_topic != topic,
    ensures
        exists|j: int|
            0 <= j < out1.len() && (#[trigger] out1[j]).recipient == c && out1[j].stream_seq == 0
                && out1[j].stream_code == topic,
        forall|j: int| 0 <= j < out1.len() ==> (#[trigger] out1[j]).stream_code == topic,
        (m1.sub_of(topic, c) matches Some(sc1) && sc1.stream_seq == 1),
        m1.sub_of(other_topic, c) == m0.sub_of(other_topic, c),
        exists|j: int|
            0 <= j < out2.len() && (#[trigger] out2[j]).recipient == c && out2[j].stream_seq == 1
                && out2[j].stream_code == topic,
{
    let subs0 = m0.topic_subs(topic)->Some_0;
    assert forall|j: int| 0 <= j < out1.len() implies (#[trigger] out1[j]).stream_code
        == topic by {
        assert(is_envelope_for(out1[j], subs0.subscribers@[j], topic, d1));
    }
    lemma_lookup_some_index(subs0.subscribers@, c);
    let i0 = choose|i: int|
        0 <= i < subs0.subscribers@.len() && subs0.subscribers@[i].0 == c
            && subs0.subscribers@[i].1 == alist_lookup(subs0.subscribers@, c)->Some_0;
    assert(is_envelope_for(out1[i0], subs0.subscribers@[i0], topic, d1));
    let subs1 = m1.topic_subs(topic)->Some_0;
    lemma_lookup_some_index(subs1.subscribers@, c);
    let i1 = choose|i: int|
        0 <= i < subs1.subscribers@.len() && subs1.subscribers@[i].0 == c
            && subs1.subscribers@[i].1 == alist_lookup(subs1.subscribers@, c)->Some_0;
    assert(is_envelope_for(out2[i1], subs1.subscribers@[i1], topic, d2));
}

/// Law: after a connection unsubscribes from a topic, a publish pass over
/// that topic plans no envelope for it.
pub proof fn lemma_unsubscribed_not_notified(
    m1: SubscribeManager,
    m2: SubscribeManager,
    out: Seq<StreamEnvelope>,
    topic: u32,
    c: u32,
    d: Seq<char>,
)
    requires
        m1.wf(),
        m1.sub_of(topic, c) is None,
        publish_all_post(m1, m2, out, topic, d),
    ensures
        forall|j: int| 0 <= j < out.len() ==> (#[trigger] out[j]).recipient != c,
{
    match m1.topic_subs(topic) {
        None => {},
        Some(subs) => {
            lemma_lookup_some_index(m1.topics@, topic);
            let ti = choose|i: int|
                0 <= i < m1.topics@.len() && m1.topics@[i].0 == topic && m1.topics@[i].1
                    == alist_lookup(m1.topics@, topic)->Some_0;
            assert(m1.topics@[ti].1.wf());
            assert forall|j: int| 0 <= j < out.len() implies (#[trigger] out[j]).recipient
                != c by {
                assert(is_envelope_for(out[j], subs.subscribers@[j], topic, d));
                if subs.subscribers@[j].0 == c {
                    lemma_lookup_at_index(subs.subscribers@, j);
                }
            }
        },
    }
}

/// Law: a connection whose delivery failed during a publish pass is gone
/// from that topic's subscriber set once eviction runs, and is evicted
/// from that topic alone — a subscription it holds on any other topic is
/// untouched, so it is never counted twice.
pub proof fn lemma_failed_delivery_evicted_once(
    m2: SubscribeManager,
    m3: SubscribeManager,
    topic: u32,
    dead: Seq<u32>,
    c: u32,
)
    requires
        evict_post(m2, m3, topic, dead),
        dead.contains(c),
    ensures
        m3.sub_of(topic, c) is None,
        forall|t: u32| t != topic ==> m3.sub_of(t, c) == m2.sub_of(t, c),
{
}


/// Each decision in `d` is a result the filter can return for the
/// corresponding subscriber's context.
pub open spec fn decisions_match_filter<F: Fn(&RequestContext) -> bool>(
    filter: F,
    subs: Seq<(u32, SubscriberContext)>,
    d: Seq<bool>,
) -> bool {
    forall|i: int| 0 <= i < subs.len() ==> call_ensures(filter, (&subs[i].1.ctx,), d[i])
}

/// `out` is exactly the envelope plan over `subs` under the decisions
/// `d`: one envelope, in order, for each subscriber whose decision is
/// true, and none for the others.
pub open spec fn planned_ok(
    out: Seq<StreamEnvelope>,
    subs: Seq<(u32, SubscriberContext)>,
    d: Seq<bool>,
    topic: u32,
    data: Seq<char>,
) -> bool
    decreases subs.len(),
{
    if subs.len() == 0 {
        out.len() == 0
    } else if d[0] {
        out.len() > 0 && is_envelope_for(out[0], subs[0], topic, data) && planned_ok(
            out.drop_first(),
            subs.drop_first(),
            d.drop_first(),
            topic,
            data,
        )
    } else {
        planned_ok(out, subs.drop_first(), d.drop_first(), topic, data)
    }
}

/// The subscriber entries after a filtered pass: exactly the selected
/// ones advanced, the others untouched, all keys in place.
pub open spec fn selective_bump_ok(
    s0: Seq<(u32, SubscriberContext)>,
    s1: Seq<(u32, SubscriberContext)>,
    d: Seq<bool>,
) -> bool {
    s1.len() == s0.len() && forall|i: int|
        0 <= i < s0.len() ==> s1[i] == (if d[i] {
            bump_entry(s0[i])
        } else {
            s0[i]
        })
}

/// What one filtered publish pass over `topic` leaves behind: some
/// decision sequence, consistent with what the filter can return for each
/// subscriber, selects the notified subscribers; the plan and the
/// sequence advancement follow it exactly, and every other topic is
/// untouched.
pub open spec fn publish_filter_post<F: Fn(&RequestContext) -> bool>(
    pre: SubscribeManager,
    post: SubscribeManager,
    out: Seq<StreamEnvelope>,
    topic: u32,
    data: Seq<char>,
    filter: F,
) -> bool {
    &&& forall|t: u32| post.has_topic(t) == pre.has_topic(t)
    &&& forall|t: u32, c: u32| t != topic ==> post.sub_of(t, c) == pre.sub_of(t, c)
    &&& match pre.topic_subs(topic) {
        None => out.len() == 0 && (forall|c: u32|
            post.sub_of(topic, c) == pre.sub_of(topic, c)),
        Some(subs) => exists|d: Seq<bool>|
            {
                &&& d.len() == subs.subscribers@.len()
                &&& decisions_match_filter(filter, subs.subscribers@, d)
                &&& #[trigger] planned_ok(out, subs.subscribers@, d, topic, data)
                &&& (post.topic_subs(topic) matches Some(subs1) && selective_bump_ok(
                    subs.subscribers@,
                    subs1.subscribers@,
                    d,
                ))
            },
    }
}

proof fn lemma_planned_snoc(
    out: Seq<StreamEnvelope>,
    subs: Seq<(u32, SubscriberContext)>,
    d: Seq<bool>,
    e: (u32, SubscriberContext),
    b: bool,
    env: StreamEnvelope,
    topic: u32,
    data: Seq<char>,
)
    requires
        d.len() == subs.len(),
        planned_ok(out, subs, d, topic, data),
        b ==> is_envelope_for(env, e, topic, data),
    ensures
        b ==> planned_ok(out.push(env), subs.push(e), d.push(b), topic, data),
        !b ==> planned_ok(out, subs.push(e), d.push(b), topic, data),
    decreases subs.len(),
{
    let subs2 = subs.push(e);
    let d2 = d.push(b);
    if subs.len() == 0 {
        assert(out.len() == 0);
        assert(subs2[0] == e);
        assert(d2[0] == b);
        if b {
            assert(out.push(env)[0] == env);
            assert(out.push(env).drop_first() =~= Seq::<StreamEnvelope>::empty());
            assert(subs2.drop_first() =~= Seq::<(u32, SubscriberContext)>::empty());
            assert(d2.drop_first() =~= Seq::<bool>::empty());
            assert(planned_ok(out.push(env).drop_first(), subs2.drop_first(), d2.drop_first(), topic, data));
            assert(planned_ok(out.push(env), subs2, d2, topic, data));
        } else {
            assert(subs2.drop_first() =~= Seq::<(u32, SubscriberContext)>::empty());
            assert(d2.drop_first() =~= Seq::<bool>::empty());
            assert(planned_ok(out, subs2.drop_first(), d2.drop_first(), topic, data));
            assert(planned_ok(out, subs2, d2, topic, data));
        }
    } else {
        assert(subs2[0] == subs[0]);
        assert(d2[0] == d[0]);
        assert(subs2.drop_first() =~= subs.drop_first().push(e));
        assert(d2.drop_first() =~= d.drop_first().push(b));
        if d[0] {
            assert(planned_ok(out.drop_first(), subs.drop_first(), d.drop_first(), topic, data));
            lemma_planned_snoc(
                out.drop_first(),
                subs.drop_first(),
                d.drop_first(),
                e,
                b,
                env,
                topic,
                data,
            );
            if b {
                assert(out.push(env)[0] == out[0]);
                assert(out.push(env).drop_first() =~= out.drop_first().push(env));
                assert(planned_ok(out.push(env).drop_first(), subs2.drop_first(), d2.drop_first(), topic, data));
                assert(planned_ok(out.push(env), subs2, d2, topic, data));
            } else {
                assert(planned_ok(out.drop_first(), subs2.drop_first(), d2.drop_first(), topic, data));
                assert(planned_ok(out, subs2, d2, topic, data));
            }
        } else {
            assert(planned_ok(out, subs.drop_first(), d.drop_first(), topic, data));
            lemma_planned_snoc(out, subs.drop_first(), d.drop_first(), e, b, env, topic, data);
            if b {
                assert(planned_ok(out.push(env), subs2.drop_first(), d2.drop_first(), topic, data));
                assert(planned_ok(out.push(env), subs2, d2, topic, data));
            } else {
                assert(planned_ok(out, subs2.drop_first(), d2.drop_first(), topic, data));
                assert(planned_ok(out, subs2, d2, topic, data));
            }
        }
    }
}

impl SubscribeManager {
    /// Plan one publish pass over `topic` for the subscribers the filter
    /// selects, with the already-serialized payload `data`: each selected
    /// subscriber gets one envelope stamped with its current stream
    /// sequence, which the pass then advances; unselected subscribers are
    /// untouched. The caller delivers the envelopes and reports failures
    /// to `evict_dead`.
    pub fn publish_with_filter<F: Fn(&RequestContext) -> bool>(
        &mut self,
        topic: u32,
        data: &str,
        filter: F,
    ) -> (out: Vec<StreamEnvelope>)
        requires
            old(self).wf(),
            forall|c: &RequestContext| #[trigger] call_requires(filter, (c,)),
        ensures
            final(self).wf(),
            publish_filter_post(*old(self), *final(self), out@, topic, data@, filter),
    {
        let mut out: Vec<StreamEnvelope> = Vec::new();
        let ghost s = self.topics@;
        match alist_find(&self.topics, topic) {
            None => out,
            Some(i) => {
                let ghost old_subs = s[i as int].1;
                let (k, mut subs) = self.topics.remove(i);
                proof {
                    assert(s[i as int].1.wf());
                }
                let ghost s0 = subs.subscribers@;
                let mut j: usize = 0;
                let ghost mut d: Seq<bool> = Seq::empty();
                proof {
                    assert(s0.subrange(0, 0) =~= Seq::<(u32, SubscriberContext)>::empty());
                }
                while j < subs.subscribers.len()
                    invariant
                        0 <= j <= s0.len(),
                        subs.subscribers@.len() == s0.len(),
                        d.len() == j,
                        forall|m: int| j <= m < s0.len() ==> subs.subscribers@[m] == s0[m],
                        forall|m: int|
                            0 <= m < j ==> subs.subscribers@[m] == (if d[m] {
                                bump_entry(s0[m])
                            } else {
                                s0[m]
                            }),
                        forall|m: int|
                            0 <= m < j ==> call_ensures(filter, (&s0[m].1.ctx,), d[m]),
                        planned_ok(out@, s0.subrange(0, j as int), d, topic, data@),
                        forall|c: &RequestContext| #[trigger] call_requires(filter, (c,)),
                    decreases s0.len() - j,
                {
                    let entry = subs.subscribers[j];
                    let keep = filter(&entry.1.ctx);
                    proof {
                        lemma_subrange_snoc(s0, j as int);
                        assert(s0.subrange(0, j as int + 1) =~= s0.subrange(0, j as int).push(
                            s0[j as int],
                        ));
                    }
                    if keep {
                        let env = StreamEnvelope {
                            recipient: entry.0,
                            original_seq: entry.1.ctx.seq,
                            method: entry.1.ctx.method,
                            stream_seq: entry.1.stream_seq,
                            stream_code: topic,
                            data: data.to_owned(),
                        };
                        proof {
                            lemma_planned_snoc(
                                out@,
                                s0.subrange(0, j as int),
                                d,
                                s0[j as int],
                                true,
                                env,
                                topic,
                                data@,
                            );
                        }
                        out.push(env);
                        let next_seq: u64 = if entry.1.stream_seq < u64::MAX {
                            entry.1.stream_seq + 1
                        } else {
                            entry.1.stream_seq
                        };
                        subs.subscribers.set(
                            j,
                            (entry.0, SubscriberContext { ctx: entry.1.ctx, stream_seq: next_seq }),
                        );
                        proof {
                            d = d.push(true);
                        }
                    } else {
                        proof {
                            lemma_planned_snoc(
                                out@,
                                s0.subrange(0, j as int),
                                d,
                                s0[j as int],
                                false,
                                arbitrary(),
                                topic,
                                data@,
                            );
                            d = d.push(false);
                        }
                    }
                    j = j + 1;
                }
                let ghost gsubs = subs;
                self.topics.insert(i, (k, subs));
                proof {
                    assert(s0.subrange(0, s0.len() as int) =~= s0);
                    assert(self.topics@ =~= s.update(i as int, (k, gsubs)));
                    assert(gsubs.wf()) by {
                        assert(forall|m: int|
                            0 <= m < gsubs.subscribers@.len() ==> (
                            #[trigger] gsubs.subscribers@[m]).0 == s0[m].0);
                        assert(old_subs.wf());
                    }
                    lemma_lookup_update(s, i as int, (k, gsubs), topic);
                    assert forall|t: u32| t != topic implies alist_lookup(self.topics@, t)
                        == alist_lookup(s, t) by {
                        lemma_lookup_update(s, i as int, (k, gsubs), t);
                    }
                    assert(selective_bump_ok(s0, gsubs.subscribers@, d));
                    assert(planned_ok(out@, s0, d, topic, data@));
                }
                out
            },
        }
    }
}

} // verus!
