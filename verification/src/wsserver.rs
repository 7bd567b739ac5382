//! The registry of websocket sessions and of the game sides they follow.
//!
//! Each session is registered under an id that no registered session holds,
//! together with its address.
//! A session follows at most one side of one game at a time: subscribing
//! replaces what it followed before. A notification for a side goes to the
//! registered sessions that follow it.

use vstd::prelude::*;
use std::collections::HashMap;
use rand::rngs::ThreadRng;
use rand::Rng;

use crate::api::actor::{DisconnectMessage, SubscribeMessage};
use crate::api::PlayerSide;
use vstd::std_specs::hash::spec_hash_map_iter;
use vstd::std_specs::iter::IteratorSpec;
use vstd::set_lib::lemma_len_subset;

verus! {

#[verifier::external_type_specification]
#[verifier::external_body]
pub struct ExThreadRng(ThreadRng);

/// rand's `thread_rng`: a handle on the thread's random number generator.
#[verifier::external_body]
fn thread_rng() -> ThreadRng {
    rand::thread_rng()
}

broadcast use vstd::std_specs::hash::group_hash_axioms;

/// One side of one game.
#[derive(Debug, Clone, Copy, PartialEq, Eq, Hash, Structural)]
pub struct SubscribeKey {
    pub game_id: i32,
    pub side: PlayerSide,
}

/// rand's `Rng::gen` for a `usize`. Nothing is stated of the number.
#[verifier::external_body]
fn random_id(rng: &mut ThreadRng) -> usize {
    rng.gen::<usize>()
}

/// The abstract state of the registry: the registered sessions with their
/// addresses, and the side that each session follows.
#[verifier::ext_equal]
pub struct Registry<A> {
    pub sessions: Map<usize, A>,
    pub follows: Map<usize, SubscribeKey>,
}

/// The sessions that a notification for `key` reaches: the registered ones
/// that follow `key`.
pub open spec fn audience<A>(r: Registry<A>, key: SubscribeKey) -> Set<usize> {
    Set::new(|id: usize| r.sessions.contains_key(id) && r.follows.contains_key(id) && r.follows[id] == key)
}

/// The registry after the session `id` with address `addr` registers.
pub open spec fn after_connect<A>(r: Registry<A>, id: usize, addr: A) -> Registry<A> {
    Registry { sessions: r.sessions.insert(id, addr), follows: r.follows }
}

/// The registry after session `id` goes: when it was registered, it is
/// forgotten with what it followed; otherwise nothing changes.
pub open spec fn after_disconnect<A>(r: Registry<A>, id: usize) -> Registry<A> {
    if r.sessions.contains_key(id) {
        Registry { sessions: r.sessions.remove(id), follows: r.follows.remove(id) }
    } else {
        r
    }
}

/// The registry after session `id` starts to follow `key`, and nothing else.
pub open spec fn after_subscribe<A>(r: Registry<A>, id: usize, key: SubscribeKey) -> Registry<A> {
    Registry { sessions: r.sessions, follows: r.follows.insert(id, key) }
}

/// Keeps the websocket sessions and the sides they follow.
pub struct NotifyServer<A> {
    sessions: HashMap<usize, A>,
    follows: HashMap<usize, SubscribeKey>,
    rng: ThreadRng,
}

impl<A> NotifyServer<A> {
    /// The state of the registry.
    pub closed spec fn registry(&self) -> Registry<A> {
        Registry { sessions: self.sessions@, follows: self.follows@ }
    }

    /// An empty registry.
    pub fn new() -> (s: NotifyServer<A>)
        ensures
            s.registry().sessions == Map::<usize, A>::empty(),
            s.registry().follows == Map::<usize, SubscribeKey>::empty(),
    {
        NotifyServer { sessions: HashMap::new(), follows: HashMap::new(), rng: thread_rng() }
    }

    /// Registers a session with address `addr` under an id that no
    /// registered session has, and returns the id. The id is drawn at random;
    /// when that one is taken, the smallest free id is used instead.
    pub fn connect(&mut self, addr: A) -> (id: usize)
        ensures
            !old(self).registry().sessions.contains_key(id),
            final(self).registry() == after_connect(old(self).registry(), id, addr),
    {
        let mut id = random_id(&mut self.rng);
        if self.sessions.contains_key(&id) {
            let count = self.sessions.len();
            let ghost dom = self.sessions@.dom();
            assert(dom.finite());
            assert(count == dom.len());
            let ghost mut taken: Set<usize> = Set::empty();
            id = 0;
            while self.sessions.contains_key(&id)
                invariant
                    dom == self.sessions@.dom(),
                    dom.finite(),
                    count == dom.len(),
                    taken.finite(),
                    taken.len() == id,
                    taken.subset_of(dom),
                    forall|x: usize| #[trigger] taken.contains(x) ==> x < id,
                decreases count - id,
            {
                proof {
                    let grown = taken.insert(id);
                    assert(grown.subset_of(dom));
                    lemma_len_subset(grown, dom);
                }
                proof {
                    taken = taken.insert(id);
                }
                id = id + 1;
            }
        }
        self.sessions.insert(id, addr);
        id
    }

    /// Forgets the session of `msg`, and what it followed, if it is
    /// registered.
    pub fn disconnect(&mut self, msg: DisconnectMessage)
        ensures
            final(self).registry() == after_disconnect(old(self).registry(), msg.id),
    {
        let ghost before = self.registry();
        if self.sessions.remove(&msg.id).is_some() {
            self.follows.remove(&msg.id);
            assert(self.sessions@ == before.sessions.remove(msg.id));
            assert(self.follows@ == before.follows.remove(msg.id));
            assert(self.registry() =~= after_disconnect(before, msg.id));
        } else {
            assert(!before.sessions.contains_key(msg.id));
        }
    }

    /// Makes the session of `msg` follow the game side of `msg`, in place of
    /// anything it followed before.
    pub fn subscribe(&mut self, msg: SubscribeMessage)
        ensures
            final(self).registry() == after_subscribe(
                old(self).registry(),
                msg.id,
                SubscribeKey { game_id: msg.game_id, side: msg.side },
            ),
    {
        self.follows.insert(msg.id, SubscribeKey { game_id: msg.game_id, side: msg.side });
    }

    /// The address of session `id`, if it is registered.
    pub fn session(&self, id: usize) -> (r: Option<&A>)
        ensures
            match r {
                Some(a) => self.registry().sessions.contains_key(id) && *a == self.registry().sessions[id],
                None => !self.registry().sessions.contains_key(id),
            },
    {
        self.sessions.get(&id)
    }

    /// The ids of the sessions that a notification for `key` reaches, each
    /// once.
    pub fn recipients(&self, key: &SubscribeKey) -> (ids: Vec<usize>)
        ensures
            ids@.no_duplicates(),
            ids@.to_set() == audience(self.registry(), *key),
    {
        let mut ids: Vec<usize> = Vec::new();
        let ghost m = self.follows@;
        let entries = self.follows.iter();
        let ghost s = entries.remaining();
        assert(s.no_duplicates());
        assert(s == spec_hash_map_iter(&self.follows).remaining());
        // the ids of the entries are distinct too
        assert forall|a: int, b: int| 0 <= a < s.len() && 0 <= b < s.len() && a != b implies *s[a].0 != *s[b].0 by {
            if *s[a].0 == *s[b].0 {
                assert(m.contains_key(*s[a].0) && m[*s[a].0] == *s[a].1);
                assert(m.contains_key(*s[b].0) && m[*s[b].0] == *s[b].1);
            }
        }
        assert(forall|i: int| 0 <= i < s.len() ==> m.contains_key(*#[trigger] s[i].0) && m[*s[i].0] == *s[i].1);
        let ghost mut seen: int = 0;
        for pair in it: entries
            invariant
                m == self.follows@,
                s == it.seq(),
                seen == it.index(),
                forall|a: int, b: int| 0 <= a < s.len() && 0 <= b < s.len() && a != b ==> *s[a].0 != *s[b].0,
                forall|i: int| 0 <= i < s.len() ==> m.contains_key(*#[trigger] s[i].0) && m[*s[i].0] == *s[i].1,
                ids@.no_duplicates(),
                forall|x: usize| #[trigger] ids@.contains(x) ==> exists|j: int|
                    0 <= j < seen && *s[j].0 == x,
                forall|x: usize| #[trigger] ids@.contains(x) ==> audience(self.registry(), *key).contains(x),
                forall|j: int|
                    0 <= j < seen && audience(self.registry(), *key).contains(*s[j].0)
                        ==> ids@.contains(*#[trigger] s[j].0),
        {
            let (id, k) = pair;
            let ghost ids_before = ids@;
            assert(pair == s[seen]);
            let take = *k == *key && self.sessions.contains_key(id);
            assert(take <==> audience(self.registry(), *key).contains(*id));
            if take {
                proof {
                    assert(!ids@.contains(*id)) by {
                        if ids@.contains(*id) {
                            let j = choose|j: int| 0 <= j < seen && *s[j].0 == *id;
                        }
                    }
                }
                ids.push(*id);
            }
            let ghost pushed_id = *id;
            proof {
                let old_seen = seen;
                seen = seen + 1;
                assert forall|x: usize| #[trigger] ids@.contains(x) implies exists|j: int|
                    0 <= j < seen && *s[j].0 == x && audience(self.registry(), *key).contains(x) by {
                    if x == pushed_id && !ids_before.contains(x) {
                        assert(*s[old_seen].0 == x);
                    } else {
                        assert(ids_before.contains(x));
                        let j = choose|j: int| 0 <= j < old_seen && *s[j].0 == x;
                        assert(*s[j].0 == x);
                    }
                }
                if take {
                    assert(ids@ == ids_before.push(pushed_id));
                    assert(ids@[ids_before.len() as int] == pushed_id);
                    assert(ids@.contains(pushed_id));
                }
                assert(*s[old_seen].0 == pushed_id);
                assert(audience(self.registry(), *key).contains(pushed_id) ==> ids@.contains(pushed_id));
                assert forall|j: int|
                    0 <= j < seen && audience(self.registry(), *key).contains(*s[j].0)
                        implies ids@.contains(*#[trigger] s[j].0) by {
                    if j < old_seen {
                        let x = *s[j].0;
                        assert(ids_before.contains(x));
                        let q = choose|q: int| 0 <= q < ids_before.len() && ids_before[q] == x;
                        assert(ids@[q] == x);
                    }
                }
            }
        }
        proof {
            assert forall|x: usize| audience(self.registry(), *key).contains(x) implies #[trigger] ids@.to_set().contains(x) by {
                assert(m.contains_key(x));
                assert(s.contains((&x, &m[x])));
                let j = choose|j: int| 0 <= j < s.len() && s[j] == (&x, &m[x]);
                assert(ids@.contains(*s[j].0));
            }
            assert(ids@.to_set() =~= audience(self.registry(), *key));
        }
        ids
    }
}

impl<A> Default for NotifyServer<A> {
    /// An empty registry.
    fn default() -> (s: NotifyServer<A>)
        ensures
            s.registry().sessions == Map::<usize, A>::empty(),
            s.registry().follows == Map::<usize, SubscribeKey>::empty(),
    {
        NotifyServer::new()
    }
}

/// A session hears the notifications of at most one game side.
pub proof fn one_side_per_session<A>(r: Registry<A>, id: usize, k1: SubscribeKey, k2: SubscribeKey)
    requires
        audience(r, k1).contains(id),
        audience(r, k2).contains(id),
    ensures
        k1 == k2,
{
}

/// A registered session that subscribes to a side hears that side, and no
/// longer hears any other.
pub proof fn subscribe_switches_side<A>(r: Registry<A>, id: usize, key: SubscribeKey, other: SubscribeKey)
    requires
        r.sessions.contains_key(id),
        other != key,
    ensures
        audience(after_subscribe(r, id, key), key).contains(id),
        !audience(after_subscribe(r, id, key), other).contains(id),
{
}

/// Subscribing one session changes what no other session hears.
pub proof fn subscribe_keeps_others<A>(r: Registry<A>, id: usize, key: SubscribeKey, x: usize, k: SubscribeKey)
    requires
        x != id,
    ensures
        audience(after_subscribe(r, id, key), k).contains(x) == audience(r, k).contains(x),
{
}

/// A session that has gone hears nothing, whatever it followed.
pub proof fn disconnect_silences<A>(r: Registry<A>, id: usize, k: SubscribeKey)
    ensures
        !audience(after_disconnect(r, id), k).contains(id),
{
}

/// Going away does not change what the other sessions hear.
pub proof fn disconnect_keeps_others<A>(r: Registry<A>, id: usize, x: usize, k: SubscribeKey)
    requires
        x != id,
    ensures
        audience(after_disconnect(r, id), k).contains(x) == audience(r, k).contains(x),
{
}

/// A session that registers and then subscribes to a side hears that side.
pub proof fn connect_then_subscribe_hears<A>(r: Registry<A>, id: usize, addr: A, key: SubscribeKey)
    ensures
        audience(after_subscribe(after_connect(r, id, addr), id, key), key).contains(id),
{
}

/// A change of the registry, as the server's messages make it.
pub enum Event<A> {
    /// A session registers under the id with the address.
    Connect(usize, A),
    /// The session with the id goes.
    Disconnect(usize),
    /// The session with the id follows the game side.
    Subscribe(usize, SubscribeKey),
}

/// The registry after one event.
pub open spec fn after_event<A>(r: Registry<A>, e: Event<A>) -> Registry<A> {
    match e {
        Event::Connect(id, addr) => after_connect(r, id, addr),
        Event::Disconnect(id) => after_disconnect(r, id),
        Event::Subscribe(id, key) => after_subscribe(r, id, key),
    }
}

/// The registry after the events, in order.
pub open spec fn after_events<A>(r: Registry<A>, events: Seq<Event<A>>) -> Registry<A>
    decreases events.len(),
{
    if events.len() == 0 {
        r
    } else {
        after_event(after_events(r, events.drop_last()), events.last())
    }
}

/// The event is about the session `id`.
pub open spec fn concerns<A>(e: Event<A>, id: usize) -> bool {
    match e {
        Event::Connect(x, _) => x == id,
        Event::Disconnect(x) => x == id,
        Event::Subscribe(x, _) => x == id,
    }
}

/// A session that hears a game side keeps hearing it, at the same address,
/// whatever other sessions do in between.
pub proof fn others_do_not_silence<A>(r: Registry<A>, events: Seq<Event<A>>, id: usize, key: SubscribeKey)
    requires
        audience(r, key).contains(id),
        forall|k: int| 0 <= k < events.len() ==> !concerns(#[trigger] events[k], id),
    ensures
        audience(after_events(r, events), key).contains(id),
        after_events(r, events).sessions[id] == r.sessions[id],
    decreases events.len(),
{
    if events.len() > 0 {
        let rest = events.drop_last();
        assert forall|k: int| 0 <= k < rest.len() implies !concerns(#[trigger] rest[k], id) by {
            assert(rest[k] == events[k]);
        }
        others_do_not_silence(r, rest, id, key);
        assert(!concerns(events[events.len() - 1], id));
    }
}

/// A session that is not registered hears nothing until it registers again,
/// whatever else happens, its own subscriptions included.
pub proof fn gone_until_connected<A>(r: Registry<A>, events: Seq<Event<A>>, id: usize, key: SubscribeKey)
    requires
        !r.sessions.contains_key(id),
        forall|k: int| 0 <= k < events.len() ==> !(#[trigger] events[k] matches Event::Connect(x, _) && x == id),
    ensures
        !after_events(r, events).sessions.contains_key(id),
        !audience(after_events(r, events), key).contains(id),
    decreases events.len(),
{
    if events.len() > 0 {
        let rest = events.drop_last();
        assert forall|k: int| 0 <= k < rest.len() implies !(#[trigger] rest[k] matches Event::Connect(x, _) && x == id) by {
            assert(rest[k] == events[k]);
        }
        gone_until_connected(r, rest, id, key);
        assert(!(events[events.len() - 1] matches Event::Connect(x, _) && x == id));
    }
}

/// A session that registers and subscribes to a side hears that side at its
/// address, whatever other sessions do afterwards.
pub proof fn connect_subscribe_then_hears<A>(
    r: Registry<A>,
    id: usize,
    addr: A,
    key: SubscribeKey,
    events: Seq<Event<A>>,
)
    requires
        forall|k: int| 0 <= k < events.len() ==> !concerns(#[trigger] events[k], id),
    ensures
        audience(after_events(after_subscribe(after_connect(r, id, addr), id, key), events), key).contains(id),
        after_events(after_subscribe(after_connect(r, id, addr), id, key), events).sessions[id] == addr,
{
    others_do_not_silence(after_subscribe(after_connect(r, id, addr), id, key), events, id, key);
}

} // verus!
