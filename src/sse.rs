//! The room bus: named rooms, each an append-only log of messages with a
//! subscriber gauge and a counter that issues unique indices.
use vstd::prelude::*;

use crate::text::{parse_u16, parsed_u16};

verus! {

/// What a room holds: its log, its subscriber gauge and the next index it issues.
pub struct RoomView {
    pub log: Seq<Seq<char>>,
    pub subscribers: u16,
    pub next_idx: u16,
}

/// `x + 1` in 16 bits, wrapping at the top.
pub open spec fn wrapping_inc(x: u16) -> u16 {
    if x == u16::MAX { 0 } else { (x + 1) as u16 }
}

/// `x - 1` in 16 bits, wrapping at the bottom.
pub open spec fn wrapping_dec(x: u16) -> u16 {
    if x == 0 { u16::MAX } else { (x - 1) as u16 }
}

/// The first event that a subscriber receives, given the last one it saw.
pub open spec fn start_event(last_seen_msg: Option<u16>) -> nat {
    match last_seen_msg {
        Some(i) => i as nat + 1,
        None => 0,
    }
}

/// The `count` events that a subscriber starting at `start` receives from `log`:
/// each event is its message id and the message at that id.
pub open spec fn event_stream(log: Seq<Seq<char>>, start: nat, count: nat) -> Seq<(nat, Seq<char>)> {
    Seq::new(count, |k: int| ((start + k) as nat, log[start + k]))
}

fn inc_u16(x: u16) -> (r: u16)
    ensures
        r == wrapping_inc(x),
{
    if x == u16::MAX { 0 } else { x + 1 }
}

fn dec_u16(x: u16) -> (r: u16)
    ensures
        r == wrapping_dec(x),
{
    if x == 0 { u16::MAX } else { x - 1 }
}

/// One room of the bus.
pub struct Room {
    messages: Vec<String>,
    subscribers: u16,
    next_idx: u16,
}

impl View for Room {
    type V = RoomView;

    closed spec fn view(&self) -> RoomView {
        RoomView {
            log: self.messages@.map_values(|m: String| m@),
            subscribers: self.subscribers,
            next_idx: self.next_idx,
        }
    }
}

impl Room {
    /// A room with no messages, no subscribers, that issues 0 next.
    pub fn empty() -> (r: Room)
        ensures
            r@.log == Seq::<Seq<char>>::empty(),
            r@.subscribers == 0,
            r@.next_idx == 0,
    {
        let r = Room { messages: Vec::new(), subscribers: 0, next_idx: 0 };
        assert(r@.log =~= Seq::<Seq<char>>::empty());
        r
    }

    /// Appends `message` to the log; returns its id.
    pub fn publish(&mut self, message: String) -> (id: usize)
        ensures
            id == old(self)@.log.len(),
            final(self)@.log == old(self)@.log.push(message@),
            final(self)@.subscribers == old(self)@.subscribers,
            final(self)@.next_idx == old(self)@.next_idx,
    {
        let id = self.messages.len();
        let ghost m = message@;
        self.messages.push(message);
        assert(self@.log =~= old(self)@.log.push(m));
        id
    }

    /// Opens a subscription that starts after `last_seen_msg`, or at the first
    /// message when none was seen.
    pub fn subscribe(&mut self, last_seen_msg: Option<u16>) -> (sub: Subscription)
        ensures
            sub@ == start_event(last_seen_msg),
            final(self)@.subscribers == wrapping_inc(old(self)@.subscribers),
            final(self)@.log == old(self)@.log,
            final(self)@.next_idx == old(self)@.next_idx,
    {
        self.subscribers = inc_u16(self.subscribers);
        let next_event: usize = match last_seen_msg {
            Some(i) => i as usize + 1,
            None => 0,
        };
        Subscription { next_event }
    }

    /// Closes a subscription: the gauge goes down by one.
    pub fn unsubscribe(&mut self, sub: Subscription)
        ensures
            final(self)@.subscribers == wrapping_dec(old(self)@.subscribers),
            final(self)@.log == old(self)@.log,
            final(self)@.next_idx == old(self)@.next_idx,
    {
        self.subscribers = dec_u16(self.subscribers);
    }

    /// Issues the next index of the room's counter.
    pub fn issue_unique_idx(&mut self) -> (idx: u16)
        ensures
            idx == old(self)@.next_idx,
            final(self)@.next_idx == wrapping_inc(old(self)@.next_idx),
            final(self)@.log == old(self)@.log,
            final(self)@.subscribers == old(self)@.subscribers,
    {
        let idx = self.next_idx;
        self.next_idx = inc_u16(self.next_idx);
        idx
    }

    pub fn message_count(&self) -> (n: usize)
        ensures
            n == self@.log.len(),
    {
        self.messages.len()
    }

    pub fn subscriber_count(&self) -> (n: u16)
        ensures
            n == self@.subscribers,
    {
        self.subscribers
    }
}

/// A subscriber's position in a room's log: the id of the next event it receives.
pub struct Subscription {
    next_event: usize,
}

impl View for Subscription {
    type V = nat;

    closed spec fn view(&self) -> nat {
        self.next_event as nat
    }
}

impl Subscription {
    /// Delivers the next event from `room`, or nothing while the log holds no
    /// message at the subscriber's position.
    pub fn next(&mut self, room: &Room) -> (r: Option<(usize, String)>)
        ensures
            old(self)@ < room@.log.len() ==> {
                &&& r matches Some((id, msg))
                &&& id == old(self)@
                &&& msg@ == room@.log[id as int]
                &&& final(self)@ == old(self)@ + 1
            },
            old(self)@ >= room@.log.len() ==> r is None && final(self)@ == old(self)@,
    {
        if self.next_event < room.messages.len() {
            let id = self.next_event;
            let msg = room.messages[id].clone();
            self.next_event = id + 1;
            Some((id, msg))
        } else {
            None
        }
    }

    pub fn next_event(&self) -> (n: usize)
        ensures
            n == self@,
    {
        self.next_event
    }
}

/// Two subscribers of one room see one order: where both have received the events
/// with ids `i` and `j`, they received the same payloads, in the same order.
pub proof fn lemma_subscribers_agree(
    log: Seq<Seq<char>>,
    start_a: nat,
    count_a: nat,
    start_b: nat,
    count_b: nat,
    i: nat,
    j: nat,
)
    requires
        start_a + count_a <= log.len(),
        start_b + count_b <= log.len(),
        start_a <= i < start_a + count_a,
        start_a <= j < start_a + count_a,
        start_b <= i < start_b + count_b,
        start_b <= j < start_b + count_b,
    ensures
        ({
            let a = event_stream(log, start_a, count_a);
            let b = event_stream(log, start_b, count_b);
            let (ai, aj) = ((i - start_a) as int, (j - start_a) as int);
            let (bi, bj) = ((i - start_b) as int, (j - start_b) as int);
            &&& a[ai] == b[bi]
            &&& a[aj] == b[bj]
            &&& a[ai].1 == log[i as int]
            &&& a[aj].1 == log[j as int]
            &&& (ai < aj <==> bi < bj)
        }),
{
}

/// A subscriber that reconnects after event `k` is first handed event `k + 1`,
/// and only once the log holds it.
pub proof fn lemma_reconnect_resumes(log: Seq<Seq<char>>, k: u16, count: nat)
    requires
        count >= 1,
        start_event(Some(k)) + count <= log.len(),
    ensures
        event_stream(log, start_event(Some(k)), count)[0] == (k as nat + 1, log[k as int + 1]),
{
}

/// The registry of rooms, keyed by room id.
pub struct Db {
    ids: Vec<String>,
    rooms: Vec<Room>,
}

impl Db {
    pub closed spec fn room_ids(&self) -> Seq<Seq<char>> {
        self.ids@.map_values(|s: String| s@)
    }

    /// One room per id.
    pub closed spec fn wf(&self) -> bool {
        &&& self.ids.len() == self.rooms.len()
        &&& self.room_ids().no_duplicates()
    }

    pub closed spec fn has_room(&self, id: Seq<char>) -> bool {
        self.room_ids().contains(id)
    }

    /// The room named `id`.
    pub closed spec fn room(&self, id: Seq<char>) -> RoomView
        recommends
            self.has_room(id),
    {
        self.rooms@[self.room_ids().index_of(id)]@
    }

    proof fn lemma_room_at(&self, i: int)
        requires
            self.wf(),
            0 <= i < self.ids.len(),
        ensures
            self.has_room(self.room_ids()[i]),
            self.room(self.room_ids()[i]) == self.rooms@[i]@,
    {
        let k = self.room_ids()[i];
        assert(self.room_ids().contains(k));
        let j = self.room_ids().index_of(k);
        assert(self.room_ids()[j] == k);
    }

    pub fn empty() -> (db: Db)
        ensures
            db.wf(),
            forall|id: Seq<char>| !db.has_room(id),
    {
        let db = Db { ids: Vec::new(), rooms: Vec::new() };
        assert(db.room_ids() =~= Seq::<Seq<char>>::empty());
        db
    }

    fn find(&self, key: &String) -> (r: Option<usize>)
        requires
            self.wf(),
        ensures
            r matches Some(i) ==> i < self.ids.len() && self.room_ids()[i as int] == key@,
            r is None ==> !self.has_room(key@),
    {
        let mut i: usize = 0;
        while i < self.ids.len()
            invariant
                self.wf(),
                i <= self.ids.len(),
                forall|j: int| 0 <= j < i ==> self.room_ids()[j] != key@,
            decreases self.ids.len() - i,
        {
            if self.ids[i] == *key {
                return Some(i);
            }
            i = i + 1;
        }
        None
    }

    /// The position of the room named `room_id`, which is created, empty, if the
    /// registry has none of that name.
    pub fn get_room_or_create_for_index(&mut self, room_id: &str) -> (i: usize)
        requires
            old(self).wf(),
        ensures
            final(self).wf(),
            i < final(self).room_ids().len(),
            final(self).room_ids()[i as int] == room_id@,
            i as int == final(self).room_ids().index_of(room_id@),
            old(self).has_room(room_id@) ==> i as int == old(self).room_ids().index_of(room_id@),
            final(self).has_room(room_id@),
            old(self).has_room(room_id@) ==> *final(self) == *old(self),
            !old(self).has_room(room_id@) ==> {
                &&& final(self).room(room_id@).log == Seq::<Seq<char>>::empty()
                &&& final(self).room(room_id@).subscribers == 0
                &&& final(self).room(room_id@).next_idx == 0
            },
            forall|k: Seq<char>| #[trigger] old(self).has_room(k) ==> final(self).has_room(k)
                && final(self).room(k) == old(self).room(k),
            forall|k: Seq<char>| #[trigger] final(self).has_room(k) ==> old(self).has_room(k)
                || k == room_id@,
    {
        let key = room_id.to_owned();
        match self.find(&key) {
            Some(i) => {
                proof {
                    self.lemma_room_at(i as int);
                    let j = self.room_ids().index_of(room_id@);
                    assert(self.room_ids()[j] == room_id@);
                }
                i
            },
            None => {
                let i = self.ids.len();
                let ghost old_ids = self.room_ids();
                self.ids.push(key);
                self.rooms.push(Room::empty());
                assert(self.room_ids() =~= old_ids.push(room_id@));
                assert(self.room_ids().no_duplicates());
                proof {
                    self.lemma_room_at(i as int);
                    let j = self.room_ids().index_of(room_id@);
                    assert(self.room_ids()[j] == room_id@);
                    assert forall|k: Seq<char>| #[trigger] old(self).has_room(k) implies self.has_room(
                        k,
                    ) && self.room(k) == old(self).room(k) by {
                        let j = old_ids.index_of(k);
                        assert(old_ids[j] == k);
                        assert(self.room_ids()[j] == k);
                        self.lemma_room_at(j);
                        old(self).lemma_room_at(j);
                    }
                    assert forall|k: Seq<char>| #[trigger] self.has_room(k) implies old(self).has_room(
                        k,
                    ) || k == room_id@ by {
                        let j = self.room_ids().index_of(k);
                        if j < old_ids.len() {
                            assert(old_ids[j] == k);
                        }
                    }
                }
                i
            },
        }
    }
}

impl Db {
    /// The room named `id`, or the empty room that a first reference to `id` creates.
    pub open spec fn room_or_empty(&self, id: Seq<char>) -> RoomView {
        if self.has_room(id) {
            self.room(id)
        } else {
            RoomView { log: Seq::empty(), subscribers: 0, next_idx: 0 }
        }
    }

    fn take_room(&mut self, i: usize) -> (room: Room)
        requires
            old(self).wf(),
            i < old(self).room_ids().len(),
        ensures
            room@ == old(self).room(old(self).room_ids()[i as int]),
            final(self).ids == old(self).ids,
            final(self).rooms@ == old(self).rooms@.remove(i as int),
    {
        proof {
            self.lemma_room_at(i as int);
        }
        self.rooms.remove(i)
    }

    fn put_room(&mut self, i: usize, room: Room)
        requires
            old(self).ids.len() == old(self).rooms.len() + 1,
            old(self).room_ids().no_duplicates(),
            i <= old(self).rooms.len(),
        ensures
            final(self).wf(),
            final(self).ids == old(self).ids,
            final(self).rooms@ == old(self).rooms@.insert(i as int, room),
    {
        self.rooms.insert(i, room);
    }

    proof fn lemma_replaced(old_db: &Db, new_db: &Db, i: int, id: Seq<char>)
        requires
            old_db.wf(),
            new_db.wf(),
            0 <= i < old_db.room_ids().len(),
            old_db.room_ids()[i] == id,
            new_db.ids == old_db.ids,
            forall|j: int| 0 <= j < old_db.rooms.len() && j != i ==> new_db.rooms@[j] == old_db.rooms@[j],
        ensures
            new_db.has_room(id),
            new_db.room(id) == new_db.rooms@[i]@,
            forall|k: Seq<char>| k != id ==> #[trigger] new_db.room_or_empty(k) == old_db.room_or_empty(k),
    {
        new_db.lemma_room_at(i);
        assert forall|k: Seq<char>| k != id implies #[trigger] new_db.room_or_empty(k) == old_db.room_or_empty(k) by {
            if old_db.has_room(k) {
                let j = old_db.room_ids().index_of(k);
                assert(old_db.room_ids()[j] == k);
                assert(new_db.room_ids()[j] == k);
                old_db.lemma_room_at(j);
                new_db.lemma_room_at(j);
            }
        }
    }

    /// Appends `message` to the log of room `room_id`; returns its id.
    pub fn broadcast(&mut self, room_id: &str, message: String) -> (id: usize)
        requires
            old(self).wf(),
        ensures
            final(self).wf(),
            final(self).has_room(room_id@),
            id == old(self).room_or_empty(room_id@).log.len(),
            final(self).room(room_id@) == (RoomView {
                log: old(self).room_or_empty(room_id@).log.push(message@),
                ..old(self).room_or_empty(room_id@)
            }),
            forall|k: Seq<char>| k != room_id@ ==> #[trigger] final(self).room_or_empty(k)
                == old(self).room_or_empty(k),
    {
        let ghost m = message@;
        let i = self.get_room_or_create_for_index(room_id);
        let ghost mid = *self;
        let mut room = self.take_room(i);
        let id = room.publish(message);
        self.put_room(i, room);
        proof {
            Db::lemma_replaced(&mid, self, i as int, room_id@);
        }
        id
    }

    /// Opens a subscription to room `room_id` that starts after `last_seen_msg`.
    pub fn subscribe(&mut self, room_id: &str, last_seen_msg: Option<u16>) -> (sub: Subscription)
        requires
            old(self).wf(),
        ensures
            final(self).wf(),
            final(self).has_room(room_id@),
            sub@ == start_event(last_seen_msg),
            final(self).room(room_id@) == (RoomView {
                subscribers: wrapping_inc(old(self).room_or_empty(room_id@).subscribers),
                ..old(self).room_or_empty(room_id@)
            }),
            forall|k: Seq<char>| k != room_id@ ==> #[trigger] final(self).room_or_empty(k)
                == old(self).room_or_empty(k),
    {
        let i = self.get_room_or_create_for_index(room_id);
        let ghost mid = *self;
        let mut room = self.take_room(i);
        let sub = room.subscribe(last_seen_msg);
        self.put_room(i, room);
        proof {
            Db::lemma_replaced(&mid, self, i as int, room_id@);
        }
        sub
    }

    /// Closes a subscription to room `room_id`.
    pub fn unsubscribe(&mut self, room_id: &str, sub: Subscription)
        requires
            old(self).wf(),
        ensures
            final(self).wf(),
            final(self).has_room(room_id@),
            final(self).room(room_id@) == (RoomView {
                subscribers: wrapping_dec(old(self).room_or_empty(room_id@).subscribers),
                ..old(self).room_or_empty(room_id@)
            }),
            forall|k: Seq<char>| k != room_id@ ==> #[trigger] final(self).room_or_empty(k)
                == old(self).room_or_empty(k),
    {
        let i = self.get_room_or_create_for_index(room_id);
        let ghost mid = *self;
        let mut room = self.take_room(i);
        room.unsubscribe(sub);
        self.put_room(i, room);
        proof {
            Db::lemma_replaced(&mid, self, i as int, room_id@);
        }
    }

    /// Issues the next unique index of room `room_id`.
    pub fn issue_unique_idx(&mut self, room_id: &str) -> (idx: u16)
        requires
            old(self).wf(),
        ensures
            final(self).wf(),
            final(self).has_room(room_id@),
            idx == old(self).room_or_empty(room_id@).next_idx,
            final(self).room(room_id@) == (RoomView {
                next_idx: wrapping_inc(old(self).room_or_empty(room_id@).next_idx),
                ..old(self).room_or_empty(room_id@)
            }),
            forall|k: Seq<char>| k != room_id@ ==> #[trigger] final(self).room_or_empty(k)
                == old(self).room_or_empty(k),
    {
        let i = self.get_room_or_create_for_index(room_id);
        let ghost mid = *self;
        let mut room = self.take_room(i);
        let idx = room.issue_unique_idx();
        self.put_room(i, room);
        proof {
            Db::lemma_replaced(&mid, self, i as int, room_id@);
        }
        idx
    }

    /// Delivers the next event of room `room_id` to `sub`, as `Subscription::next` does.
    pub fn next_event(&self, room_id: &str, sub: &mut Subscription) -> (r: Option<(usize, String)>)
        requires
            self.wf(),
        ensures
            old(sub)@ < self.room_or_empty(room_id@).log.len() ==> {
                &&& r matches Some((id, msg))
                &&& id == old(sub)@
                &&& msg@ == self.room_or_empty(room_id@).log[id as int]
                &&& final(sub)@ == old(sub)@ + 1
            },
            old(sub)@ >= self.room_or_empty(room_id@).log.len() ==> r is None && final(sub)@ == old(
                sub,
            )@,
    {
        let key = room_id.to_owned();
        match self.find(&key) {
            Some(i) => {
                proof {
                    self.lemma_room_at(i as int);
                }
                sub.next(&self.rooms[i])
            },
            None => None,
        }
    }
}

/// The answer to a request for a unique index.
pub struct IssuedUniqueIdx {
    pub unique_idx: u16,
}

/// The last event id that a reconnecting subscriber names in its
/// `Last-Event-ID` header; a value that is not a `u16` counts as none.
pub fn extract_last_event_id(header: Option<&str>) -> (r: Option<u16>)
    ensures
        r == match header {
            Some(h) => parsed_u16(h@),
            None => None,
        },
{
    match header {
        Some(h) => parse_u16(h),
        None => None,
    }
}

} // verus!

verus! {

/// Where the bus listens.
#[derive(Debug, Clone)]
pub struct SSEConfig {
    pub host: String,
    pub port: u16,
}

#[derive(Debug, Clone)]
pub struct AppConfig {
    pub sse: SSEConfig,
}

#[derive(Debug, Clone, PartialEq, Eq)]
pub enum ConfigError {
    InvalidEnvVar(String),
}

impl AppConfig {
    /// The bus configuration from the values of `SSE_HOST` and `SSE_PORT`, where
    /// set: the host defaults to `127.0.0.1` and the port to 8080; a port that is
    /// not a `u16` is an error.
    pub fn from_env_values(host: Option<String>, port: Option<String>) -> (r: Result<
        AppConfig,
        ConfigError,
    >)
        ensures
            match port {
                Some(p) => parsed_u16(p@) is None <==> r is Err,
                None => r is Ok,
            },
            r matches Ok(c) ==> {
                &&& c.sse.host@ == match host {
                    Some(h) => h@,
                    None => "127.0.0.1"@,
                }
                &&& c.sse.port == match port {
                    Some(p) => parsed_u16(p@)->Some_0,
                    None => 8080u16,
                }
            },
    {
        let host = match host {
            Some(h) => h,
            None => String::from_str("127.0.0.1"),
        };
        let port: u16 = match port {
            Some(p) => match parse_u16(p.as_str()) {
                Some(v) => v,
                None => {
                    return Err(
                        ConfigError::InvalidEnvVar(String::from_str("Expected SSE_PORT to be a number")),
                    );
                },
            },
            None => 8080,
        };
        Ok(AppConfig { sse: SSEConfig { host, port } })
    }
}

} // verus!
