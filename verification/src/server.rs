//! The server's table of connected clients and its decisions: which packets
//! a received update and a timeout sweep produce, and how the table changes.
//! Sockets, serialization and the clock loop stay with the caller.
use vstd::prelude::*;
use crate::network::{
    clock_ms, secs_between, timed_out_after, timed_out_at, ClientPacket, ConnectedClient, Outgoing, OutgoingView, PeerAddr,
    ServerPacket, ServerPacketView, TIMEOUT_SECONDS,
};
use crate::types::{player_data_of, PlayerData, PlayerState};

verus! {

/// A connected client together with the address its packets come from.
#[derive(Debug)]
pub struct ClientEntry {
    pub addr: PeerAddr,
    pub client: ConnectedClient,
}

/// Whether some client in `c` has address `a`.
pub open spec fn has_addr(c: Seq<ClientEntry>, a: PeerAddr) -> bool {
    exists|i: int| 0 <= i < c.len() && #[trigger] c[i].addr == a
}

/// No two clients share an address.
pub open spec fn addrs_distinct(c: Seq<ClientEntry>) -> bool {
    forall|i: int, j: int| 0 <= i < c.len() && 0 <= j < c.len() && i != j
        ==> #[trigger] c[i].addr != #[trigger] c[j].addr
}

/// No two clients share a player id.
pub open spec fn ids_distinct(c: Seq<ClientEntry>) -> bool {
    forall|i: int, j: int| 0 <= i < c.len() && 0 <= j < c.len() && i != j
        ==> #[trigger] c[i].client.player_id != #[trigger] c[j].client.player_id
}

/// Every client's state carries its own id, and every id is one the server
/// has handed out: at least 1 and below `next_id`.
pub open spec fn ids_assigned(c: Seq<ClientEntry>, next_id: u32) -> bool {
    forall|i: int| 0 <= i < c.len() ==> {
        &&& (#[trigger] c[i]).client.state.player_id == c[i].client.player_id
        &&& 1 <= c[i].client.player_id < next_id
    }
}

/// The world-state entries for a table: one per client, in table order.
pub open spec fn world_players(c: Seq<ClientEntry>) -> Seq<PlayerData> {
    c.map_values(|e: ClientEntry| player_data_of(e.client.state))
}

/// The state a client reports in an update packet.
pub open spec fn reported_state(p: ClientPacket) -> PlayerState {
    match p {
        ClientPacket::PlayerUpdate(s) => s,
    }
}

/// A world-state packet for every client of `c`, in table order.
pub open spec fn world_state_messages(c: Seq<ClientEntry>) -> Seq<OutgoingView> {
    c.map_values(
        |e: ClientEntry|
            OutgoingView {
                addr: e.addr,
                packet: ServerPacketView::WorldState { players: world_players(c) },
            },
    )
}

/// A player-left packet naming `player_id` for every client of `c`.
pub open spec fn player_left_messages(c: Seq<ClientEntry>, player_id: u32) -> Seq<OutgoingView> {
    c.map_values(
        |e: ClientEntry|
            OutgoingView { addr: e.addr, packet: ServerPacketView::PlayerLeft { player_id } },
    )
}

/// The views of a sequence of outgoing packets.
pub open spec fn views_of(out: Seq<Outgoing>) -> Seq<OutgoingView> {
    out.map_values(|o: Outgoing| o@)
}

/// `e` is the record of a client that joined from `addr` with id `id` and
/// reported state `s`.
pub open spec fn joined_entry(e: ClientEntry, addr: PeerAddr, id: u32, s: PlayerState) -> bool {
    &&& e.addr == addr
    &&& e.client.player_id == id
    &&& e.client.state == PlayerState {
        player_id: id,
        position: s.position,
        rotation_yaw: s.rotation_yaw,
    }
}

/// `new` is `old` after a join from the new address `addr` with id `id`
/// and state `s`: the new record is appended after the existing ones.
pub open spec fn after_join(
    old: Seq<ClientEntry>,
    new: Seq<ClientEntry>,
    addr: PeerAddr,
    id: u32,
    s: PlayerState,
) -> bool {
    &&& !has_addr(old, addr)
    &&& new.len() == old.len() + 1
    &&& new.take(old.len() as int) == old
    &&& joined_entry(new.last(), addr, id, s)
}

/// `new` is `old` after the client at `addr`, if any, reported state `s`:
/// that client keeps its address and id and takes the reported position and
/// yaw; every other record is unchanged.
pub open spec fn after_update(
    old: Seq<ClientEntry>,
    new: Seq<ClientEntry>,
    addr: PeerAddr,
    s: PlayerState,
) -> bool {
    &&& new.len() == old.len()
    &&& forall|i: int|
        0 <= i < old.len() ==> if old[i].addr == addr {
            &&& (#[trigger] new[i]).addr == addr
            &&& new[i].client.player_id == old[i].client.player_id
            &&& new[i].client.state == PlayerState {
                player_id: old[i].client.state.player_id,
                position: s.position,
                rotation_yaw: s.rotation_yaw,
            }
        } else {
            new[i] == old[i]
        }
}

/// The table and next id after a packet from `src` reporting state `s`: a
/// new address joins with the next id; a known address only moves its
/// client.
pub open spec fn after_packet(
    old: Seq<ClientEntry>,
    new: Seq<ClientEntry>,
    old_next: u32,
    new_next: u32,
    src: PeerAddr,
    s: PlayerState,
) -> bool {
    if has_addr(old, src) {
        &&& new_next == old_next
        &&& after_update(old, new, src, s)
    } else {
        &&& new_next == old_next + 1
        &&& after_join(old, new, src, old_next, s)
    }
}

/// The client with address `src` in `c` was last seen at `now`.
pub open spec fn seen_at(c: Seq<ClientEntry>, src: PeerAddr, now: u64) -> bool {
    forall|i: int| 0 <= i < c.len() && c[i].addr == src ==> (#[trigger] c[i]).client.last_seen == now
}

/// What a packet from `src` is answered with: a welcome with the id
/// `next_id` when the address is new to the table `c`, nothing otherwise.
pub open spec fn welcome_for(c: Seq<ClientEntry>, src: PeerAddr, next_id: u32) -> Seq<OutgoingView> {
    if has_addr(c, src) {
        Seq::empty()
    } else {
        seq![
            OutgoingView {
                addr: src,
                packet: ServerPacketView::Welcome { assigned_player_id: next_id },
            },
        ]
    }
}

/// The addresses, in table order, of those among the first `n` clients of
/// `c` that have been silent for at least `TIMEOUT_SECONDS` whole seconds,
/// `secs[i]` being the seconds since client `i` was last seen.
pub open spec fn silent_addrs(c: Seq<ClientEntry>, secs: Seq<u64>, n: int) -> Seq<PeerAddr>
    decreases n,
{
    if n <= 0 {
        Seq::empty()
    } else {
        let rest = silent_addrs(c, secs, n - 1);
        if secs[n - 1] >= TIMEOUT_SECONDS {
            rest.push(c[n - 1].addr)
        } else {
            rest
        }
    }
}

/// The whole seconds since each client of `c` was last seen, read at the
/// timestamp `now_ms`.
pub open spec fn readings_at(c: Seq<ClientEntry>, now_ms: u64) -> Seq<u64> {
    Seq::new(c.len(), |i: int| secs_between(c[i].client.last_seen, now_ms))
}

/// The addresses of the clients of `c` that have timed out, in table order,
/// `secs[i]` being the seconds since client `i` was last seen.
pub open spec fn timed_out_in(c: Seq<ClientEntry>, secs: Seq<u64>) -> Seq<PeerAddr> {
    silent_addrs(c, secs, c.len() as int)
}

/// The position in `c` of the client whose address `silent_addrs` lists
/// `k`-th.
spec fn silent_index(c: Seq<ClientEntry>, secs: Seq<u64>, n: int, k: int) -> int
    decreases n,
{
    if n <= 0 {
        0
    } else if k < silent_addrs(c, secs, n - 1).len() {
        silent_index(c, secs, n - 1, k)
    } else {
        n - 1
    }
}

/// `silent_addrs` lists addresses of the first `n` clients, in increasing
/// table position.
proof fn lemma_silent_index(c: Seq<ClientEntry>, secs: Seq<u64>, n: int)
    requires
        0 <= n <= c.len(),
    ensures
        silent_addrs(c, secs, n).len() <= n,
        forall|k: int| 0 <= k < silent_addrs(c, secs, n).len() ==> {
            &&& 0 <= #[trigger] silent_index(c, secs, n, k) < n
            &&& silent_addrs(c, secs, n)[k] == c[silent_index(c, secs, n, k)].addr
            &&& secs[silent_index(c, secs, n, k)] >= TIMEOUT_SECONDS
        },
        forall|x: int, y: int| 0 <= x < y < silent_addrs(c, secs, n).len() ==>
            #[trigger] silent_index(c, secs, n, x) < #[trigger] silent_index(c, secs, n, y),
    decreases n,
{
    if n > 0 {
        lemma_silent_index(c, secs, n - 1);
        let rest = silent_addrs(c, secs, n - 1);
        let r = silent_addrs(c, secs, n);
        assert(r == if secs[n - 1] >= TIMEOUT_SECONDS { rest.push(c[n - 1].addr) } else { rest });
        assert forall|k: int| 0 <= k < r.len() implies {
            &&& 0 <= #[trigger] silent_index(c, secs, n, k) < n
            &&& r[k] == c[silent_index(c, secs, n, k)].addr
            &&& secs[silent_index(c, secs, n, k)] >= TIMEOUT_SECONDS
        } by {
            if k < rest.len() {
                assert(r[k] == rest[k]);
                assert(silent_index(c, secs, n, k) == silent_index(c, secs, n - 1, k));
            }
        }
        assert forall|x: int, y: int| 0 <= x < y < r.len() implies
            #[trigger] silent_index(c, secs, n, x) < #[trigger] silent_index(c, secs, n, y) by {
            assert(silent_index(c, secs, n, x) == silent_index(c, secs, n - 1, x));
            if y < rest.len() {
                assert(silent_index(c, secs, n, y) == silent_index(c, secs, n - 1, y));
            }
        }
    }
}

/// Every one of the first `n` clients whose reading is at least
/// `TIMEOUT_SECONDS` has its address listed by `silent_addrs`.
proof fn lemma_silent_contains(c: Seq<ClientEntry>, secs: Seq<u64>, n: int, i: int)
    requires
        0 <= i < n <= c.len(),
        secs[i] >= TIMEOUT_SECONDS,
    ensures
        silent_addrs(c, secs, n).contains(c[i].addr),
    decreases n,
{
    let rest = silent_addrs(c, secs, n - 1);
    let r = silent_addrs(c, secs, n);
    assert(r == if secs[n - 1] >= TIMEOUT_SECONDS { rest.push(c[n - 1].addr) } else { rest });
    if i == n - 1 {
        assert(r[r.len() - 1] == c[i].addr);
    } else {
        lemma_silent_contains(c, secs, n - 1, i);
        let k = choose|k: int| 0 <= k < rest.len() && rest[k] == c[i].addr;
        assert(r[k] == rest[k]);
    }
}

/// The position of the client with address `a` in `c`; meaningful when
/// `has_addr(c, a)`.
pub open spec fn index_of(c: Seq<ClientEntry>, a: PeerAddr) -> int {
    choose|i: int| 0 <= i < c.len() && c[i].addr == a
}

/// The table and the packets sent after removing, in order, the clients
/// whose addresses are listed in `gone`: each removal that finds a client
/// announces that client's id to the clients still connected. Addresses not
/// in the table change nothing.
pub open spec fn after_removals(c: Seq<ClientEntry>, gone: Seq<PeerAddr>) -> (Seq<ClientEntry>, Seq<OutgoingView>)
    decreases gone.len(),
{
    if gone.len() == 0 {
        (c, Seq::empty())
    } else {
        let (c1, m1) = after_removals(c, gone.drop_last());
        let a = gone.last();
        if has_addr(c1, a) {
            let i = index_of(c1, a);
            let c2 = c1.remove(i);
            (c2, m1 + player_left_messages(c2, c1[i].client.player_id))
        } else {
            (c1, m1)
        }
    }
}

/// In a table with distinct addresses, the client with address `a` is the
/// one at `i`.
proof fn lemma_index_of_unique(c: Seq<ClientEntry>, a: PeerAddr, i: int)
    requires
        addrs_distinct(c),
        0 <= i < c.len(),
        c[i].addr == a,
    ensures
        has_addr(c, a),
        index_of(c, a) == i,
{
    assert(has_addr(c, a));
    let j = index_of(c, a);
    assert(c[j].addr == a);
}

/// Removing a client keeps the table's invariant.
proof fn lemma_remove_keeps_invariant(c: Seq<ClientEntry>, next_id: u32, i: int)
    requires
        addrs_distinct(c),
        ids_distinct(c),
        ids_assigned(c, next_id),
        0 <= i < c.len(),
    ensures
        addrs_distinct(c.remove(i)),
        ids_distinct(c.remove(i)),
        ids_assigned(c.remove(i), next_id),
{
    let r = c.remove(i);
    assert forall|x: int| 0 <= x < r.len() implies #[trigger] r[x] == c[if x < i { x } else { x + 1 }] by {}
    assert forall|x: int, y: int| 0 <= x < r.len() && 0 <= y < r.len() && x != y implies
        #[trigger] r[x].addr != #[trigger] r[y].addr by {
        assert(r[x] == c[if x < i { x } else { x + 1 }]);
        assert(r[y] == c[if y < i { y } else { y + 1 }]);
    }
    assert forall|x: int, y: int| 0 <= x < r.len() && 0 <= y < r.len() && x != y implies
        #[trigger] r[x].client.player_id != #[trigger] r[y].client.player_id by {
        assert(r[x] == c[if x < i { x } else { x + 1 }]);
        assert(r[y] == c[if y < i { y } else { y + 1 }]);
    }
    assert forall|x: int| 0 <= x < r.len() implies {
        &&& (#[trigger] r[x]).client.state.player_id == r[x].client.player_id
        &&& 1 <= r[x].client.player_id < next_id
    } by {
        assert(r[x] == c[if x < i { x } else { x + 1 }]);
    }
}

/// The server's table of connected clients.
pub struct ServerState {
    entries: Vec<ClientEntry>,
    next_player_id: u32,
}

impl ServerState {
    /// The connected clients, in the order they joined.
    pub closed spec fn clients(&self) -> Seq<ClientEntry> {
        self.entries@
    }

    /// The id the next joining client will get.
    pub closed spec fn next_id(&self) -> u32 {
        self.next_player_id
    }

    /// The table's invariant: addresses and ids are unique, each state
    /// carries its client's id, and every id was handed out before.
    pub open spec fn wf(&self) -> bool {
        &&& addrs_distinct(self.clients())
        &&& ids_distinct(self.clients())
        &&& ids_assigned(self.clients(), self.next_id())
        &&& self.next_id() >= 1
    }

    /// An empty table; the first client will get id 1.
    pub fn new() -> (r: ServerState)
        ensures
            r.wf(),
            r.clients() == Seq::<ClientEntry>::empty(),
            r.next_id() == 1,
    {
        ServerState { entries: Vec::new(), next_player_id: 1 }
    }

    /// The number of connected clients.
    pub fn client_count(&self) -> (r: usize)
        ensures
            r == self.clients().len(),
    {
        self.entries.len()
    }

    /// The id the next joining client will get.
    pub fn next_player_id(&self) -> (r: u32)
        ensures
            r == self.next_id(),
    {
        self.next_player_id
    }

    /// The connected clients, in the order they joined.
    pub fn client_entries(&self) -> (r: &Vec<ClientEntry>)
        ensures
            r@ == self.clients(),
    {
        &self.entries
    }

    /// The position of the client with address `addr`, if there is one.
    fn find(&self, addr: PeerAddr) -> (r: Option<usize>)
        ensures
            match r {
                Some(i) => i < self.clients().len() && self.clients()[i as int].addr == addr,
                None => !has_addr(self.clients(), addr),
            },
    {
        let mut i: usize = 0;
        while i < self.entries.len()
            invariant
                i <= self.entries@.len(),
                forall|j: int| 0 <= j < i ==> self.entries@[j].addr != addr,
            decreases self.entries@.len() - i,
        {
            if self.entries[i].addr == addr {
                return Some(i);
            }
            i = i + 1;
        }
        None
    }

    /// The world-state entries: one per client, in table order.
    fn world_players(&self) -> (r: Vec<PlayerData>)
        ensures
            r@ == world_players(self.clients()),
    {
        let mut players: Vec<PlayerData> = Vec::new();
        let mut i: usize = 0;
        while i < self.entries.len()
            invariant
                i <= self.entries@.len(),
                players@ == world_players(self.entries@.take(i as int)),
            decreases self.entries@.len() - i,
        {
            let s = self.entries[i].client.state;
            players.push(PlayerData::from(s));
            proof {
                assert(self.entries@.take(i + 1) == self.entries@.take(i as int).push(
                    self.entries@[i as int],
                ));
            }
            i = i + 1;
        }
        proof {
            assert(self.entries@.take(self.entries@.len() as int) == self.entries@);
        }
        players
    }

    /// Handles an update packet received from `src`, as the server does on
    /// every packet it could decode, at the current time.
    ///
    /// The server tracks clients by source address. A packet from a new
    /// address is a join, whatever id it carries: the client gets the next
    /// id, is recorded with the reported position and yaw, and is sent a
    /// welcome. A packet from a known address moves that client and
    /// refreshes its last-seen time; it gets no new id and no welcome.
    pub fn handle_packet(&mut self, packet: ClientPacket, src: PeerAddr) -> (r: Vec<Outgoing>)
        requires
            old(self).wf(),
            !has_addr(old(self).clients(), src) ==> old(self).next_id() < u32::MAX,
        ensures
            final(self).wf(),
            after_packet(
                old(self).clients(),
                final(self).clients(),
                old(self).next_id(),
                final(self).next_id(),
                src,
                reported_state(packet),
            ),
            views_of(r@) == welcome_for(old(self).clients(), src, old(self).next_id()),
    {
        self.handle_packet_at(packet, src, clock_ms())
    }

    /// Handles an update packet received from `src` at time `now`, as
    /// `handle_packet` describes; the client that sent it is then recorded
    /// as last seen at `now`.
    pub fn handle_packet_at(&mut self, packet: ClientPacket, src: PeerAddr, now: u64) -> (r: Vec<Outgoing>)
        requires
            old(self).wf(),
            !has_addr(old(self).clients(), src) ==> old(self).next_id() < u32::MAX,
        ensures
            final(self).wf(),
            after_packet(
                old(self).clients(),
                final(self).clients(),
                old(self).next_id(),
                final(self).next_id(),
                src,
                reported_state(packet),
            ),
            seen_at(final(self).clients(), src, now),
            views_of(r@) == welcome_for(old(self).clients(), src, old(self).next_id()),
    {
        let state = match packet {
            ClientPacket::PlayerUpdate(s) => s,
        };
        let ghost old_entries = self.entries@;
        let mut out: Vec<Outgoing> = Vec::new();
        match self.find(src) {
            None => {
                let id = self.next_player_id;
                self.next_player_id = id + 1;
                let mut client = ConnectedClient::new_at(id, now);
                client.state.position = state.position;
                client.state.rotation_yaw = state.rotation_yaw;
                self.entries.push(ClientEntry { addr: src, client });
                proof {
                    assert(self.entries@.take(old_entries.len() as int) =~= old_entries);
                }
                out.push(Outgoing { addr: src, packet: ServerPacket::Welcome { assigned_player_id: id } });
                proof {
                    assert(views_of(out@) =~= welcome_for(old_entries, src, id));
                }
            },
            Some(i) => {
                self.entries[i].client.touch_at(now);
                self.entries[i].client.state.position = state.position;
                self.entries[i].client.state.rotation_yaw = state.rotation_yaw;
                proof {
                    assert(has_addr(old_entries, src));
                    assert(views_of(out@) =~= Seq::<OutgoingView>::empty());
                    assert forall|j: int| 0 <= j < self.entries@.len() && self.entries@[j].addr == src
                        implies (#[trigger] self.entries@[j]).client.last_seen == now by {
                        if j != i {
                            assert(old_entries[j].addr != old_entries[i as int].addr);
                        }
                    }
                }
            },
        }
        out
    }

    /// Removes, in order, the clients whose addresses are listed in `gone`,
    /// announcing each departure to the clients still connected.
    pub fn remove_clients(&mut self, gone: &Vec<PeerAddr>) -> (r: Vec<Outgoing>)
        requires
            old(self).wf(),
        ensures
            final(self).wf(),
            final(self).next_id() == old(self).next_id(),
            (final(self).clients(), views_of(r@)) == after_removals(old(self).clients(), gone@),
    {
        let ghost start = self.entries@;
        let mut out: Vec<Outgoing> = Vec::new();
        let mut k: usize = 0;
        proof {
            assert(gone@.take(0) =~= Seq::<PeerAddr>::empty());
            assert(views_of(out@) =~= Seq::<OutgoingView>::empty());
        }
        while k < gone.len()
            invariant
                k <= gone@.len(),
                self.wf(),
                self.next_id() == old(self).next_id(),
                start == old(self).clients(),
                (self.clients(), views_of(out@)) == after_removals(start, gone@.take(k as int)),
            decreases gone@.len() - k,
        {
            let a = gone[k];
            proof {
                assert(gone@.take(k + 1).drop_last() =~= gone@.take(k as int));
                assert(gone@.take(k + 1).last() == a);
            }
            match self.find(a) {
                Some(i) => {
                    proof {
                        lemma_index_of_unique(self.entries@, a, i as int);
                        lemma_remove_keeps_invariant(self.entries@, self.next_player_id, i as int);
                    }
                    let ghost before = self.entries@;
                    let removed = self.entries.remove(i);
                    let mut msgs = self.broadcast_player_left(removed.client.player_id);
                    let ghost prev_out = out@;
                    out.append(&mut msgs);
                    proof {
                        assert(self.entries@ == before.remove(i as int));
                        assert(views_of(out@) =~= views_of(prev_out) + player_left_messages(
                            self.entries@,
                            removed.client.player_id,
                        ));
                    }
                },
                None => {},
            }
            k = k + 1;
        }
        proof {
            assert(gone@.take(gone@.len() as int) =~= gone@);
        }
        out
    }

    /// The addresses of the clients that have timed out at `now_ms`, in
    /// table order: the seconds since each client was last seen are read at
    /// `now_ms`, and `addrs_to_drop` picks the addresses. Every address
    /// returned is a connected client's, and none is returned twice.
    pub fn timed_out_addrs_at(&self, now_ms: u64) -> (r: Vec<PeerAddr>)
        requires
            self.wf(),
        ensures
            r@ == timed_out_in(self.clients(), readings_at(self.clients(), now_ms)),
            r@.no_duplicates(),
            forall|k: int| 0 <= k < r@.len() ==> has_addr(self.clients(), #[trigger] r@[k]),
    {
        let mut secs: Vec<u64> = Vec::new();
        let mut i: usize = 0;
        while i < self.entries.len()
            invariant
                i <= self.entries@.len(),
                secs@ == readings_at(self.entries@, now_ms).take(i as int),
            decreases self.entries@.len() - i,
        {
            secs.push(self.entries[i].client.secs_since_seen_at(now_ms));
            proof {
                assert(readings_at(self.entries@, now_ms).take(i + 1) =~= readings_at(self.entries@, now_ms).take(
                    i as int,
                ).push(readings_at(self.entries@, now_ms)[i as int]));
            }
            i = i + 1;
        }
        proof {
            assert(secs@ =~= readings_at(self.entries@, now_ms));
        }
        let r = addrs_to_drop(&self.entries, &secs);
        proof {
            law_timed_out_addrs_are_clients(self.entries@, secs@);
        }
        r
    }

    /// The addresses of the clients that have timed out now, as
    /// `timed_out_addrs_at` picks them for the clock's current reading.
    pub fn timed_out_addrs(&self) -> (r: Vec<PeerAddr>)
        requires
            self.wf(),
        ensures
            exists|now_ms: u64| r@ == #[trigger] timed_out_in(self.clients(), readings_at(self.clients(), now_ms)),
            r@.no_duplicates(),
            forall|k: int| 0 <= k < r@.len() ==> has_addr(self.clients(), #[trigger] r@[k]),
    {
        let now_ms = clock_ms();
        self.timed_out_addrs_at(now_ms)
    }

    /// Drops every client that has timed out at `now_ms` and announces each
    /// departure to the clients still connected, as `remove_clients`
    /// describes it.
    pub fn expire_timed_out_at(&mut self, now_ms: u64) -> (r: Vec<Outgoing>)
        requires
            old(self).wf(),
        ensures
            final(self).wf(),
            final(self).next_id() == old(self).next_id(),
            (final(self).clients(), views_of(r@)) == after_removals(
                old(self).clients(),
                timed_out_in(old(self).clients(), readings_at(old(self).clients(), now_ms)),
            ),
    {
        let gone = self.timed_out_addrs_at(now_ms);
        self.remove_clients(&gone)
    }

    /// Drops every client that has timed out now and announces each
    /// departure, as `expire_timed_out_at` does for the clock's current
    /// reading.
    pub fn expire_timed_out(&mut self) -> (r: Vec<Outgoing>)
        requires
            old(self).wf(),
        ensures
            final(self).wf(),
            final(self).next_id() == old(self).next_id(),
            exists|now_ms: u64|
                (final(self).clients(), views_of(r@)) == after_removals(
                    old(self).clients(),
                    #[trigger] timed_out_in(old(self).clients(), readings_at(old(self).clients(), now_ms)),
                ),
    {
        let now_ms = clock_ms();
        self.expire_timed_out_at(now_ms)
    }

    /// A world-state packet listing every connected player, addressed to
    /// every connected client.
    pub fn broadcast_world_state(&self) -> (r: Vec<Outgoing>)
        ensures
            views_of(r@) == world_state_messages(self.clients()),
    {
        let players = self.world_players();
        let mut out: Vec<Outgoing> = Vec::new();
        let mut i: usize = 0;
        while i < self.entries.len()
            invariant
                i <= self.entries@.len(),
                players@ == world_players(self.entries@),
                out@.len() == i,
                forall|k: int| 0 <= k < i ==> (#[trigger] out@[k])@ == world_state_messages(self.entries@)[k],
            decreases self.entries@.len() - i,
        {
            let copy = copy_players(&players);
            out.push(
                Outgoing {
                    addr: self.entries[i].addr,
                    packet: ServerPacket::WorldState { players: copy },
                },
            );
            i = i + 1;
        }
        proof {
            assert(views_of(out@) =~= world_state_messages(self.entries@));
        }
        out
    }

    /// A player-left packet naming `player_id`, addressed to every connected
    /// client.
    pub fn broadcast_player_left(&self, player_id: u32) -> (r: Vec<Outgoing>)
        ensures
            views_of(r@) == player_left_messages(self.clients(), player_id),
    {
        let mut out: Vec<Outgoing> = Vec::new();
        let mut i: usize = 0;
        while i < self.entries.len()
            invariant
                i <= self.entries@.len(),
                out@.len() == i,
                forall|k: int| 0 <= k < i ==> (#[trigger] out@[k])@ == player_left_messages(self.entries@, player_id)[k],
            decreases self.entries@.len() - i,
        {
            out.push(
                Outgoing { addr: self.entries[i].addr, packet: ServerPacket::PlayerLeft { player_id } },
            );
            i = i + 1;
        }
        proof {
            assert(views_of(out@) =~= player_left_messages(self.entries@, player_id));
        }
        out
    }
}

/// The addresses of the clients of `c` that have timed out, in table
/// order, given for each client the whole seconds since it was last seen.
pub fn addrs_to_drop(c: &Vec<ClientEntry>, secs: &Vec<u64>) -> (r: Vec<PeerAddr>)
    requires
        secs@.len() == c@.len(),
    ensures
        r@ == timed_out_in(c@, secs@),
{
    let mut r: Vec<PeerAddr> = Vec::new();
    let mut i: usize = 0;
    while i < c.len()
        invariant
            i <= c@.len(),
            secs@.len() == c@.len(),
            r@ == silent_addrs(c@, secs@, i as int),
        decreases c@.len() - i,
    {
        if timed_out_after(secs[i]) {
            r.push(c[i].addr);
        }
        i = i + 1;
    }
    r
}

/// A fresh vector with the same entries.
fn copy_players(v: &Vec<PlayerData>) -> (r: Vec<PlayerData>)
    ensures
        r@ == v@,
{
    let mut r: Vec<PlayerData> = Vec::new();
    let mut i: usize = 0;
    while i < v.len()
        invariant
            i <= v@.len(),
            r@ == v@.take(i as int),
        decreases v@.len() - i,
    {
        r.push(v[i]);
        proof {
            assert(v@.take(i + 1) == v@.take(i as int).push(v@[i as int]));
        }
        i = i + 1;
    }
    proof {
        assert(v@.take(v@.len() as int) == v@);
    }
    r
}

} // verus!

verus! {

/// A client that joins is in the table afterwards, and the next world state
/// lists it with the id it was given and the position and yaw it reported.
pub proof fn law_joined_player_is_broadcast(
    old: Seq<ClientEntry>,
    new: Seq<ClientEntry>,
    addr: PeerAddr,
    id: u32,
    s: PlayerState,
)
    requires
        after_join(old, new, addr, id, s),
    ensures
        has_addr(new, addr),
        world_players(new).contains(
            PlayerData { player_id: id, position: s.position, rotation_yaw: s.rotation_yaw },
        ),
{
    let d = PlayerData { player_id: id, position: s.position, rotation_yaw: s.rotation_yaw };
    let i = new.len() - 1;
    assert(new[i] == new.last());
    assert(new[i].addr == addr);
    assert(world_players(new)[i] == d);
}

/// A client is welcomed once: after its address is in the table, whatever
/// packet comes next, from it or from another address, leaves the address in
/// the table, so a later packet from it is answered with no welcome.
pub proof fn law_known_address_is_not_welcomed_again(
    c1: Seq<ClientEntry>,
    c2: Seq<ClientEntry>,
    n1: u32,
    n2: u32,
    addr: PeerAddr,
    src: PeerAddr,
    s: PlayerState,
)
    requires
        has_addr(c1, addr),
        after_packet(c1, c2, n1, n2, src, s),
    ensures
        has_addr(c2, addr),
        welcome_for(c1, addr, n1).len() == 0,
        welcome_for(c2, addr, n2).len() == 0,
{
    let i = choose|i: int| 0 <= i < c1.len() && c1[i].addr == addr;
    if has_addr(c1, src) {
        if c1[i].addr == src {
            assert(c2[i].addr == addr);
        } else {
            assert(c2[i] == c1[i]);
        }
    } else {
        assert(c2.take(c1.len() as int)[i] == c2[i]);
        assert(c2[i].addr == addr);
    }
}

/// The clients picked as timed out are connected clients, each once.
pub proof fn law_timed_out_addrs_are_clients(c: Seq<ClientEntry>, secs: Seq<u64>)
    requires
        addrs_distinct(c),
    ensures
        timed_out_in(c, secs).no_duplicates(),
        forall|k: int| 0 <= k < timed_out_in(c, secs).len() ==> has_addr(c, #[trigger] timed_out_in(c, secs)[k]),
{
    let n = c.len() as int;
    let r = timed_out_in(c, secs);
    lemma_silent_index(c, secs, n);
    assert forall|k: int| 0 <= k < r.len() implies has_addr(c, #[trigger] r[k]) by {
        let j = silent_index(c, secs, n, k);
        assert(c[j].addr == r[k]);
    }
    assert forall|x: int, y: int| 0 <= x < r.len() && 0 <= y < r.len() && x != y implies r[x] != r[y] by {
        let ix = silent_index(c, secs, n, x);
        let iy = silent_index(c, secs, n, y);
        if x < y {
            assert(ix < iy);
        } else {
            assert(iy < ix);
        }
        assert(c[ix].addr != c[iy].addr);
    }
}

/// A client times out exactly when at least `TIMEOUT_SECONDS` seconds
/// (`TIMEOUT_SECONDS * 1000` milliseconds) have passed since its last
/// packet: at `now_ms` its address is among those picked as timed out if
/// and only if `now_ms` is that long after its last-seen time.
pub proof fn law_client_times_out_after_silence(c: Seq<ClientEntry>, now_ms: u64, i: int)
    requires
        addrs_distinct(c),
        0 <= i < c.len(),
    ensures
        timed_out_in(c, readings_at(c, now_ms)).contains(c[i].addr) <==> now_ms >= c[i].client.last_seen
            + TIMEOUT_SECONDS * 1000,
{
    let secs = readings_at(c, now_ms);
    let n = c.len() as int;
    let last = c[i].client.last_seen;
    assert(secs[i] == secs_between(last, now_ms));
    assert(secs[i] >= TIMEOUT_SECONDS <==> now_ms >= last + TIMEOUT_SECONDS * 1000) by {
        if now_ms >= last {
            let d = (now_ms - last) as int;
            assert(d / 1000 >= 5 <==> d >= 5000) by (nonlinear_arith)
                requires
                    d >= 0,
            ;
        }
    }
    if secs[i] >= TIMEOUT_SECONDS {
        lemma_silent_contains(c, secs, n, i);
    }
    if timed_out_in(c, secs).contains(c[i].addr) {
        lemma_silent_index(c, secs, n);
        let k = choose|k: int| 0 <= k < timed_out_in(c, secs).len() && timed_out_in(c, secs)[k] == c[i].addr;
        let j = silent_index(c, secs, n, k);
        assert(c[j].addr == c[i].addr);
        assert(j == i);
    }
}

/// The world state reports every client as it is: entry `i` carries client
/// `i`'s own id, position and yaw, and a world-state packet listing all of
/// them goes to each client's address.
pub proof fn law_world_state_reports_each_client(c: Seq<ClientEntry>)
    ensures
        world_players(c).len() == c.len(),
        forall|i: int| 0 <= i < c.len() ==> #[trigger] world_players(c)[i] == (PlayerData {
            player_id: c[i].client.state.player_id,
            position: c[i].client.state.position,
            rotation_yaw: c[i].client.state.rotation_yaw,
        }),
        world_state_messages(c).len() == c.len(),
        forall|i: int| 0 <= i < c.len() ==> #[trigger] world_state_messages(c)[i] == (OutgoingView {
            addr: c[i].addr,
            packet: ServerPacketView::WorldState { players: world_players(c) },
        }),
{
}

/// Removing one more address keeps every announcement made so far, in
/// order, and adds one for that address if it was still connected: a
/// player-left packet naming the removed client's id for each client still
/// connected after the removal, in table order. An address no longer in
/// the table changes nothing. So the packets of a whole list of removals
/// number the sum of the table sizes after each removal.
pub proof fn law_removals_announce_each_departure(c: Seq<ClientEntry>, gone: Seq<PeerAddr>, a: PeerAddr)
    requires
        addrs_distinct(c),
    ensures
        ({
            let (c1, m1) = after_removals(c, gone);
            let (c2, m2) = after_removals(c, gone.push(a));
            &&& forall|k: int| 0 <= k < m1.len() ==> #[trigger] m2[k] == m1[k]
            &&& !has_addr(c1, a) ==> c2 == c1 && m2 == m1
            &&& has_addr(c1, a) ==> {
                &&& !has_addr(c2, a)
                &&& exists|x: int| 0 <= x < c1.len() && (#[trigger] c1[x]).addr == a && c2 == c1.remove(x)
                &&& c2.len() + 1 == c1.len()
                &&& m2.len() == m1.len() + c2.len()
                &&& forall|i: int|
                    0 <= i < c1.len() && (#[trigger] c1[i]).addr == a ==> forall|j: int|
                        0 <= j < c2.len() ==> m2[m1.len() + j] == (OutgoingView {
                            addr: (#[trigger] c2[j]).addr,
                            packet: ServerPacketView::PlayerLeft { player_id: c1[i].client.player_id },
                        })
            }
        }),
{
    law_removed_clients_are_gone(c, gone);
    law_removed_clients_are_gone(c, gone.push(a));
    let (c1, m1) = after_removals(c, gone);
    let (c2, m2) = after_removals(c, gone.push(a));
    assert(gone.push(a).drop_last() =~= gone);
    assert(gone.push(a).last() == a);
    if has_addr(c1, a) {
        let x = index_of(c1, a);
        assert(c1[x].addr == a);
        assert(c2 == c1.remove(x));
        assert forall|i: int| 0 <= i < c1.len() && (#[trigger] c1[i]).addr == a implies forall|j: int|
            0 <= j < c2.len() ==> m2[m1.len() + j] == (OutgoingView {
                addr: (#[trigger] c2[j]).addr,
                packet: ServerPacketView::PlayerLeft { player_id: c1[i].client.player_id },
            }) by {
            assert(i == x);
        }
        assert(!has_addr(c2, a)) by {
            law_removed_clients_are_gone(c, gone.push(a));
            assert(gone.push(a)[gone.len() as int] == a);
        }
    }
}

/// In a well-formed table the world state lists every connected player once:
/// one entry per client, in table order, and no id twice.
pub proof fn law_world_state_lists_each_player_once(c: Seq<ClientEntry>, next_id: u32)
    requires
        ids_distinct(c),
        ids_assigned(c, next_id),
    ensures
        world_players(c).len() == c.len(),
        forall|i: int| 0 <= i < c.len() ==> (#[trigger] world_players(c)[i]).player_id == c[i].client.player_id,
        forall|i: int, j: int| 0 <= i < c.len() && 0 <= j < c.len() && i != j
            ==> #[trigger] world_players(c)[i].player_id != #[trigger] world_players(c)[j].player_id,
{
    assert forall|i: int| 0 <= i < c.len() implies (#[trigger] world_players(c)[i]).player_id == c[i].client.player_id by {
        assert(c[i].client.state.player_id == c[i].client.player_id);
    }
    assert forall|i: int, j: int| 0 <= i < c.len() && 0 <= j < c.len() && i != j
        implies #[trigger] world_players(c)[i].player_id != #[trigger] world_players(c)[j].player_id by {
        assert(c[i].client.state.player_id == c[i].client.player_id);
        assert(c[j].client.state.player_id == c[j].client.player_id);
    }
}

/// After clients are removed, none of the removed addresses is still in the
/// table, the table keeps distinct addresses, and every client that remains
/// was there before with the same record.
pub proof fn law_removed_clients_are_gone(c: Seq<ClientEntry>, gone: Seq<PeerAddr>)
    requires
        addrs_distinct(c),
    ensures
        addrs_distinct(after_removals(c, gone).0),
        forall|k: int| 0 <= k < gone.len() ==> !has_addr(after_removals(c, gone).0, #[trigger] gone[k]),
        forall|x: int| 0 <= x < after_removals(c, gone).0.len() ==> c.contains(#[trigger] after_removals(c, gone).0[x]),
    decreases gone.len(),
{
    if gone.len() > 0 {
        let prefix = gone.drop_last();
        law_removed_clients_are_gone(c, prefix);
        let (c1, m1) = after_removals(c, prefix);
        let a = gone.last();
        if has_addr(c1, a) {
            let i = index_of(c1, a);
            let c2 = c1.remove(i);
            assert(c1[i].addr == a);
            assert forall|x: int| 0 <= x < c2.len() implies #[trigger] c2[x] == c1[if x < i { x } else { x + 1 }] by {}
            assert forall|x: int, y: int| 0 <= x < c2.len() && 0 <= y < c2.len() && x != y implies
                #[trigger] c2[x].addr != #[trigger] c2[y].addr by {
                assert(c2[x] == c1[if x < i { x } else { x + 1 }]);
                assert(c2[y] == c1[if y < i { y } else { y + 1 }]);
            }
            assert forall|k: int| 0 <= k < gone.len() implies !has_addr(c2, #[trigger] gone[k]) by {
                if has_addr(c2, gone[k]) {
                    let x = choose|x: int| 0 <= x < c2.len() && c2[x].addr == gone[k];
                    assert(c2[x] == c1[if x < i { x } else { x + 1 }]);
                    if k < gone.len() - 1 {
                        assert(prefix[k] == gone[k]);
                        assert(!has_addr(c1, prefix[k]));
                    } else {
                        assert(gone[k] == a);
                    }
                }
            }
            assert forall|x: int| 0 <= x < c2.len() implies c.contains(#[trigger] c2[x]) by {
                assert(c2[x] == c1[if x < i { x } else { x + 1 }]);
            }
        } else {
            assert forall|k: int| 0 <= k < gone.len() implies !has_addr(c1, #[trigger] gone[k]) by {
                if k < gone.len() - 1 {
                    assert(prefix[k] == gone[k]);
                }
            }
        }
    }
}

} // verus!

verus! {

/// Two clients that join one after the other are both in the table
/// afterwards, with the two successive ids.
pub proof fn law_successive_joins_get_distinct_ids(
    c0: Seq<ClientEntry>,
    c1: Seq<ClientEntry>,
    c2: Seq<ClientEntry>,
    a1: PeerAddr,
    a2: PeerAddr,
    id: u32,
    s1: PlayerState,
    s2: PlayerState,
)
    requires
        after_join(c0, c1, a1, id, s1),
        after_join(c1, c2, a2, (id + 1) as u32, s2),
        id < u32::MAX,
    ensures
        a1 != a2,
        exists|i: int| 0 <= i < c2.len() && joined_entry(#[trigger] c2[i], a1, id, s1),
        exists|j: int| 0 <= j < c2.len() && joined_entry(#[trigger] c2[j], a2, (id + 1) as u32, s2),
{
    let i = c1.len() - 1;
    assert(c1[i] == c1.last());
    assert(c1[i].addr == a1);
    assert(c2[i] == c2.take(c1.len() as int)[i]);
    assert(joined_entry(c2[i], a1, id, s1));
    assert(c2[c2.len() - 1] == c2.last());
    assert(joined_entry(c2[c2.len() - 1], a2, (id + 1) as u32, s2));
}

} // verus!
