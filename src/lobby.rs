//! The lobby and the coordinator's decisions over it: admission, snapshot
//! replay, disconnection and shine reconciliation.
use crate::errors::ClientInitError;
use crate::guid::Guid;
use crate::names::{injective, without_either, NameMap};
use crate::packet::{
    ConnectionType, Packet, PacketData, PacketDataView, PacketView,
};
use crate::session::{
    handle_incoming, handle_outbound, record_after_outbound, save_start_stage, ClientCommand,
    IncomingPlan, OutboundPlan, PlayerData, PlayerView, SessionState,
};
use crate::text::same_text;
use crate::settings::{guid_listed, listed, Settings};
use crate::shines::ShineBag;
use vstd::prelude::*;

verus! {

/// One row of the player table.
#[derive(Debug)]
pub struct PlayerEntry {
    pub guid: Guid,
    pub data: PlayerData,
}

impl View for PlayerEntry {
    type V = (Seq<u8>, PlayerView);

    open spec fn view(&self) -> (Seq<u8>, PlayerView) {
        (self.guid.id@, self.data@)
    }
}

/// The identifiers of a player table, in order.
pub open spec fn keys(players: Seq<(Seq<u8>, PlayerView)>) -> Seq<Seq<u8>> {
    players.map_values(|e: (Seq<u8>, PlayerView)| e.0)
}

/// The shared state the coordinator owns.
#[derive(Debug)]
pub struct Lobby {
    pub settings: Settings,
    pub players: Vec<PlayerEntry>,
    pub shines: ShineBag,
    pub names: NameMap,
}

/// Whether an address is on a deny list.
pub fn ip_listed(list: &Vec<u128>, ip: u128) -> (r: bool)
    ensures
        r == list@.contains(ip),
{
    let mut i: usize = 0;
    while i < list.len()
        invariant
            0 <= i <= list@.len(),
            forall|j: int| 0 <= j < i ==> list@[j] != ip,
        decreases list@.len() - i,
    {
        if list[i] == ip {
            assert(list@[i as int] == ip);
            return true;
        }
        i = i + 1;
    }
    false
}

/// The all-zero identifier of the server.
pub open spec fn server_id() -> Seq<u8> {
    seq![0u8; 16]
}

/// Why a joining player is refused, if they are: too many players, a banned
/// identifier or address, the server's own identifier, a first connection
/// whose identifier or name is taken, or a reconnection under a name that
/// another identifier holds.
pub open spec fn admission(
    players: Seq<(Seq<u8>, PlayerView)>,
    names: Map<Seq<u8>, Seq<char>>,
    settings: Settings,
    guid: Guid,
    c_type: ConnectionType,
    name: Seq<char>,
    ip: Option<u128>,
) -> Option<ClientInitError> {
    if !keys(players).contains(guid.id@) && players.len() >= settings.server.max_players {
        Some(ClientInitError::TooManyPlayers)
    } else if listed(settings.ban_list.players@, guid) {
        Some(ClientInitError::BannedID)
    } else if ip matches Some(a) && settings.ban_list.ip_addresses@.contains(a) {
        Some(ClientInitError::BannedIP)
    } else if guid.id@ == server_id() {
        Some(ClientInitError::BadHandshake)
    } else if c_type == ConnectionType::FirstConnection && (keys(players).contains(guid.id@)
        || names.dom().contains(guid.id@) || names.values().contains(name)) {
        Some(ClientInitError::DuplicateClient)
    } else if c_type == ConnectionType::Reconnecting && names.values().contains(name) && !(
    names.dom().contains(guid.id@) && names[guid.id@] == name) {
        Some(ClientInitError::DuplicateClient)
    } else {
        None
    }
}

/// The packets that tell a joiner about one present player: their
/// connection, their costume if known, and their last game packet if any.
pub open spec fn replay_of(e: (Seq<u8>, PlayerView), max_players: u16) -> Seq<PacketView> {
    let connect = PacketView {
        id: e.0,
        data_size: 0x26,
        data: PacketDataView::Connect {
            c_type: ConnectionType::FirstConnection,
            max_player: max_players,
            client_name: e.1.name,
        },
    };
    let costume = match e.1.costume {
        Some(c) => seq![
            PacketView {
                id: e.0,
                data_size: 0x40,
                data: PacketDataView::Costume { body_name: c.0, cap_name: c.1 },
            },
        ],
        None => seq![],
    };
    let game = match e.1.last_game_packet {
        Some(p) => seq![p],
        None => seq![],
    };
    seq![connect] + costume + game
}

/// The snapshot replayed to a joiner: every other player, in table order.
pub open spec fn snapshot(players: Seq<(Seq<u8>, PlayerView)>, joiner: Seq<u8>, max_players: u16) -> Seq<PacketView>
    decreases players.len(),
{
    if players.len() == 0 {
        seq![]
    } else {
        snapshot(players.drop_last(), joiner, max_players) + if players.last().0 == joiner {
            Seq::<PacketView>::empty()
        } else {
            replay_of(players.last(), max_players)
        }
    }
}

impl Lobby {
    pub open spec fn players_view(&self) -> Seq<(Seq<u8>, PlayerView)> {
        self.players@.map_values(|e: PlayerEntry| e@)
    }

    /// Identifiers are unique, none is the server's, records and the shine
    /// set are well formed, and names are an injection.
    pub open spec fn wf(&self) -> bool {
        &&& keys(self.players_view()).no_duplicates()
        &&& !keys(self.players_view()).contains(server_id())
        &&& forall|i: int| 0 <= i < self.players@.len() ==> (#[trigger] self.players@[i]).data.wf()
        &&& self.shines.wf()
        &&& injective(self.names@)
    }

    pub fn new(settings: Settings) -> (r: Lobby)
        ensures
            r.wf(),
            r.players@.len() == 0,
            r.shines@ == Set::<i32>::empty(),
            r.names@.dom() == Set::<Seq<u8>>::empty(),
    {
        let r = Lobby { settings, players: Vec::new(), shines: ShineBag::new(), names: NameMap::new() };
        assert(keys(r.players_view()) =~= Seq::<Seq<u8>>::empty());
        r
    }

    /// The row of a player.
    pub fn find(&self, guid: &Guid) -> (r: Option<usize>)
        ensures
            r matches Some(i) ==> i < self.players@.len() && self.players@[i as int].guid.id@
                == guid.id@,
            r is None ==> !keys(self.players_view()).contains(guid.id@),
            r is Some ==> keys(self.players_view()).contains(guid.id@),
    {
        let mut i: usize = 0;
        while i < self.players.len()
            invariant
                0 <= i <= self.players@.len(),
                forall|j: int| 0 <= j < i ==> self.players@[j].guid.id@ != guid.id@,
            decreases self.players@.len() - i,
        {
            if self.players[i].guid == *guid {
                assert(keys(self.players_view())[i as int] == guid.id@);
                return Some(i);
            }
            i = i + 1;
        }
        proof {
            if keys(self.players_view()).contains(guid.id@) {
                let k = choose|k: int|
                    0 <= k < keys(self.players_view()).len() && keys(self.players_view())[k]
                        == guid.id@;
                assert(self.players@[k].guid.id@ == guid.id@);
            }
        }
        None
    }

    pub fn player_count(&self) -> (r: usize)
        ensures
            r == self.players@.len(),
    {
        self.players.len()
    }

    /// Checks a joining player against the settings and the table.
    pub fn check_admission(&self, guid: &Guid, c_type: ConnectionType, name: &String, ip: Option<u128>) -> (r:
        Result<(), ClientInitError>)
        requires
            self.wf(),
        ensures
            r matches Err(e) ==> admission(
                self.players_view(),
                self.names@,
                self.settings,
                *guid,
                c_type,
                name@,
                ip,
            ) == Some(e),
            r is Ok ==> admission(
                self.players_view(),
                self.names@,
                self.settings,
                *guid,
                c_type,
                name@,
                ip,
            ) is None,
    {
        let present = self.find(guid).is_some();
        if !present && self.players.len() >= self.settings.server.max_players as usize {
            return Err(ClientInitError::TooManyPlayers);
        }
        if guid_listed(&self.settings.ban_list.players, guid) {
            return Err(ClientInitError::BannedID);
        }
        if let Some(a) = ip {
            if ip_listed(&self.settings.ban_list.ip_addresses, a) {
                return Err(ClientInitError::BannedIP);
            }
        }
        if guid.is_server() {
            return Err(ClientInitError::BadHandshake);
        }
        match c_type {
            ConnectionType::FirstConnection => {
                if present || self.names.contains_guid(guid) || self.names.contains_name(name) {
                    return Err(ClientInitError::DuplicateClient);
                }
            },
            ConnectionType::Reconnecting => {
                if let Some(holder) = self.names.guid_of(name) {
                    if !(holder == *guid) {
                        proof {
                            if self.names@.dom().contains(guid.id@) && self.names@[guid.id@] == name@ {
                                assert(self.names@[holder.id@] == self.names@[guid.id@]);
                            }
                        }
                        return Err(ClientInitError::DuplicateClient);
                    }
                }
            },
        }
        Ok(())
    }
}

/// The record of a player who joins for the first time.
pub open spec fn fresh_player(name: Seq<char>, ip: Option<u128>) -> PlayerView {
    PlayerView {
        ipv4: ip,
        name,
        shine_sync: Set::empty(),
        scenario: 0,
        is_2d: false,
        is_seeking: false,
        last_game_packet: None,
        last_position: crate::packet::Vector3 { x: 0, y: 0, z: 0 },
        speedrun_start: false,
        loaded_save: false,
        time: 0,
        costume: None,
    }
}

pub open spec fn packets_view(v: Seq<Packet>) -> Seq<PacketView> {
    v.map_values(|p: Packet| p@)
}

proof fn lemma_keys_push(players: Seq<(Seq<u8>, PlayerView)>, e: (Seq<u8>, PlayerView))
    ensures
        keys(players.push(e)) == keys(players).push(e.0),
{
    assert(keys(players.push(e)) =~= keys(players).push(e.0));
}

impl Lobby {
    /// The packets that tell a joiner about everyone else.
    pub fn snapshot_for(&self, joiner: &Guid) -> (r: Vec<Packet>)
        requires
            self.wf(),
        ensures
            packets_view(r@) == snapshot(
                self.players_view(),
                joiner.id@,
                self.settings.server.max_players,
            ),
    {
        let max_players = self.settings.server.max_players;
        let mut out: Vec<Packet> = Vec::new();
        let mut i: usize = 0;
        while i < self.players.len()
            invariant
                0 <= i <= self.players@.len(),
                max_players == self.settings.server.max_players,
                packets_view(out@) == snapshot(
                    self.players_view().take(i as int),
                    joiner.id@,
                    max_players,
                ),
            decreases self.players@.len() - i,
        {
            let ghost before = out@;
            let e = &self.players[i];
            assert(self.players_view().take(i + 1).drop_last() =~= self.players_view().take(
                i as int,
            ));
            assert(self.players_view().take(i + 1).last() == e@);
            if !(e.guid == *joiner) {
                let connect = Packet::new(
                    e.guid,
                    PacketData::Connect {
                        c_type: ConnectionType::FirstConnection,
                        max_player: max_players,
                        client_name: e.data.name.clone(),
                    },
                );
                out.push(connect);
                match &e.data.costume {
                    Some(c) => {
                        out.push(Packet::new(e.guid, PacketData::Costume(c.clone())));
                    },
                    None => {},
                }
                match &e.data.last_game_packet {
                    Some(p) => {
                        out.push(p.clone());
                    },
                    None => {},
                }
            }
            assert(packets_view(out@) =~= packets_view(before) + if e@.0 == joiner.id@ {
                Seq::<PacketView>::empty()
            } else {
                replay_of(e@, max_players)
            });
            i = i + 1;
        }
        assert(self.players_view().take(self.players@.len() as int) =~= self.players_view());
        out
    }

    /// Lets a player join: checks admission, keeps a reconnecting player's
    /// record or creates a fresh one, registers the name, and returns the
    /// snapshot to replay to them. A refused player changes nothing.
    pub fn add_player(&mut self, guid: Guid, c_type: ConnectionType, name: String, ip: Option<u128>) -> (r:
        Result<Vec<Packet>, ClientInitError>)
        requires
            old(self).wf(),
        ensures
            final(self).wf(),
            final(self).settings == old(self).settings,
            final(self).shines@ == old(self).shines@,
            r matches Err(e) ==> admission(
                old(self).players_view(),
                old(self).names@,
                old(self).settings,
                guid,
                c_type,
                name@,
                ip,
            ) == Some(e) && final(self).players_view() == old(self).players_view()
                && final(self).names@ == old(self).names@,
            r is Ok ==> admission(
                old(self).players_view(),
                old(self).names@,
                old(self).settings,
                guid,
                c_type,
                name@,
                ip,
            ) is None,
            r matches Ok(replay) ==> packets_view(replay@) == snapshot(
                old(self).players_view(),
                guid.id@,
                old(self).settings.server.max_players,
            ),
            r is Ok ==> forall|k: Seq<u8>|
                k != guid.id@ && #[trigger] old(self).names@.dom().contains(k) ==> final(self).names@.dom().contains(k)
                    && final(self).names@[k] == old(self).names@[k],
            r is Ok ==> final(self).names@ == without_either(old(self).names@, guid.id@, name@).insert(
                guid.id@,
                name@,
            ),
            r is Ok && keys(old(self).players_view()).contains(guid.id@) ==> final(self).players_view() == old(self).players_view(),
            r is Ok && !keys(old(self).players_view()).contains(guid.id@) ==> final(self).players_view() == old(self).players_view().push((guid.id@, fresh_player(name@, ip))),
            r is Ok ==> final(self).players@.len() == old(self).players@.len() || final(self).players@.len() <= old(self).settings.server.max_players,
    {
        match self.check_admission(&guid, c_type, &name, ip) {
            Err(e) => {
                return Err(e);
            },
            Ok(()) => {},
        }
        proof {
            assert forall|k: Seq<u8>| k != guid.id@ && #[trigger] self.names@.dom().contains(k) implies self.names@[k] != name@ by {
                if self.names@[k] == name@ {
                    assert(self.names@.values().contains(name@));
                    if c_type == ConnectionType::Reconnecting {
                        assert(self.names@[k] == self.names@[guid.id@]);
                    }
                }
            }
        }
        let replay = self.snapshot_for(&guid);
        let present = self.find(&guid).is_some();
        self.names.register(guid, name.clone());
        if !present {
            let ghost before = self.players_view();
            let data = PlayerData::new(name, ip);
            self.players.push(PlayerEntry { guid, data });
            proof {
                assert(self.players_view() =~= before.push((guid.id@, fresh_player(name@, ip))));
                lemma_keys_push(before, (guid.id@, fresh_player(name@, ip)));
                assert forall|i: int| 0 <= i < self.players@.len() implies (
                #[trigger] self.players@[i]).data.wf() by {
                    if i < before.len() {
                        assert(self.players@[i] == old(self).players@[i]);
                    }
                }
            }
        }
        Ok(replay)
    }

    /// Removes a player and their name; returns the `Disconnect` packet to
    /// broadcast and to hand to their session, or `None` if they were gone.
    pub fn disconnect_player(&mut self, guid: &Guid) -> (r: Option<Packet>)
        requires
            old(self).wf(),
        ensures
            final(self).wf(),
            final(self).settings == old(self).settings,
            final(self).shines@ == old(self).shines@,
            !keys(old(self).players_view()).contains(guid.id@) ==> r is None
                && final(self).players_view() == old(self).players_view() && final(self).names@
                == old(self).names@,
            keys(old(self).players_view()).contains(guid.id@) ==> (r matches Some(p) && p@ == (
            PacketView { id: guid.id@, data_size: 0, data: PacketDataView::Disconnect }))
                && final(self).names@ == old(self).names@.remove(guid.id@) && (exists|i: int|
                0 <= i < old(self).players@.len() && old(self).players_view()[i].0 == guid.id@
                    && final(self).players_view() == old(self).players_view().remove(i)),
            final(self).players@.len() <= old(self).players@.len(),
    {
        match self.find(guid) {
            None => None,
            Some(i) => {
                let ghost before = self.players_view();
                self.players.remove(i);
                self.names.remove(guid);
                proof {
                    assert(self.players_view() =~= before.remove(i as int));
                    assert(keys(self.players_view()) =~= keys(before).remove(i as int));
                    assert forall|a: int, b: int|
                        0 <= a < b < keys(self.players_view()).len() implies keys(
                        self.players_view(),
                    )[a] != keys(self.players_view())[b] by {
                        let a2 = if a < i {
                            a
                        } else {
                            a + 1
                        };
                        let b2 = if b < i {
                            b
                        } else {
                            b + 1
                        };
                        assert(keys(before)[a2] != keys(before)[b2]);
                    }
                    if keys(self.players_view()).contains(server_id()) {
                        let k = choose|k: int|
                            0 <= k < keys(self.players_view()).len() && keys(self.players_view())[k]
                                == server_id();
                        let k2 = if k < i {
                            k
                        } else {
                            k + 1
                        };
                        assert(keys(before)[k2] == server_id());
                    }
                    assert forall|j: int| 0 <= j < self.players@.len() implies (
                    #[trigger] self.players@[j]).data.wf() by {
                        let j2 = if j < i {
                            j
                        } else {
                            j + 1
                        };
                        assert(self.players@[j] == old(self).players@[j2]);
                    }
                    assert(before[i as int].0 == guid.id@);
                }
                Some(Packet::new(*guid, PacketData::Disconnect))
            },
        }
    }
}

/// With a cap of `max_players`, a table within the cap stays within it when
/// a player is admitted: a new identifier is admitted only below the cap,
/// and a present one does not grow the table.
pub proof fn lemma_admission_bound(
    players: Seq<(Seq<u8>, PlayerView)>,
    names: Map<Seq<u8>, Seq<char>>,
    settings: Settings,
    guid: Guid,
    c_type: ConnectionType,
    name: Seq<char>,
    ip: Option<u128>,
)
    requires
        players.len() <= settings.server.max_players,
        admission(players, names, settings, guid, c_type, name, ip) is None,
    ensures
        !keys(players).contains(guid.id@) ==> players.push((guid.id@, fresh_player(name, ip))).len()
            <= settings.server.max_players,
{
}

/// The row of a key in a table whose keys are unique.
pub open spec fn index_of_key(ks: Seq<Seq<u8>>, k: Seq<u8>) -> int {
    choose|i: int| 0 <= i < ks.len() && ks[i] == k
}

proof fn lemma_index_of_key(ks: Seq<Seq<u8>>, i: int)
    requires
        ks.no_duplicates(),
        0 <= i < ks.len(),
    ensures
        index_of_key(ks, ks[i]) == i,
{
    let j = index_of_key(ks, ks[i]);
    assert(0 <= j < ks.len() && ks[j] == ks[i]);
}

/// The shines a player is owed: those of the lobby they lack, while
/// reconciliation is on and they are not at the start of a new save.
pub open spec fn pending(shines: Set<i32>, enabled: bool, p: PlayerView) -> Set<i32> {
    if enabled && !p.speedrun_start {
        shines.difference(p.shine_sync)
    } else {
        Set::empty()
    }
}

/// The shines to push to one player.
#[derive(Debug)]
pub struct ShinePush {
    pub guid: Guid,
    pub ids: Vec<i32>,
}

/// The pushes a reconciliation makes: one per player, in table order.
pub open spec fn pushes_match(r: Seq<ShinePush>, players: Seq<(Seq<u8>, PlayerView)>, shines: Set<i32>, enabled: bool) -> bool {
    &&& r.len() == players.len()
    &&& forall|i: int|
        0 <= i < r.len() ==> (#[trigger] r[i]).guid.id@ == players[i].0 && r[i].ids@.no_duplicates()
            && r[i].ids@.to_set() == pending(shines, enabled, players[i].1)
}

/// The packet that pushes one shine to a player, as if they had collected it.
pub open spec fn shine_push_view(id: i32) -> PacketView {
    PacketView {
        id: server_id(),
        data_size: 5,
        data: PacketDataView::Shine { shine_id: id, is_grand: false },
    }
}

pub fn shine_packet(id: i32) -> (r: Packet)
    ensures
        r@ == shine_push_view(id),
{
    Packet::new(Guid::server(), PacketData::Shine { shine_id: id, is_grand: false })
}

/// A player record after its session has sent it each pushed shine in turn.
pub open spec fn apply_pushes(r: PlayerView, ids: Seq<i32>) -> PlayerView
    decreases ids.len(),
{
    if ids.len() == 0 {
        r
    } else {
        record_after_outbound(apply_pushes(r, ids.drop_last()), true, shine_push_view(ids.last()))
    }
}

proof fn lemma_apply_pushes(r: PlayerView, ids: Seq<i32>)
    ensures
        apply_pushes(r, ids).shine_sync == r.shine_sync.union(ids.to_set()),
    decreases ids.len(),
{
    if ids.len() == 0 {
        assert(ids.to_set() =~= Set::<i32>::empty());
        assert(r.shine_sync.union(ids.to_set()) =~= r.shine_sync);
    } else {
        lemma_apply_pushes(r, ids.drop_last());
        assert(ids.to_set() =~= ids.drop_last().to_set().insert(ids.last())) by {
            assert forall|x: i32| ids.contains(x) <==> ids.drop_last().contains(x) || x == ids.last() by {
                if ids.contains(x) {
                    let k = choose|k: int| 0 <= k < ids.len() && ids[k] == x;
                    if k < ids.len() - 1 {
                        assert(ids.drop_last()[k] == x);
                    }
                }
                if ids.drop_last().contains(x) {
                    let k = choose|k: int| 0 <= k < ids.drop_last().len() && ids.drop_last()[k] == x;
                    assert(ids[k] == x);
                }
            }
        }
        assert(apply_pushes(r, ids).shine_sync =~= r.shine_sync.union(ids.to_set()));
    }
}

/// Once a player's session has sent them every shine a reconciliation pushed,
/// they hold every shine of the lobby (reconciliation on, not at a save start).
pub proof fn lemma_shine_convergence(r: PlayerView, shines: Set<i32>, ids: Seq<i32>)
    requires
        !r.speedrun_start,
        ids.to_set() == pending(shines, true, r),
    ensures
        shines.subset_of(apply_pushes(r, ids).shine_sync),
{
    lemma_apply_pushes(r, ids);
}

/// What the coordinator does after taking in one forwarded packet.
#[derive(Debug)]
pub struct CoordinatorPlan {
    pub broadcasts: Vec<ClientCommand>,
    pub shine_pushes: Vec<ShinePush>,
    pub persist_shines: bool,
    pub deferred_sync: Option<Guid>,
}

/// The stage whose home a player reaches when leaving the start of a save.
pub open spec fn sync_start_stage() -> Seq<char> {
    "WaterfallWorldHomeStage"@
}

/// The table with the start-of-save flag of `g` set, and their synced shines
/// emptied if asked.
pub open spec fn update_player(
    players: Seq<(Seq<u8>, PlayerView)>,
    g: Seq<u8>,
    speedrun_start: bool,
    clear_sync: bool,
) -> Seq<(Seq<u8>, PlayerView)> {
    players.map_values(
        |e: (Seq<u8>, PlayerView)|
            if e.0 == g {
                (
                    e.0,
                    PlayerView {
                        speedrun_start,
                        shine_sync: if clear_sync {
                            Set::empty()
                        } else {
                            e.1.shine_sync
                        },
                        ..e.1
                    },
                )
            } else {
                e
            },
    )
}

pub open spec fn commands_view(v: Seq<ClientCommand>) -> Seq<(bool, PacketView)> {
    v.map_values(
        |c: ClientCommand|
            match c {
                ClientCommand::Packet(p) => (false, p@),
                ClientCommand::SelfAddressed(p) => (true, p@),
            },
    )
}

impl Lobby {
    /// The pushes that bring every player up to the lobby's shines.
    pub fn sync_all_shines(&self) -> (r: Vec<ShinePush>)
        requires
            self.wf(),
        ensures
            pushes_match(r@, self.players_view(), self.shines@, self.settings.shines.enabled),
    {
        let enabled = self.settings.shines.enabled;
        let mut out: Vec<ShinePush> = Vec::new();
        let mut i: usize = 0;
        while i < self.players.len()
            invariant
                0 <= i <= self.players@.len(),
                self.wf(),
                enabled == self.settings.shines.enabled,
                out@.len() == i,
                forall|k: int|
                    0 <= k < i ==> (#[trigger] out@[k]).guid.id@ == self.players_view()[k].0
                        && out@[k].ids@.no_duplicates() && out@[k].ids@.to_set() == pending(
                        self.shines@,
                        enabled,
                        self.players_view()[k].1,
                    ),
            decreases self.players@.len() - i,
        {
            let e = &self.players[i];
            assert(self.players@[i as int].data.wf());
            let ids = if enabled && !e.data.speedrun_start {
                self.shines.missing_from(&e.data.shine_sync)
            } else {
                let v: Vec<i32> = Vec::new();
                assert(v@.to_set() =~= Set::<i32>::empty());
                v
            };
            out.push(ShinePush { guid: e.guid, ids });
            i = i + 1;
        }
        out
    }

    /// The shines one player is owed now, if they are in the table.
    pub fn sync_player_shines(&self, guid: &Guid) -> (r: Option<ShinePush>)
        requires
            self.wf(),
        ensures
            r is None <==> !keys(self.players_view()).contains(guid.id@),
            r matches Some(push) ==> push.guid.id@ == guid.id@ && push.ids@.no_duplicates() && (
            exists|i: int|
                0 <= i < self.players@.len() && self.players_view()[i].0 == guid.id@
                    && push.ids@.to_set() == pending(
                    self.shines@,
                    self.settings.shines.enabled,
                    self.players_view()[i].1,
                )),
    {
        match self.find(guid) {
            None => None,
            Some(i) => {
                let e = &self.players[i];
                assert(self.players@[i as int].data.wf());
                let ids = if self.settings.shines.enabled && !e.data.speedrun_start {
                    self.shines.missing_from(&e.data.shine_sync)
                } else {
                    let v: Vec<i32> = Vec::new();
                    assert(v@.to_set() =~= Set::<i32>::empty());
                    v
                };
                assert(self.players_view()[i as int].0 == guid.id@);
                Some(ShinePush { guid: *guid, ids })
            },
        }
    }

    /// Sets the start-of-save flag of a player, and empties their synced
    /// shines if asked; returns the flag's earlier value.
    fn mark_player(&mut self, guid: &Guid, speedrun_start: bool, clear_sync: bool) -> (r: bool)
        requires
            old(self).wf(),
        ensures
            final(self).wf(),
            final(self).settings == old(self).settings,
            final(self).shines@ == old(self).shines@,
            final(self).names@ == old(self).names@,
            final(self).players_view() == update_player(
                old(self).players_view(),
                guid.id@,
                speedrun_start,
                clear_sync,
            ),
            r <==> exists|i: int|
                0 <= i < old(self).players@.len() && old(self).players_view()[i].0 == guid.id@
                    && old(self).players_view()[i].1.speedrun_start,
    {
        let ghost before = self.players_view();
        match self.find(guid) {
            None => {
                assert forall|k: int| 0 <= k < before.len() implies before[k].0 != guid.id@ by {
                    assert(keys(before)[k] == before[k].0);
                }
                assert(self.players_view() =~= update_player(before, guid.id@, speedrun_start, clear_sync));
                false
            },
            Some(i) => {
                let mut e = self.players.remove(i);
                let was = e.data.speedrun_start;
                assert(before[i as int].1.speedrun_start == was);
                e.data.speedrun_start = speedrun_start;
                if clear_sync {
                    e.data.shine_sync.clear();
                }
                self.players.insert(i, e);
                proof {
                    assert(self.players_view() =~= update_player(before, guid.id@, speedrun_start, clear_sync)) by {
                        assert forall|k: int| 0 <= k < before.len() && k != i implies before[k].0
                            != guid.id@ by {
                            assert(keys(before)[k] == before[k].0);
                            assert(keys(before)[i as int] == before[i as int].0);
                        }
                    }
                    assert(keys(self.players_view()) =~= keys(before));
                    assert forall|j: int| 0 <= j < self.players@.len() implies (
                    #[trigger] self.players@[j]).data.wf() by {
                        if j != i {
                            assert(self.players@[j] == old(self).players@[j]);
                        }
                    }
                    if was {
                        assert(before[i as int].1.speedrun_start);
                    } else {
                        assert forall|k: int| 0 <= k < before.len() && before[k].0 == guid.id@ implies !before[k].1.speedrun_start by {
                            assert(keys(before)[k] == before[k].0);
                            assert(keys(before)[i as int] == before[i as int].0);
                        }
                    }
                }
                was
            },
        }
    }
}

impl Lobby {
    /// Takes in a packet a session forwarded. A shine joins the lobby's set
    /// and is not rebroadcast; a costume triggers reconciliation; a game
    /// packet may start a new save (clearing the set) or end its start
    /// (scheduling a later sync); everything else is broadcast.
    pub fn handle_packet(&mut self, packet: Packet) -> (r: CoordinatorPlan)
        requires
            old(self).wf(),
        ensures
            final(self).wf(),
            final(self).settings == old(self).settings,
            final(self).names@ == old(self).names@,
            match packet.data@ {
                PacketDataView::Shine { shine_id, .. } => {
                    &&& final(self).shines@ == old(self).shines@.insert(shine_id)
                    &&& final(self).players_view() == old(self).players_view()
                    &&& r.broadcasts@.len() == 0
                    &&& pushes_match(
                        r.shine_pushes@,
                        final(self).players_view(),
                        final(self).shines@,
                        final(self).settings.shines.enabled,
                    )
                    &&& r.persist_shines == (old(self).settings.persist_shines.enabled
                        && !old(self).shines@.contains(shine_id))
                    &&& r.deferred_sync is None
                },
                PacketDataView::Costume { .. } => {
                    &&& final(self).shines@ == old(self).shines@
                    &&& final(self).players_view() == old(self).players_view()
                    &&& commands_view(r.broadcasts@) == seq![(false, packet@)]
                    &&& pushes_match(
                        r.shine_pushes@,
                        final(self).players_view(),
                        final(self).shines@,
                        final(self).settings.shines.enabled,
                    )
                    &&& !r.persist_shines
                    &&& r.deferred_sync is None
                },
                PacketDataView::Game { stage, scenario_num, .. } => {
                    &&& r.shine_pushes@.len() == 0
                    &&& commands_view(r.broadcasts@) == if old(self).settings.scenario.merge_enabled {
                        seq![(true, packet@), (false, packet@)]
                    } else {
                        seq![(false, packet@)]
                    }
                    &&& if stage == save_start_stage() && scenario_num == 0 {
                        &&& final(self).players_view() == update_player(
                            old(self).players_view(),
                            packet.id.id@,
                            true,
                            true,
                        )
                        &&& final(self).shines@ == Set::<i32>::empty()
                        &&& r.persist_shines == old(self).settings.persist_shines.enabled
                        &&& r.deferred_sync is None
                    } else if stage == sync_start_stage() {
                        &&& final(self).players_view() == update_player(
                            old(self).players_view(),
                            packet.id.id@,
                            false,
                            false,
                        )
                        &&& final(self).shines@ == old(self).shines@
                        &&& !r.persist_shines
                        &&& (r.deferred_sync is Some <==> old(self).settings.shines.enabled && exists|i: int|
                            0 <= i < old(self).players@.len() && old(self).players_view()[i].0
                                == packet.id.id@ && old(self).players_view()[i].1.speedrun_start)
                        &&& r.deferred_sync matches Some(g) ==> g.id@ == packet.id.id@
                    } else {
                        &&& final(self).players_view() == old(self).players_view()
                        &&& final(self).shines@ == old(self).shines@
                        &&& !r.persist_shines
                        &&& r.deferred_sync is None
                    }
                },
                _ => {
                    &&& final(self).shines@ == old(self).shines@
                    &&& final(self).players_view() == old(self).players_view()
                    &&& commands_view(r.broadcasts@) == seq![(false, packet@)]
                    &&& r.shine_pushes@.len() == 0
                    &&& !r.persist_shines
                    &&& r.deferred_sync is None
                },
            },
    {
        let mut broadcasts: Vec<ClientCommand> = Vec::new();
        match &packet.data {
            PacketData::Shine { shine_id, .. } => {
                let added = self.shines.insert(*shine_id);
                let pushes = self.sync_all_shines();
                return CoordinatorPlan {
                    broadcasts,
                    shine_pushes: pushes,
                    persist_shines: self.settings.persist_shines.enabled && added,
                    deferred_sync: None,
                };
            },
            PacketData::Costume(_) => {
                let pushes = self.sync_all_shines();
                broadcasts.push(ClientCommand::Packet(packet));
                assert(commands_view(broadcasts@) =~= seq![(false, packet@)]);
                return CoordinatorPlan {
                    broadcasts,
                    shine_pushes: pushes,
                    persist_shines: false,
                    deferred_sync: None,
                };
            },
            PacketData::Game { stage, scenario_num, .. } => {
                let mut persist = false;
                let mut deferred: Option<Guid> = None;
                proof {
                    reveal_strlit("CapWorldHomeStage");
                    reveal_strlit("WaterfallWorldHomeStage");
                    assert("CapWorldHomeStage"@[0] != "WaterfallWorldHomeStage"@[0]);
                }
                if same_text(stage.as_str(), "CapWorldHomeStage") && *scenario_num == 0 {
                    self.mark_player(&packet.id, true, true);
                    self.shines.clear();
                    persist = self.settings.persist_shines.enabled;
                } else if same_text(stage.as_str(), "WaterfallWorldHomeStage") {
                    let was = self.mark_player(&packet.id, false, false);
                    if self.settings.shines.enabled && was {
                        deferred = Some(packet.id);
                    }
                }
                let pushes: Vec<ShinePush> = Vec::new();
                if self.settings.scenario.merge_enabled {
                    broadcasts.push(ClientCommand::SelfAddressed(packet.clone()));
                }
                broadcasts.push(ClientCommand::Packet(packet));
                assert(commands_view(broadcasts@) =~= if old(self).settings.scenario.merge_enabled {
                    seq![(true, packet@), (false, packet@)]
                } else {
                    seq![(false, packet@)]
                });
                return CoordinatorPlan {
                    broadcasts,
                    shine_pushes: pushes,
                    persist_shines: persist,
                    deferred_sync: deferred,
                };
            },
            _ => {},
        }
        broadcasts.push(ClientCommand::Packet(packet));
        assert(commands_view(broadcasts@) =~= seq![(false, packet@)]);
        CoordinatorPlan {
            broadcasts,
            shine_pushes: Vec::new(),
            persist_shines: false,
            deferred_sync: None,
        }
    }

    /// Runs a session's incoming decision on its own record. `None` when the
    /// session's player is no longer in the table.
    pub fn incoming_for(&mut self, state: &mut SessionState, packet: &Packet) -> (r: Option<IncomingPlan>)
        requires
            old(self).wf(),
        ensures
            final(self).wf(),
            final(self).settings == old(self).settings,
            final(self).shines@ == old(self).shines@,
            final(self).names@ == old(self).names@,
            keys(final(self).players_view()) == keys(old(self).players_view()),
            r is None <==> !keys(old(self).players_view()).contains(old(state).guid.id@),
            r is None ==> *final(state) == *old(state) && final(self).players_view()
                == old(self).players_view(),
            r matches Some(plan) ==> plan.destination == crate::session::route(packet.data@)
                && plan.flip == (if crate::session::flips_incoming(old(self).settings.flip, packet@) {
                Some(crate::session::Flip { is_2d: old(self).players_view()[index_of_key(keys(old(self).players_view()), old(state).guid.id@)].1.is_2d })
            } else {
                None
            }),
            r is Some ==> *final(state) == crate::session::session_after_incoming(*old(state), packet@)
                && exists|i: int|
                0 <= i < old(self).players@.len() && old(self).players_view()[i].0
                    == old(state).guid.id@ && final(self).players_view() == old(self).players_view().update(
                    i,
                    (old(state).guid.id@, crate::session::after_incoming(old(self).players_view()[i].1, packet@)),
                ),
    {
        match self.find(&state.guid) {
            None => None,
            Some(i) => {
                let ghost before = self.players_view();
                proof {
                    lemma_index_of_key(keys(before), i as int);
                }
                let mut e = self.players.remove(i);
                assert(old(self).players@[i as int].data.wf());
                let plan = handle_incoming(state, &mut e.data, packet, &self.settings.flip);
                self.players.insert(i, e);
                proof {
                    assert(self.players_view() =~= before.update(
                        i as int,
                        (old(state).guid.id@, crate::session::after_incoming(before[i as int].1, packet@)),
                    ));
                    assert(keys(self.players_view()) =~= keys(before));
                    assert forall|j: int| 0 <= j < self.players@.len() implies (
                    #[trigger] self.players@[j]).data.wf() by {
                        if j != i {
                            assert(self.players@[j] == old(self).players@[j]);
                        }
                    }
                }
                Some(plan)
            },
        }
    }

    /// Runs a session's outbound decision on its own record. `None` when the
    /// session's player is no longer in the table.
    pub fn outbound_for(&mut self, state: &mut SessionState, cmd: ClientCommand) -> (r: Option<OutboundPlan>)
        requires
            old(self).wf(),
        ensures
            final(self).wf(),
            final(self).settings == old(self).settings,
            final(self).shines@ == old(self).shines@,
            final(self).names@ == old(self).names@,
            keys(final(self).players_view()) == keys(old(self).players_view()),
            r is None <==> !keys(old(self).players_view()).contains(old(state).guid.id@),
            r is None ==> *final(state) == *old(state) && final(self).players_view()
                == old(self).players_view(),
            r matches Some(plan) ==> {
                let i = index_of_key(keys(old(self).players_view()), old(state).guid.id@);
                &&& 0 <= i < old(self).players@.len()
                &&& old(self).players_view()[i].0 == old(state).guid.id@
                &&& crate::session::outbound_spec(
                    *old(state),
                    *final(state),
                    old(self).players_view()[i].1,
                    final(self).players_view()[i].1,
                    old(self).players_view()[i].1.is_2d,
                    cmd,
                    old(self).settings.flip,
                    plan,
                )
                &&& final(self).players_view() == old(self).players_view().update(
                    i,
                    (old(state).guid.id@, final(self).players_view()[i].1),
                )
            },
    {
        match self.find(&state.guid) {
            None => None,
            Some(i) => {
                let ghost before = self.players_view();
                proof {
                    lemma_index_of_key(keys(before), i as int);
                }
                let mut e = self.players.remove(i);
                assert(old(self).players@[i as int].data.wf());
                let plan = handle_outbound(state, &mut e.data, cmd, &self.settings.flip);
                self.players.insert(i, e);
                proof {
                    assert(self.players_view() =~= before.update(
                        i as int,
                        (old(state).guid.id@, self.players_view()[i as int].1),
                    ));
                    assert(keys(self.players_view()) =~= keys(before));
                    assert forall|j: int| 0 <= j < self.players@.len() implies (
                    #[trigger] self.players@[j]).data.wf() by {
                        if j != i {
                            assert(self.players@[j] == old(self).players@[j]);
                        }
                    }
                }
                Some(plan)
            },
        }
    }

    /// Puts players, and the addresses they joined from, on the deny lists.
    pub fn ban_players(&mut self, guids: &Vec<Guid>)
        requires
            old(self).wf(),
        ensures
            final(self).wf(),
            final(self).players_view() == old(self).players_view(),
            final(self).names@ == old(self).names@,
            final(self).shines@ == old(self).shines@,
            forall|i: int| 0 <= i < guids@.len() ==> listed(final(self).settings.ban_list.players@, #[trigger] guids@[i]),
            forall|g: Guid| listed(old(self).settings.ban_list.players@, g) ==> listed(final(self).settings.ban_list.players@, g),
            forall|a: u128| old(self).settings.ban_list.ip_addresses@.contains(a) ==> final(self).settings.ban_list.ip_addresses@.contains(a),
            forall|j: int, k: int|
                0 <= j < guids@.len() && 0 <= k < old(self).players@.len()
                    && old(self).players_view()[k].0 == #[trigger] guids@[j].id@
                    && #[trigger] old(self).players_view()[k].1.ipv4 is Some ==> final(self).settings.ban_list.ip_addresses@.contains(
                    old(self).players_view()[k].1.ipv4->0,
                ),
    {
        let mut i: usize = 0;
        while i < guids.len()
            invariant
                0 <= i <= guids@.len(),
                self.wf(),
                self.players_view() == old(self).players_view(),
                self.names@ == old(self).names@,
                self.shines@ == old(self).shines@,
                forall|j: int| 0 <= j < i ==> listed(self.settings.ban_list.players@, #[trigger] guids@[j]),
                forall|g: Guid| listed(old(self).settings.ban_list.players@, g) ==> listed(self.settings.ban_list.players@, g),
                forall|a: u128| old(self).settings.ban_list.ip_addresses@.contains(a) ==> self.settings.ban_list.ip_addresses@.contains(a),
                forall|j: int, k: int|
                    0 <= j < i && 0 <= k < old(self).players@.len()
                        && old(self).players_view()[k].0 == #[trigger] guids@[j].id@
                        && #[trigger] old(self).players_view()[k].1.ipv4 is Some ==> self.settings.ban_list.ip_addresses@.contains(
                        old(self).players_view()[k].1.ipv4->0,
                    ),
            decreases guids@.len() - i,
        {
            let g = guids[i];
            if !guid_listed(&self.settings.ban_list.players, &g) {
                let ghost before = self.settings.ban_list.players@;
                self.settings.ban_list.players.push(g);
                proof {
                    assert(self.settings.ban_list.players@[before.len() as int].id@ == g.id@);
                    assert forall|h: Guid| listed(before, h) implies listed(self.settings.ban_list.players@, h) by {
                        let k = choose|k: int| 0 <= k < before.len() && before[k].id@ == h.id@;
                        assert(self.settings.ban_list.players@[k].id@ == h.id@);
                    }
                }
            }
            let ghost listed_before = self.settings.ban_list.ip_addresses@;
            match self.find(&g) {
                Some(k) => {
                    if let Some(a) = self.players[k].data.ipv4 {
                        if !ip_listed(&self.settings.ban_list.ip_addresses, a) {
                            self.settings.ban_list.ip_addresses.push(a);
                            assert(self.settings.ban_list.ip_addresses@[listed_before.len() as int] == a);
                        }
                    }
                    proof {
                        assert forall|k2: int|
                            0 <= k2 < old(self).players@.len() && old(self).players_view()[k2].0 == g.id@ implies k2 == k by {
                            assert(keys(old(self).players_view())[k2] == old(self).players_view()[k2].0);
                            assert(keys(old(self).players_view())[k as int] == old(self).players_view()[k as int].0);
                        }
                    }
                },
                None => {
                    proof {
                        assert forall|k2: int|
                            0 <= k2 < old(self).players@.len() implies old(self).players_view()[k2].0 != g.id@ by {
                            assert(keys(old(self).players_view())[k2] == old(self).players_view()[k2].0);
                        }
                    }
                },
            }
            proof {
                assert forall|b: u128| listed_before.contains(b) implies self.settings.ban_list.ip_addresses@.contains(b) by {
                    let k = choose|k: int| 0 <= k < listed_before.len() && listed_before[k] == b;
                    assert(self.settings.ban_list.ip_addresses@[k] == b);
                }
            }
            i = i + 1;
        }
    }
}

} // verus!
