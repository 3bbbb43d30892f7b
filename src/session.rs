//! The decisions of one client session: what an incoming packet changes and
//! where it goes, and how an outbound packet is written.
use crate::guid::Guid;
use crate::packet::{Costume, Packet, PacketData, PacketDataView, PacketView, TagUpdate, Vector3};
use crate::settings::{guid_listed, listed, FlipPovSettings, FlipSettings};
use crate::shines::ShineBag;
use crate::text::same_text;
use vstd::prelude::*;

verus! {

/// The stage whose first scenario starts a new save.
pub open spec fn save_start_stage() -> Seq<char> {
    "CapWorldHomeStage"@
}

/// What the lobby keeps of one connected player.
#[derive(Debug)]
pub struct PlayerData {
    pub ipv4: Option<u128>,
    pub name: String,
    pub shine_sync: ShineBag,
    pub scenario: i8,
    pub is_2d: bool,
    pub is_seeking: bool,
    pub last_game_packet: Option<Packet>,
    pub last_position: Vector3,
    pub speedrun_start: bool,
    pub loaded_save: bool,
    /// Tag-game time, in seconds.
    pub time: u64,
    pub costume: Option<Costume>,
}

#[verifier::ext_equal]
pub struct PlayerView {
    pub ipv4: Option<u128>,
    pub name: Seq<char>,
    pub shine_sync: Set<i32>,
    pub scenario: i8,
    pub is_2d: bool,
    pub is_seeking: bool,
    pub last_game_packet: Option<PacketView>,
    pub last_position: Vector3,
    pub speedrun_start: bool,
    pub loaded_save: bool,
    pub time: u64,
    pub costume: Option<(Seq<char>, Seq<char>)>,
}

impl View for PlayerData {
    type V = PlayerView;

    open spec fn view(&self) -> PlayerView {
        PlayerView {
            ipv4: self.ipv4,
            name: self.name@,
            shine_sync: self.shine_sync@,
            scenario: self.scenario,
            is_2d: self.is_2d,
            is_seeking: self.is_seeking,
            last_game_packet: match self.last_game_packet {
                Some(p) => Some(p@),
                None => None,
            },
            last_position: self.last_position,
            speedrun_start: self.speedrun_start,
            loaded_save: self.loaded_save,
            time: self.time,
            costume: match self.costume {
                Some(c) => Some((c.body_name@, c.cap_name@)),
                None => None,
            },
        }
    }
}

impl PlayerData {
    pub open spec fn wf(&self) -> bool {
        self.shine_sync.wf()
    }

    /// A fresh record for a player who just joined.
    pub fn new(name: String, ipv4: Option<u128>) -> (r: PlayerData)
        ensures
            r.wf(),
            r@.name == name@,
            r@.ipv4 == ipv4,
            r@.shine_sync == Set::<i32>::empty(),
            r@.last_game_packet is None,
            r@.costume is None,
            !r@.speedrun_start,
            !r@.loaded_save,
            !r@.is_2d,
            !r@.is_seeking,
            r@.scenario == 0,
            r@.time == 0,
            r@.last_position == (Vector3 { x: 0, y: 0, z: 0 }),
    {
        PlayerData {
            ipv4,
            name,
            shine_sync: ShineBag::new(),
            scenario: 0,
            is_2d: false,
            is_seeking: false,
            last_game_packet: None,
            last_position: Vector3 { x: 0, y: 0, z: 0 },
            speedrun_start: false,
            loaded_save: false,
            time: 0,
            costume: None,
        }
    }
}

/// Where an incoming packet goes once the session has taken note of it.
#[derive(Debug, Clone, Copy, PartialEq, Eq, Structural)]
pub enum PacketDestination {
    NoSend,
    Broadcast,
    Coordinator,
}

/// The routing table of incoming packets.
pub open spec fn route(d: PacketDataView) -> PacketDestination {
    match d {
        PacketDataView::Player { .. } => PacketDestination::Coordinator,
        PacketDataView::Cap { .. } => PacketDestination::Coordinator,
        PacketDataView::Costume { .. } => PacketDestination::Coordinator,
        PacketDataView::Game { .. } => PacketDestination::Coordinator,
        PacketDataView::Shine { .. } => PacketDestination::Coordinator,
        PacketDataView::Disconnect => PacketDestination::Coordinator,
        PacketDataView::UdpInit { .. } => PacketDestination::NoSend,
        PacketDataView::HolePunch => PacketDestination::NoSend,
        _ => PacketDestination::Broadcast,
    }
}

/// What an incoming packet changes in its sender's own record.
pub open spec fn after_incoming(r: PlayerView, p: PacketView) -> PlayerView {
    match p.data {
        PacketDataView::Player { pos, .. } => PlayerView { last_position: pos, ..r },
        PacketDataView::Costume { body_name, cap_name } => PlayerView {
            costume: Some((body_name, cap_name)),
            loaded_save: true,
            ..r
        },
        PacketDataView::Game { is_2d, scenario_num, stage } => {
            if stage == save_start_stage() && scenario_num == 0 {
                PlayerView {
                    is_2d,
                    scenario: scenario_num,
                    last_game_packet: Some(p),
                    speedrun_start: true,
                    shine_sync: Set::empty(),
                    ..r
                }
            } else {
                PlayerView { is_2d, scenario: scenario_num, last_game_packet: Some(p), ..r }
            }
        },
        PacketDataView::Tag { update_type, is_it, seconds, minutes } => {
            if update_type == TagUpdate::Time {
                PlayerView { time: (minutes * 60 + seconds) as u64, ..r }
            } else {
                PlayerView { is_seeking: is_it, ..r }
            }
        },
        PacketDataView::Shine { shine_id, .. } => {
            if r.loaded_save {
                PlayerView { shine_sync: r.shine_sync.insert(shine_id), ..r }
            } else {
                r
            }
        },
        _ => r,
    }
}

/// The session's datagram side: waiting for the client's port, or bound to it.
#[derive(Debug, Clone, Copy, PartialEq, Eq, Structural)]
pub enum DatagramPeer {
    Pending,
    Bound(u16),
}

/// The state of one session besides its player record.
#[derive(Debug, Clone, Copy)]
pub struct SessionState {
    pub guid: Guid,
    pub alive: bool,
    pub datagram: DatagramPeer,
}

/// What an incoming packet changes in the session itself.
pub open spec fn session_after_incoming(s: SessionState, p: PacketView) -> SessionState {
    match p.data {
        PacketDataView::UdpInit { port } => SessionState { datagram: DatagramPeer::Bound(port), ..s },
        PacketDataView::Disconnect => SessionState { alive: false, ..s },
        _ => s,
    }
}

/// The flip rewrite to apply to a `Player` packet: half a turn about the
/// vertical axis, and a lift by the player's height (taller in 2D).
#[derive(Debug, Clone, Copy, PartialEq, Eq, Structural)]
pub struct Flip {
    pub is_2d: bool,
}

/// Whether the others see the sender of an incoming `Player` packet flipped.
pub open spec fn flips_incoming(f: FlipSettings, p: PacketView) -> bool {
    &&& p.data is Player
    &&& f.enabled
    &&& (f.pov == FlipPovSettings::Both || f.pov == FlipPovSettings::Others)
    &&& exists|i: int| 0 <= i < f.players@.len() && f.players@[i].id@ == p.id
}

/// Whether a flipped player sees the (unflipped) sender of an outbound
/// `Player` packet flipped.
pub open spec fn flips_outbound(f: FlipSettings, own: Guid, p: PacketView) -> bool {
    &&& p.data is Player
    &&& f.enabled
    &&& (f.pov == FlipPovSettings::Both || f.pov == FlipPovSettings::Player)
    &&& listed(f.players@, own)
    &&& !(exists|i: int| 0 <= i < f.players@.len() && f.players@[i].id@ == p.id)
}

/// The routing of one incoming packet.
pub struct IncomingPlan {
    pub destination: PacketDestination,
    pub flip: Option<Flip>,
}

/// Takes note of an incoming packet in the session and in its sender's
/// record, and says where it goes and whether it is flipped first.
pub fn handle_incoming(
    state: &mut SessionState,
    record: &mut PlayerData,
    packet: &Packet,
    flip: &FlipSettings,
) -> (r: IncomingPlan)
    requires
        old(record).wf(),
    ensures
        final(record).wf(),
        final(record)@ == after_incoming(old(record)@, packet@),
        *final(state) == session_after_incoming(*old(state), packet@),
        r.destination == route(packet.data@),
        r.flip == (if flips_incoming(*flip, packet@) {
            Some(Flip { is_2d: old(record).is_2d })
        } else {
            None
        }),
{
    let mut plan = IncomingPlan { destination: PacketDestination::Broadcast, flip: None };
    match &packet.data {
        PacketData::Player { pos, .. } => {
            record.last_position = *pos;
            if flip.enabled && flip.pov.is_others_flip() && guid_listed(&flip.players, &packet.id) {
                plan.flip = Some(Flip { is_2d: record.is_2d });
            }
            plan.destination = PacketDestination::Coordinator;
        },
        PacketData::Cap { .. } => {
            plan.destination = PacketDestination::Coordinator;
        },
        PacketData::Costume(c) => {
            record.costume = Some(c.clone());
            record.loaded_save = true;
            plan.destination = PacketDestination::Coordinator;
        },
        PacketData::Game { is_2d, scenario_num, stage } => {
            record.is_2d = *is_2d;
            record.scenario = *scenario_num;
            proof {
                reveal_strlit("CapWorldHomeStage");
            }
            if same_text(stage.as_str(), "CapWorldHomeStage") && *scenario_num == 0 {
                record.speedrun_start = true;
                record.shine_sync.clear();
            }
            record.last_game_packet = Some(packet.clone());
            plan.destination = PacketDestination::Coordinator;
        },
        PacketData::Tag { update_type, is_it, seconds, minutes } => {
            match update_type {
                TagUpdate::Time => {
                    record.time = (*minutes as u64) * 60 + (*seconds as u64);
                },
                TagUpdate::State => {
                    record.is_seeking = *is_it;
                },
            }
        },
        PacketData::Shine { shine_id, .. } => {
            if record.loaded_save {
                record.shine_sync.insert(*shine_id);
            }
            plan.destination = PacketDestination::Coordinator;
        },
        PacketData::UdpInit { port } => {
            state.datagram = DatagramPeer::Bound(*port);
            plan.destination = PacketDestination::NoSend;
        },
        PacketData::HolePunch => {
            plan.destination = PacketDestination::NoSend;
        },
        PacketData::Disconnect => {
            state.alive = false;
            plan.destination = PacketDestination::Coordinator;
        },
        _ => {},
    }
    assert(record@ =~= after_incoming(old(record)@, packet@));
    plan
}

/// A packet handed to a session for its client: relayed as it is, or
/// rewritten to come from the client itself.
#[derive(Debug, Clone)]
pub enum ClientCommand {
    Packet(Packet),
    SelfAddressed(Packet),
}

/// The socket a packet is written to.
#[derive(Debug, Clone, Copy, PartialEq, Eq, Structural)]
pub enum Transport {
    Stream,
    Datagram,
}

/// `Player` and `Cap` packets take the datagram once its peer is bound;
/// everything else takes the stream.
pub open spec fn spec_transport(datagram: DatagramPeer, d: PacketDataView) -> Transport {
    if datagram is Bound && (d is Player || d is Cap) {
        Transport::Datagram
    } else {
        Transport::Stream
    }
}

pub fn choose_transport(datagram: DatagramPeer, data: &PacketData) -> (r: Transport)
    ensures
        r == spec_transport(datagram, data@),
{
    match (datagram, data) {
        (DatagramPeer::Bound(_), PacketData::Player { .. }) => Transport::Datagram,
        (DatagramPeer::Bound(_), PacketData::Cap { .. }) => Transport::Datagram,
        _ => Transport::Stream,
    }
}

/// What a session does with an outbound packet.
#[derive(Debug)]
pub enum OutboundPlan {
    Drop,
    Send { packet: Packet, transport: Transport, flip: Option<Flip> },
}

/// What an outbound command changes in the session.
pub open spec fn session_after_outbound(s: SessionState, self_addressed: bool, p: PacketView) -> SessionState {
    if p.data is Disconnect && (self_addressed || p.id == s.guid.id@) {
        SessionState { alive: false, ..s }
    } else {
        s
    }
}

/// What an outbound command changes in the session's own record: a shine
/// pushed to the client counts as synced.
pub open spec fn record_after_outbound(r: PlayerView, self_addressed: bool, p: PacketView) -> PlayerView {
    match p.data {
        PacketDataView::Shine { shine_id, .. } => if self_addressed {
            PlayerView { shine_sync: r.shine_sync.insert(shine_id), ..r }
        } else {
            r
        },
        _ => r,
    }
}

/// What `handle_outbound` promises: a relayed packet from the client itself
/// is dropped, any other is sent as it is; a self-addressed one is sent as
/// from the client; the transport and the flip follow the session and the
/// settings.
pub open spec fn outbound_spec(
    s0: SessionState,
    s1: SessionState,
    r0: PlayerView,
    r1: PlayerView,
    is_2d: bool,
    cmd: ClientCommand,
    flip: FlipSettings,
    r: OutboundPlan,
) -> bool {
    match cmd {
        ClientCommand::Packet(p) => {
            &&& s1 == session_after_outbound(s0, false, p@)
            &&& r1 == r0
            &&& if p.id.id@ == s0.guid.id@ {
                r is Drop
            } else {
                r matches OutboundPlan::Send { packet, transport, flip: f } && packet@ == p@
                    && transport == spec_transport(s0.datagram, p.data@) && f == (if flips_outbound(
                    flip,
                    s0.guid,
                    p@,
                ) {
                    Some(Flip { is_2d })
                } else {
                    None
                })
            }
        },
        ClientCommand::SelfAddressed(p) => {
            &&& s1 == session_after_outbound(s0, true, p@)
            &&& r1 == record_after_outbound(r0, true, p@)
            &&& r matches OutboundPlan::Send { packet, transport, flip: f } && packet@ == (
            PacketView { id: s0.guid.id@, ..p@ }) && transport == spec_transport(
                s0.datagram,
                p.data@,
            ) && f is None
        },
    }
}

/// Decides how an outbound command reaches the client. A relayed packet from
/// the client itself is dropped; a self-addressed one is sent as from the
/// client. Flipping and the transport follow the settings and the datagram.
pub fn handle_outbound(
    state: &mut SessionState,
    record: &mut PlayerData,
    cmd: ClientCommand,
    flip: &FlipSettings,
) -> (r: OutboundPlan)
    requires
        old(record).wf(),
    ensures
        final(record).wf(),
        final(state).guid == old(state).guid,
        final(state).datagram == old(state).datagram,
        cmd is Packet && r is Send ==> r->Send_packet.id.id@ != old(state).guid.id@,
        outbound_spec(*old(state), *final(state), old(record)@, final(record)@, old(record).is_2d, cmd, *flip, r),
{
    match cmd {
        ClientCommand::Packet(p) => {
            if p.id == state.guid {
                if let PacketData::Disconnect = p.data {
                    state.alive = false;
                }
                return OutboundPlan::Drop;
            }
            let mut f: Option<Flip> = None;
            if let PacketData::Player { .. } = p.data {
                if flip.enabled && flip.pov.is_self_flip() && guid_listed(&flip.players, &state.guid)
                    && !guid_listed(&flip.players, &p.id) {
                    f = Some(Flip { is_2d: record.is_2d });
                }
            }
            let transport = choose_transport(state.datagram, &p.data);
            OutboundPlan::Send { packet: p, transport, flip: f }
        },
        ClientCommand::SelfAddressed(p) => {
            match p.data {
                PacketData::Shine { shine_id, .. } => {
                    record.shine_sync.insert(shine_id);
                },
                PacketData::Disconnect => {
                    state.alive = false;
                },
                _ => {},
            }
            let transport = choose_transport(state.datagram, &p.data);
            let mut packet = p;
            packet.id = state.guid;
            assert(record@ =~= record_after_outbound(old(record)@, true, packet@));
            OutboundPlan::Send { packet, transport, flip: None }
        },
    }
}

/// What the handshake needs from the client's first packet.
#[derive(Debug)]
pub struct ConnectInfo {
    pub guid: Guid,
    pub c_type: crate::packet::ConnectionType,
    pub name: String,
}

/// The client's first packet must be a `Connect`; anything else fails the
/// handshake.
pub fn parse_connect(p: &Packet) -> (r: Result<ConnectInfo, crate::errors::ClientInitError>)
    ensures
        p.data is Connect <==> r is Ok,
        r matches Ok(c) ==> c.guid == p.id && p.data@ == (PacketDataView::Connect {
            c_type: c.c_type,
            max_player: p.data->Connect_max_player,
            client_name: c.name@,
        }),
        r matches Err(e) ==> e == crate::errors::ClientInitError::BadHandshake,
{
    match &p.data {
        PacketData::Connect { c_type, client_name, .. } => Ok(
            ConnectInfo { guid: p.id, c_type: *c_type, name: client_name.clone() },
        ),
        _ => Err(crate::errors::ClientInitError::BadHandshake),
    }
}

/// The error a stream read of zero bytes means: a clean close when nothing
/// was pending, a reset when a packet was cut off.
pub fn end_of_stream(buffered: usize) -> (r: crate::errors::EncodingError)
    ensures
        buffered == 0 ==> r == crate::errors::EncodingError::ConnectionClose,
        buffered > 0 ==> r == crate::errors::EncodingError::ConnectionReset,
{
    if buffered == 0 {
        crate::errors::EncodingError::ConnectionClose
    } else {
        crate::errors::EncodingError::ConnectionReset
    }
}

impl DatagramPeer {
    pub fn is_bound(&self) -> (r: bool)
        ensures
            r == self is Bound,
    {
        match self {
            DatagramPeer::Bound(_) => true,
            DatagramPeer::Pending => false,
        }
    }

    /// The port to send to; writing before the client's port is known fails.
    pub fn send_port(&self) -> (r: Result<u16, crate::errors::SMOError>)
        ensures
            *self matches DatagramPeer::Bound(p) ==> r == Ok::<u16, crate::errors::SMOError>(p),
            *self is Pending ==> r == Err::<u16, crate::errors::SMOError>(
                crate::errors::SMOError::UdpNotInit,
            ),
    {
        match self {
            DatagramPeer::Bound(p) => Ok(*p),
            DatagramPeer::Pending => Err(crate::errors::SMOError::UdpNotInit),
        }
    }

    /// Whether a datagram from `from_port` on the client's address is taken:
    /// only once bound, and only from the bound port.
    pub fn accepts(&self, same_ip: bool, from_port: u16) -> (r: bool)
        ensures
            r == (same_ip && *self == DatagramPeer::Bound(from_port)),
    {
        match self {
            DatagramPeer::Bound(p) => same_ip && *p == from_port,
            DatagramPeer::Pending => false,
        }
    }
}

} // verus!
