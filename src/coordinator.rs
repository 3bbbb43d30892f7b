//! The coordinator's handling of operator commands.
use crate::cmds::{first_missing, ids_of, ExternalCommand, PlayerCommand, Players, ShineCommand};
use crate::errors::SMOError;
use crate::guid::Guid;
use crate::lobby::{keys, pushes_match, server_id, Lobby, PlayerEntry, ShinePush};
use crate::names::injective;
use crate::packet::{Packet, PacketData, PacketDataView, PacketView, TagUpdate};
use crate::session::{ClientCommand, PlayerView};
use vstd::prelude::*;

verus! {

/// Where the coordinator sends a command: to every session, or to one.
#[derive(Debug)]
pub enum Delivery {
    Broadcast(ClientCommand),
    Direct(Guid, ClientCommand),
}

/// A delivery as (target, whether self-addressed, packet); no target means all.
pub open spec fn delivery_view(d: Delivery) -> (Option<Seq<u8>>, bool, PacketView) {
    match d {
        Delivery::Broadcast(ClientCommand::Packet(p)) => (None, false, p@),
        Delivery::Broadcast(ClientCommand::SelfAddressed(p)) => (None, true, p@),
        Delivery::Direct(g, ClientCommand::Packet(p)) => (Some(g.id@), false, p@),
        Delivery::Direct(g, ClientCommand::SelfAddressed(p)) => (Some(g.id@), true, p@),
    }
}

pub open spec fn deliveries_view(v: Seq<Delivery>) -> Seq<(Option<Seq<u8>>, bool, PacketView)> {
    v.map_values(|d: Delivery| delivery_view(d))
}

/// Self-addressed sends of `p` to the listed players, up to the first one
/// who is not in the table.
pub open spec fn direct_sends(gs: Seq<Guid>, table: Seq<Seq<u8>>, p: PacketView) -> Seq<(Option<Seq<u8>>, bool, PacketView)>
    decreases gs.len(),
{
    if gs.len() == 0 {
        seq![]
    } else if !table.contains(gs[0].id@) {
        seq![]
    } else {
        seq![(Some(gs[0].id@), true, p)] + direct_sends(gs.drop_first(), table, p)
    }
}

/// What the coordinator does for one operator command, and its reply.
#[derive(Debug)]
pub struct ExternalPlan {
    pub deliveries: Vec<Delivery>,
    pub shine_pushes: Vec<ShinePush>,
    pub reply: Result<String, SMOError>,
}

pub open spec fn change_stage_view(stage: Seq<char>, id: Seq<char>, scenario: i8, sub_scenario: u8) -> PacketView {
    PacketView {
        id: server_id(),
        data_size: 0x42,
        data: PacketDataView::ChangeStage { stage, id, scenario, sub_scenario },
    }
}

pub open spec fn tag_view(update_type: TagUpdate, is_it: bool, seconds: u8, minutes: u16) -> PacketView {
    PacketView {
        id: server_id(),
        data_size: 5,
        data: PacketDataView::Tag { update_type, is_it, seconds, minutes },
    }
}

/// Sends a self-addressed packet to the chosen players: one broadcast for
/// everyone, or one direct send per listed player, failing at the first who
/// is not in the table.
pub fn send_players(lobby: &Lobby, players: &Players, packet: &Packet, out: &mut Vec<Delivery>) -> (r:
    Result<(), SMOError>)
    ensures
        players is All ==> r is Ok && deliveries_view(final(out)@) == deliveries_view(old(out)@).push(
            (None, true, packet@),
        ),
        players matches Players::Individual(gs) ==> deliveries_view(final(out)@) == deliveries_view(
            old(out)@,
        ) + direct_sends(gs@, keys(lobby.players_view()), packet@),
        players matches Players::Individual(gs) ==> (r is Ok <==> first_missing(
            gs@,
            keys(lobby.players_view()),
        ) is None),
        players matches Players::Individual(gs) ==> (r matches Err(e) ==> first_missing(
            gs@,
            keys(lobby.players_view()),
        ) matches Some(g) && e == SMOError::InvalidID(g)),
{
    match players {
        Players::All => {
            out.push(Delivery::Broadcast(ClientCommand::SelfAddressed(packet.clone())));
            assert(deliveries_view(out@) =~= deliveries_view(old(out)@).push((None, true, packet@)));
            Ok(())
        },
        Players::Individual(gs) => {
            let ghost t = keys(lobby.players_view());
            let mut i: usize = 0;
            assert(gs@.skip(0) =~= gs@);
            assert(deliveries_view(out@) + direct_sends(gs@, t, packet@) =~= deliveries_view(old(out)@)
                + direct_sends(gs@, t, packet@));
            while i < gs.len()
                invariant
                    0 <= i <= gs@.len(),
                    players matches Players::Individual(q) && q@ == gs@,
                    t == keys(lobby.players_view()),
                    deliveries_view(out@) + direct_sends(gs@.skip(i as int), t, packet@)
                        == deliveries_view(old(out)@) + direct_sends(gs@, t, packet@),
                    first_missing(gs@, t) == first_missing(gs@.skip(i as int), t),
                decreases gs@.len() - i,
            {
                assert(gs@.skip(i as int).drop_first() =~= gs@.skip(i + 1));
                assert(gs@.skip(i as int)[0] == gs@[i as int]);
                if lobby.find(&gs[i]).is_none() {
                    assert(direct_sends(gs@.skip(i as int), t, packet@) =~= Seq::empty());
                    assert(deliveries_view(out@) =~= deliveries_view(out@) + Seq::<
                        (Option<Seq<u8>>, bool, PacketView),
                    >::empty());
                    return Err(SMOError::InvalidID(gs[i]));
                }
                let ghost before = out@;
                out.push(Delivery::Direct(gs[i], ClientCommand::SelfAddressed(packet.clone())));
                assert(deliveries_view(out@) =~= deliveries_view(before).push(
                    (Some(gs@[i as int].id@), true, packet@),
                ));
                assert(deliveries_view(out@) + direct_sends(gs@.skip(i + 1), t, packet@) =~= deliveries_view(
                    before,
                ) + direct_sends(gs@.skip(i as int), t, packet@));
                i = i + 1;
            }
            assert(gs@.skip(gs@.len() as int) =~= Seq::<Guid>::empty());
            assert(deliveries_view(out@) =~= deliveries_view(out@) + Seq::<
                (Option<Seq<u8>>, bool, PacketView),
            >::empty());
            Ok(())
        },
    }
}

/// The name pairs left after disconnecting the listed players: those of
/// listed players in the table go.
pub open spec fn kept_names(
    names: Map<Seq<u8>, Seq<char>>,
    listed: Seq<Seq<u8>>,
    table: Seq<Seq<u8>>,
) -> Map<Seq<u8>, Seq<char>> {
    Map::new(
        |k: Seq<u8>| names.dom().contains(k) && !(listed.contains(k) && table.contains(k)),
        |k: Seq<u8>| names[k],
    )
}

/// Every row of `cur` is a row of `prev`, unchanged.
#[verifier::opaque]
pub open spec fn rows_from(cur: Seq<(Seq<u8>, PlayerView)>, prev: Seq<(Seq<u8>, PlayerView)>) -> bool {
    forall|a: int| 0 <= a < cur.len() ==> prev.contains(#[trigger] cur[a])
}

proof fn lemma_rows_from_self(t: Seq<(Seq<u8>, PlayerView)>)
    ensures
        rows_from(t, t),
{
    reveal(rows_from);
    assert forall|a: int| 0 <= a < t.len() implies t.contains(#[trigger] t[a]) by {
        assert(t[a] == t[a]);
    }
}

proof fn lemma_rows_from_remove(
    t: Seq<(Seq<u8>, PlayerView)>,
    j: int,
    prev: Seq<(Seq<u8>, PlayerView)>,
)
    requires
        0 <= j < t.len(),
        rows_from(t, prev),
    ensures
        rows_from(t.remove(j), prev),
{
    reveal(rows_from);
    let r = t.remove(j);
    assert forall|a: int| 0 <= a < r.len() implies prev.contains(#[trigger] r[a]) by {
        let a2 = if a < j { a } else { a + 1 };
        assert(r[a] == t[a2]);
        assert(prev.contains(t[a2]));
    }
}

/// Every record with its synced shines emptied.
pub open spec fn cleared_sync(players: Seq<(Seq<u8>, PlayerView)>) -> Seq<(Seq<u8>, PlayerView)> {
    players.map_values(
        |e: (Seq<u8>, PlayerView)| (e.0, PlayerView { shine_sync: Set::empty(), ..e.1 }),
    )
}

proof fn lemma_keys_remove(ks: Seq<Seq<u8>>, i: int, k: Seq<u8>)
    requires
        ks.no_duplicates(),
        0 <= i < ks.len(),
        ks[i] == k,
    ensures
        forall|x: Seq<u8>| ks.remove(i).contains(x) <==> ks.contains(x) && x != k,
{
    assert forall|x: Seq<u8>| ks.remove(i).contains(x) <==> ks.contains(x) && x != k by {
        if ks.remove(i).contains(x) {
            let j = choose|j: int| 0 <= j < ks.remove(i).len() && ks.remove(i)[j] == x;
            let j2 = if j < i {
                j
            } else {
                j + 1
            };
            assert(ks[j2] == x);
        }
        if ks.contains(x) && x != k {
            let j = choose|j: int| 0 <= j < ks.len() && ks[j] == x;
            if j < i {
                assert(ks.remove(i)[j] == x);
            } else {
                assert(j != i);
                assert(ks.remove(i)[j - 1] == x);
            }
        }
    }
}

impl Lobby {
    /// Empties the lobby's shines and every player's synced shines.
    fn clear_all_shines(&mut self)
        requires
            old(self).wf(),
        ensures
            final(self).wf(),
            final(self).settings == old(self).settings,
            final(self).names@ == old(self).names@,
            final(self).shines@ == Set::<i32>::empty(),
            final(self).players_view() == cleared_sync(old(self).players_view()),
    {
        self.shines.clear();
        let mut i: usize = 0;
        let ghost before = self.players_view();
        while i < self.players.len()
            invariant
                0 <= i <= self.players@.len(),
                self.players@.len() == before.len(),
                self.shines.wf(),
                self.shines@ == Set::<i32>::empty(),
                self.settings == old(self).settings,
                self.names@ == old(self).names@,
                injective(self.names@),
                forall|j: int| 0 <= j < self.players@.len() ==> (#[trigger] self.players@[j]).data.wf(),
                forall|j: int| 0 <= j < i ==> self.players_view()[j] == cleared_sync(before)[j],
                forall|j: int| i <= j < before.len() ==> self.players_view()[j] == before[j],
            decreases self.players@.len() - i,
        {
            let mut e: PlayerEntry = self.players.remove(i);
            e.data.shine_sync.clear();
            self.players.insert(i, e);
            proof {
                assert forall|j: int| 0 <= j < self.players@.len() implies (
                #[trigger] self.players@[j]).data.wf() by {
                    if j != i {
                        assert(self.players@[j] == old(self).players@[j] || true);
                    }
                }
                assert(self.players_view()[i as int] =~= cleared_sync(before)[i as int]);
            }
            i = i + 1;
        }
        assert(self.players_view() =~= cleared_sync(before));
        assert(keys(self.players_view()) =~= keys(before));
    }

    /// Carries out an operator command and says what to send and what to
    /// reply. Packets go out self-addressed from the server's identifier.
    pub fn handle_external_cmd(&mut self, cmd: ExternalCommand) -> (r: ExternalPlan)
        requires
            old(self).wf(),
        ensures
            final(self).wf(),
            final(self).settings == old(self).settings,
            match cmd {
                ExternalCommand::Player { players, command } => match command {
                    PlayerCommand::Send { stage, id, scenario } => sends_of(
                        players,
                        old(self),
                        change_stage_view(stage@, id@, scenario, 0),
                        "Sent players"@,
                        r,
                    ) && final(self).players_view() == old(self).players_view(),
                    PlayerCommand::Crash {  } => sends_of(
                        players,
                        old(self),
                        change_stage_view("$agogusStage"@, "$among$us/SubArea"@, 21, 69),
                        "Crashed players"@,
                        r,
                    ) && final(self).players_view() == old(self).players_view(),
                    PlayerCommand::SendShine { id } => sends_of(
                        players,
                        old(self),
                        crate::lobby::shine_push_view(id),
                        "Sent player shine"@,
                        r,
                    ) && final(self).players_view() == old(self).players_view(),
                    PlayerCommand::Tag { time, is_seeking } => {
                        &&& final(self).players_view() == old(self).players_view()
                        &&& r.shine_pushes@.len() == 0
                        &&& (time is None && is_seeking is None) ==> r.deliveries@.len() == 0
                            && (r.reply matches Ok(m) && m@ == "Updated tag status"@)
                        &&& time is Some && is_seeking is None ==> sends_of(
                            players,
                            old(self),
                            tag_view(TagUpdate::Time, false, (time->0).1, (time->0).0),
                            "Updated tag status"@,
                            r,
                        )
                        &&& time is Some && is_seeking is Some && sends_ok(players, old(self)) ==> deliveries_view(
                            r.deliveries@,
                        ) == sends_view(players, old(self), tag_view(TagUpdate::Time, false, (time->0).1, (time->0).0))
                            + sends_view(players, old(self), tag_view(TagUpdate::State, is_seeking->0, 0, 0))
                            && (r.reply matches Ok(m) && m@ == "Updated tag status"@)
                        &&& time is Some && is_seeking is Some && !sends_ok(players, old(self)) ==> sends_of(
                            players,
                            old(self),
                            tag_view(TagUpdate::Time, false, (time->0).1, (time->0).0),
                            "Updated tag status"@,
                            r,
                        )
                        &&& time is None && is_seeking is Some ==> deliveries_view(
                            r.deliveries@,
                        ) == sends_view(players, old(self), tag_view(TagUpdate::State, is_seeking->0, 0, 0))
                            && (r.reply matches Ok(m) && m@ == "Updated tag status"@)
                    },
                    PlayerCommand::Disconnect {  } => {
                        &&& r.reply matches Ok(m) && m@ == "Disconnected players"@
                        &&& deliveries_view(r.deliveries@) == disconnect_sends(
                            chosen_ids(players, old(self)),
                            keys(old(self).players_view()),
                        )
                        &&& final(self).names@ == kept_names(
                            old(self).names@,
                            chosen_ids(players, old(self)),
                            keys(old(self).players_view()),
                        )
                        &&& rows_from(final(self).players_view(), old(self).players_view())
                        &&& forall|k: Seq<u8>|
                            #[trigger] keys(final(self).players_view()).contains(k) <==> keys(
                                old(self).players_view(),
                            ).contains(k) && !chosen_ids(players, old(self)).contains(k)
                        &&& r.shine_pushes@.len() == 0
                        &&& final(self).players@.len() <= old(self).players@.len()
                        &&& forall|k: Seq<u8>|
                            #[trigger] keys(final(self).players_view()).contains(k) ==> keys(
                                old(self).players_view(),
                            ).contains(k)
                        &&& forall|k: Seq<u8>|
                            #[trigger] keys(old(self).players_view()).contains(k) && !keys(
                                final(self).players_view(),
                            ).contains(k) ==> r.deliveries@.len() > 0
                        &&& players is All ==> final(self).players@.len() == 0
                        &&& players matches Players::Individual(gs) ==> forall|i: int|
                            0 <= i < gs@.len() ==> !keys(final(self).players_view()).contains(
                                #[trigger] gs@[i].id@,
                            )
                    },
                },
                ExternalCommand::Shine { command } => match command {
                    ShineCommand::Sync => {
                        &&& final(self).players_view() == old(self).players_view()
                        &&& final(self).shines@ == old(self).shines@
                        &&& r.deliveries@.len() == 0
                        &&& pushes_match(
                            r.shine_pushes@,
                            old(self).players_view(),
                            old(self).shines@,
                            old(self).settings.shines.enabled,
                        )
                        &&& r.reply matches Ok(m) && m@ == "Synced shine bags"@
                    },
                    ShineCommand::Clear => {
                        &&& final(self).players_view() == cleared_sync(old(self).players_view())
                        &&& final(self).shines@ == Set::<i32>::empty()
                        &&& r.deliveries@.len() == 0
                        &&& r.shine_pushes@.len() == 0
                        &&& r.reply matches Ok(m) && m@ == "Shines cleared"@
                    },
                },
            },
    {
        let mut deliveries: Vec<Delivery> = Vec::new();
        match cmd {
            ExternalCommand::Player { players, command } => match command {
                PlayerCommand::Send { stage, id, scenario } => {
                    let packet = Packet::new(
                        Guid::server(),
                        PacketData::ChangeStage { stage, id, scenario, sub_scenario: 0 },
                    );
                    assert(deliveries_view(deliveries@) =~= Seq::empty());
                    let res = send_players(self, &players, &packet, &mut deliveries);
                    assert(deliveries_view(deliveries@) =~= sends_view(players, old(self), packet@));
                    self.finish_sends(deliveries, res, "Sent players")
                },
                PlayerCommand::Crash {  } => {
                    let packet = Packet::new(
                        Guid::server(),
                        PacketData::ChangeStage {
                            id: String::from_str("$among$us/SubArea"),
                            stage: String::from_str("$agogusStage"),
                            scenario: 21,
                            sub_scenario: 69,
                        },
                    );
                    assert(deliveries_view(deliveries@) =~= Seq::empty());
                    let res = send_players(self, &players, &packet, &mut deliveries);
                    assert(deliveries_view(deliveries@) =~= sends_view(players, old(self), packet@));
                    self.finish_sends(deliveries, res, "Crashed players")
                },
                PlayerCommand::SendShine { id } => {
                    let packet = crate::lobby::shine_packet(id);
                    assert(deliveries_view(deliveries@) =~= Seq::empty());
                    let res = send_players(self, &players, &packet, &mut deliveries);
                    assert(deliveries_view(deliveries@) =~= sends_view(players, old(self), packet@));
                    self.finish_sends(deliveries, res, "Sent player shine")
                },
                PlayerCommand::Tag { time, is_seeking } => {
                    if let Some((minutes, seconds)) = time {
                        let packet = Packet::new(
                            Guid::server(),
                            PacketData::Tag {
                                update_type: TagUpdate::Time,
                                is_it: false,
                                minutes,
                                seconds,
                            },
                        );
                        assert(deliveries_view(deliveries@) =~= Seq::empty());
                    let res = send_players(self, &players, &packet, &mut deliveries);
                    assert(deliveries_view(deliveries@) =~= sends_view(players, old(self), packet@));
                        if res.is_err() {
                            return self.finish_sends(deliveries, res, "Updated tag status");
                        }
                    }
                    if let Some(is_it) = is_seeking {
                        let packet = Packet::new(
                            Guid::server(),
                            PacketData::Tag {
                                update_type: TagUpdate::State,
                                is_it,
                                minutes: 0,
                                seconds: 0,
                            },
                        );
                        let ghost before = deliveries@;
                        let _ = send_players(self, &players, &packet, &mut deliveries);
                        assert(deliveries_view(deliveries@) =~= deliveries_view(before) + sends_view(players, old(self), packet@));
                        assert(time is None ==> deliveries_view(deliveries@) =~= sends_view(players, old(self), packet@));
                    }
                    self.finish_sends(deliveries, Ok(()), "Updated tag status")
                },
                PlayerCommand::Disconnect {  } => {
                    let ghost all = players is All;
                    let ghost listed = if players is Individual {
                        players->Individual_0@
                    } else {
                        Seq::<Guid>::empty()
                    };
                    let guids = match players.flatten(self) {
                        Ok(v) => v,
                        Err(_) => Vec::new(),
                    };
                    let ghost chosen = chosen_ids(players, old(self));
                    assert(ids_of(guids@) == chosen);
                    assert(deliveries_view(deliveries@) =~= Seq::empty());
                    let plan = self.disconnect_all(&guids, deliveries);
                    assert(deliveries_view(plan.deliveries@) =~= disconnect_sends(chosen, keys(old(self).players_view())));
                    proof {
                        if all {
                            if self.players@.len() > 0 {
                                let k = keys(self.players_view())[0];
                                assert(keys(self.players_view()).contains(k));
                            }
                        } else {
                            assert(guids@ == listed);
                            assert forall|i: int| 0 <= i < listed.len() implies !keys(
                                self.players_view(),
                            ).contains(#[trigger] listed[i].id@) by {
                                assert(ids_of(guids@)[i] == listed[i].id@);
                                assert(ids_of(guids@).contains(listed[i].id@));
                            }
                        }
                    }
                    plan
                },
            },
            ExternalCommand::Shine { command } => match command {
                ShineCommand::Sync => {
                    let pushes = self.sync_all_shines();
                    ExternalPlan {
                        deliveries,
                        shine_pushes: pushes,
                        reply: Ok(String::from_str("Synced shine bags")),
                    }
                },
                ShineCommand::Clear => {
                    self.clear_all_shines();
                    ExternalPlan {
                        deliveries,
                        shine_pushes: Vec::new(),
                        reply: Ok(String::from_str("Shines cleared")),
                    }
                },
            },
        }
    }

    fn finish_sends(&self, deliveries: Vec<Delivery>, res: Result<(), SMOError>, done: &str) -> (r:
        ExternalPlan)
        ensures
            r.deliveries@ == deliveries@,
            r.shine_pushes@.len() == 0,
            res is Ok ==> (r.reply matches Ok(m) && m@ == done@),
            res matches Err(e) ==> r.reply == Err::<String, SMOError>(e),
    {
        let reply = match res {
            Ok(()) => Ok(String::from_str(done)),
            Err(e) => Err(e),
        };
        ExternalPlan { deliveries, shine_pushes: Vec::new(), reply }
    }

    /// Disconnects each listed player still in the table.
    fn disconnect_all(&mut self, guids: &Vec<Guid>, deliveries: Vec<Delivery>) -> (r: ExternalPlan)
        requires
            old(self).wf(),
        ensures
            final(self).wf(),
            final(self).settings == old(self).settings,
            r.reply matches Ok(m) && m@ == "Disconnected players"@,
            r.shine_pushes@.len() == 0,
            final(self).players@.len() <= old(self).players@.len(),
            forall|k: Seq<u8>|
                #[trigger] keys(final(self).players_view()).contains(k) <==> keys(
                    old(self).players_view(),
                ).contains(k) && !ids_of(guids@).contains(k),
            forall|k: Seq<u8>|
                #[trigger] keys(old(self).players_view()).contains(k) && !keys(
                    final(self).players_view(),
                ).contains(k) ==> r.deliveries@.len() > 0,
            deliveries@.len() <= r.deliveries@.len(),
            deliveries_view(r.deliveries@) == deliveries_view(deliveries@) + disconnect_sends(
                ids_of(guids@),
                keys(old(self).players_view()),
            ),
            final(self).names@ == kept_names(
                old(self).names@,
                ids_of(guids@),
                keys(old(self).players_view()),
            ),
            rows_from(final(self).players_view(), old(self).players_view()),
    {
        let mut deliveries = deliveries;
        assert(old(self).names@ =~= kept_names(old(self).names@, ids_of(guids@.take(0)), keys(old(self).players_view())));
        proof {
            lemma_rows_from_self(self.players_view());
        }
        let ghost start_view = deliveries_view(deliveries@);
        assert(ids_of(guids@.take(0)) =~= Seq::<Seq<u8>>::empty());
        assert(start_view + disconnect_sends(ids_of(guids@.take(0)), keys(old(self).players_view())) =~= start_view);
        let ghost start = deliveries@.len();
        let mut i: usize = 0;
        while i < guids.len()
            invariant
                0 <= i <= guids@.len(),
                self.wf(),
                self.settings == old(self).settings,
                self.players@.len() <= old(self).players@.len(),
                start <= deliveries@.len(),
                self.names@ == kept_names(
                    old(self).names@,
                    ids_of(guids@.take(i as int)),
                    keys(old(self).players_view()),
                ),
                rows_from(self.players_view(), old(self).players_view()),
                deliveries_view(deliveries@) == start_view + disconnect_sends(
                    ids_of(guids@.take(i as int)),
                    keys(old(self).players_view()),
                ),
                forall|k: Seq<u8>|
                    #[trigger] keys(self.players_view()).contains(k) <==> keys(
                        old(self).players_view(),
                    ).contains(k) && !ids_of(guids@.take(i as int)).contains(k),
                forall|k: Seq<u8>|
                    #[trigger] keys(old(self).players_view()).contains(k) && !keys(
                        self.players_view(),
                    ).contains(k) ==> deliveries@.len() > 0,
            decreases guids@.len() - i,
        {
            let g = guids[i];
            let ghost before = self.players_view();
            let ghost had = keys(before).contains(g.id@);
            let ghost dv = deliveries_view(deliveries@);
            proof {
                assert(ids_of(guids@.take(i + 1)).drop_last() =~= ids_of(guids@.take(i as int)));
                assert(ids_of(guids@.take(i + 1)).last() == g.id@);
            }
            match self.disconnect_player(&g) {
                Some(p) => {
                    deliveries.push(Delivery::Broadcast(ClientCommand::Packet(p.clone())));
                    deliveries.push(Delivery::Direct(g, ClientCommand::Packet(p)));
                    proof {
                        assert(deliveries_view(deliveries@) =~= dv + seq![
                            (None, false, disconnect_view(g.id@)),
                            (Some(g.id@), false, disconnect_view(g.id@)),
                        ]);
                        let j = choose|j: int|
                            0 <= j < before.len() && before[j].0 == g.id@ && self.players_view()
                                == before.remove(j);
                        assert(keys(self.players_view()) =~= keys(before).remove(j));
                        assert(keys(before)[j] == before[j].0);
                        lemma_keys_remove(keys(before), j, g.id@);
                        lemma_rows_from_remove(before, j, old(self).players_view());
                    }
                },
                None => {},
            }
            proof {
                let t0 = ids_of(guids@.take(i as int));
                let t1 = ids_of(guids@.take(i + 1));
                assert(t1 =~= t0.push(g.id@));
                assert forall|k: Seq<u8>| t1.contains(k) <==> t0.contains(k) || k == g.id@ by {
                    if t1.contains(k) && k != g.id@ {
                        let j = choose|j: int| 0 <= j < t1.len() && t1[j] == k;
                        assert(t0[j] == k);
                    }
                    if t0.contains(k) {
                        let j = choose|j: int| 0 <= j < t0.len() && t0[j] == k;
                        assert(t1[j] == k);
                    }
                    assert(t1[t0.len() as int] == g.id@);
                }
                assert(self.names@ =~= kept_names(old(self).names@, t1, keys(old(self).players_view())));
                assert(had <==> keys(old(self).players_view()).contains(g.id@) && !t0.contains(g.id@));
                if !had {
                    assert(deliveries_view(deliveries@) =~= dv + Seq::<
                        (Option<Seq<u8>>, bool, PacketView),
                    >::empty());
                }
                assert(forall|x: Seq<u8>|
                    #[trigger] keys(self.players_view()).contains(x) <==> keys(before).contains(x)
                        && x != g.id@);
                let t = ids_of(guids@.take(i as int));
                assert(ids_of(guids@.take(i + 1)) =~= t.push(g.id@));
                assert forall|k: Seq<u8>|
                    #[trigger] keys(self.players_view()).contains(k) <==> keys(
                        old(self).players_view(),
                    ).contains(k) && !t.push(g.id@).contains(k) by {
                    if t.push(g.id@).contains(k) && k != g.id@ {
                        let j = choose|j: int| 0 <= j < t.push(g.id@).len() && t.push(g.id@)[j] == k;
                        assert(t[j] == k);
                    }
                    if t.contains(k) {
                        let j = choose|j: int| 0 <= j < t.len() && t[j] == k;
                        assert(t.push(g.id@)[j] == k);
                    }
                    assert(t.push(g.id@)[t.len() as int] == g.id@);
                }
            }
            i = i + 1;
        }
        assert(guids@.take(guids@.len() as int) =~= guids@);
        ExternalPlan {
            deliveries,
            shine_pushes: Vec::new(),
            reply: Ok(String::from_str("Disconnected players")),
        }
    }
}

/// The packet that tells everyone a player has left.
pub open spec fn disconnect_view(k: Seq<u8>) -> PacketView {
    PacketView { id: k, data_size: 0, data: PacketDataView::Disconnect }
}

/// The deliveries of disconnecting the listed players in turn: for each one
/// still in the table, a broadcast and a direct `Disconnect` from them.
pub open spec fn disconnect_sends(ks: Seq<Seq<u8>>, table: Seq<Seq<u8>>) -> Seq<(Option<Seq<u8>>, bool, PacketView)>
    decreases ks.len(),
{
    if ks.len() == 0 {
        seq![]
    } else {
        let k = ks.last();
        disconnect_sends(ks.drop_last(), table) + if table.contains(k) && !ks.drop_last().contains(
            k,
        ) {
            seq![(None, false, disconnect_view(k)), (Some(k), false, disconnect_view(k))]
        } else {
            Seq::<(Option<Seq<u8>>, bool, PacketView)>::empty()
        }
    }
}

/// The identifiers a selection stands for: the table's, or the listed ones.
pub open spec fn chosen_ids(players: Players, lobby: &Lobby) -> Seq<Seq<u8>> {
    match players {
        Players::All => keys(lobby.players_view()),
        Players::Individual(gs) => ids_of(gs@),
    }
}

/// Whether every chosen player is in the table.
pub open spec fn sends_ok(players: Players, lobby: &Lobby) -> bool {
    match players {
        Players::All => true,
        Players::Individual(gs) => first_missing(gs@, keys(lobby.players_view())) is None,
    }
}

/// The deliveries for sending `p` to the chosen players.
pub open spec fn sends_view(players: Players, lobby: &Lobby, p: PacketView) -> Seq<(Option<Seq<u8>>, bool, PacketView)> {
    match players {
        Players::All => seq![(None, true, p)],
        Players::Individual(gs) => direct_sends(gs@, keys(lobby.players_view()), p),
    }
}

/// A plan that sends `p` to the chosen players and replies `done`, or the
/// identifier that was not found.
pub open spec fn sends_of(players: Players, lobby: &Lobby, p: PacketView, done: Seq<char>, r: ExternalPlan) -> bool {
    &&& deliveries_view(r.deliveries@) == sends_view(players, lobby, p)
    &&& r.shine_pushes@.len() == 0
    &&& match players {
        Players::All => r.reply matches Ok(m) && m@ == done,
        Players::Individual(gs) => match first_missing(gs@, keys(lobby.players_view())) {
            Option::None => r.reply matches Ok(m) && m@ == done,
            Option::Some(g) => r.reply == Err::<String, SMOError>(SMOError::InvalidID(g)),
        },
    }
}

} // verus!
