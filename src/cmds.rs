//! Operator commands and player selection.
use crate::errors::SMOError;
use crate::guid::Guid;
use crate::lobby::{keys, Lobby};
use crate::names::{injective, NameMap};
use crate::text::same_text;
use vstd::prelude::*;

verus! {

/// A lobby-wide signal.
#[derive(Debug, Clone, Copy, PartialEq, Eq, Structural)]
pub enum ServerWideCommand {
    Shutdown,
}

/// A request from an operator surface to the coordinator.
#[derive(Debug)]
#[allow(inconsistent_fields)]
pub enum ExternalCommand {
    Player { players: Players, command: PlayerCommand },
    Shine { command: ShineCommand },
}

#[derive(Debug)]
#[allow(inconsistent_fields)]
pub enum PlayerCommand {
    Send { stage: String, id: String, scenario: i8 },
    Disconnect {},
    Crash {},
    Tag { time: Option<(u16, u8)>, is_seeking: Option<bool> },
    SendShine { id: i32 },
}

#[derive(Debug, Clone, Copy, PartialEq, Eq, Structural)]
pub enum ShineCommand {
    Sync,
    Clear,
}

/// The players a command is for: everyone, or the listed ones.
#[derive(Debug)]
pub enum Players {
    All,
    Individual(Vec<Guid>),
}

/// The first listed identifier that is not in the table, if any.
pub open spec fn first_missing(gs: Seq<Guid>, table: Seq<Seq<u8>>) -> Option<Guid>
    decreases gs.len(),
{
    if gs.len() == 0 {
        None
    } else if !table.contains(gs[0].id@) {
        Some(gs[0])
    } else {
        first_missing(gs.drop_first(), table)
    }
}

/// The identifiers of a list, by their bytes.
pub open spec fn ids_of(v: Seq<Guid>) -> Seq<Seq<u8>> {
    v.map_values(|g: Guid| g.id@)
}

/// The table's identifiers as values.
pub fn table_guids(lobby: &Lobby) -> (r: Vec<Guid>)
    ensures
        ids_of(r@) == keys(lobby.players_view()),
{
    let mut out: Vec<Guid> = Vec::new();
    let mut i: usize = 0;
    while i < lobby.players.len()
        invariant
            0 <= i <= lobby.players@.len(),
            ids_of(out@) == keys(lobby.players_view()).take(i as int),
        decreases lobby.players@.len() - i,
    {
        assert(keys(lobby.players_view())[i as int] == lobby.players@[i as int].guid.id@);
        let ghost before = out@;
        out.push(lobby.players[i].guid);
        assert(ids_of(out@) =~= ids_of(before).push(lobby.players@[i as int].guid.id@));
        assert(keys(lobby.players_view()).take(i + 1) =~= keys(lobby.players_view()).take(
            i as int,
        ).push(lobby.players@[i as int].guid.id@));
        i = i + 1;
    }
    assert(keys(lobby.players_view()).take(lobby.players@.len() as int) =~= keys(
        lobby.players_view(),
    ));
    out
}

impl Players {
    /// The identifiers meant: the whole table, or the list as given.
    pub fn flatten(self, lobby: &Lobby) -> (r: Result<Vec<Guid>, SMOError>)
        ensures
            r is Ok,
            r matches Ok(v) ==> match self {
                Players::All => ids_of(v@) == keys(lobby.players_view()),
                Players::Individual(p) => v@ == p@,
            },
    {
        match self {
            Players::All => Ok(table_guids(lobby)),
            Players::Individual(p) => Ok(p),
        }
    }

    /// Fails with the first listed identifier that is not in the table.
    pub fn verify(&self, lobby: &Lobby) -> (r: Result<(), SMOError>)
        ensures
            self is All ==> r is Ok,
            self matches Players::Individual(p) ==> (r is Ok <==> first_missing(
                p@,
                keys(lobby.players_view()),
            ) is None),
            self matches Players::Individual(p) ==> (r matches Err(e) ==> first_missing(
                p@,
                keys(lobby.players_view()),
            ) matches Some(g) && e == SMOError::InvalidID(g)),
    {
        match self {
            Players::All => Ok(()),
            Players::Individual(p) => {
                let mut i: usize = 0;
                assert(p@.skip(0) =~= p@);
                while i < p.len()
                    invariant
                        0 <= i <= p@.len(),
                        self matches Players::Individual(q) && q@ == p@,
                        first_missing(p@, keys(lobby.players_view())) == first_missing(
                            p@.skip(i as int),
                            keys(lobby.players_view()),
                        ),
                    decreases p@.len() - i,
                {
                    assert(p@.skip(i as int).drop_first() =~= p@.skip(i + 1));
                    assert(p@.skip(i as int)[0] == p@[i as int]);
                    if lobby.find(&p[i]).is_none() {
                        assert(first_missing(p@.skip(i as int), keys(lobby.players_view())) == Some(
                            p@[i as int],
                        ));
                        return Err(SMOError::InvalidID(p[i]));
                    }
                    i = i + 1;
                }
                assert(p@.skip(p@.len() as int) =~= Seq::<Guid>::empty());
                Ok(())
            },
        }
    }
}

/// Players picked by name or identifier: all, the listed, or all but the listed.
#[derive(Debug, Clone)]
pub enum PlayerSelect<T> {
    AllPlayers,
    SelectPlayers(Vec<T>),
    ExcludePlayers(Vec<T>),
}

impl<T> PlayerSelect<T> {
    /// The complement of a selection. An empty pick becomes everyone; a pick
    /// of some becomes everyone but them, and the other way round.
    pub fn not(self) -> (r: Self)
        ensures
            match self {
                PlayerSelect::AllPlayers => r matches PlayerSelect::ExcludePlayers(v) && v@.len()
                    == 0,
                PlayerSelect::SelectPlayers(p) => if p@.len() == 0 {
                    r is AllPlayers
                } else {
                    r matches PlayerSelect::ExcludePlayers(v) && v@ == p@
                },
                PlayerSelect::ExcludePlayers(p) => r matches PlayerSelect::SelectPlayers(v) && v@
                    == p@,
            },
    {
        match self {
            PlayerSelect::AllPlayers => PlayerSelect::ExcludePlayers(Vec::new()),
            PlayerSelect::SelectPlayers(p) => {
                if p.len() == 0 {
                    PlayerSelect::AllPlayers
                } else {
                    PlayerSelect::ExcludePlayers(p)
                }
            },
            PlayerSelect::ExcludePlayers(p) => PlayerSelect::SelectPlayers(p),
        }
    }
}

/// The identifiers of `table` that `exclude` does not list, in table order.
pub open spec fn all_but(table: Seq<Seq<u8>>, exclude: Seq<Guid>) -> Seq<Seq<u8>> {
    table.filter(|k: Seq<u8>| !(exists|j: int| 0 <= j < exclude.len() && exclude[j].id@ == k))
}

impl PlayerSelect<Guid> {
    /// Resolves a selection against the table: everyone, the listed (all of
    /// whom must be present), or the table without the listed.
    pub fn into_guid_vec(self, lobby: &Lobby) -> (r: Result<Players, SMOError>)
        ensures
            match self {
                PlayerSelect::AllPlayers => r matches Ok(Players::All),
                PlayerSelect::SelectPlayers(p) => match first_missing(
                    p@,
                    keys(lobby.players_view()),
                ) {
                    Option::None => r matches Ok(Players::Individual(v)) && v@ == p@,
                    Option::Some(g) => r matches Err(SMOError::InvalidID(id)) && id.id@ == g.id@,
                },
                PlayerSelect::ExcludePlayers(p) => r matches Ok(Players::Individual(v)) && ids_of(v@) == all_but(keys(lobby.players_view()), p@),
            },
    {
        match self {
            PlayerSelect::AllPlayers => Ok(Players::All),
            PlayerSelect::SelectPlayers(p) => {
                let players = Players::Individual(p);
                match players.verify(lobby) {
                    Ok(()) => Ok(players),
                    Err(e) => Err(e),
                }
            },
            PlayerSelect::ExcludePlayers(p) => {
                let table = table_guids(lobby);
                let ghost tk = keys(lobby.players_view());
                let mut out: Vec<Guid> = Vec::new();
                let mut i: usize = 0;
                proof {
                    reveal(Seq::filter);
                    assert(ids_of(out@) =~= all_but(tk.take(0), p@));
                }
                while i < table.len()
                    invariant
                        0 <= i <= table@.len(),
                        ids_of(table@) == tk,
                        ids_of(out@) == all_but(tk.take(i as int), p@),
                    decreases table@.len() - i,
                {
                    let g = table[i];
                    assert(tk.take(i + 1) =~= tk.take(i as int).push(g.id@));
                    assert(tk[i as int] == g.id@);
                    let skip = crate::settings::guid_listed(&p, &g);
                    proof {
                        reveal(Seq::filter);
                        assert(tk.take(i + 1).drop_last() =~= tk.take(i as int));
                    }
                    if !skip {
                        out.push(g);
                    }
                    i = i + 1;
                    assert(ids_of(out@) =~= all_but(tk.take(i as int), p@));
                }
                assert(tk.take(table@.len() as int) =~= tk);
                Ok(Players::Individual(out))
            },
        }
    }
}

/// The texts of a list of strings.
pub open spec fn texts(v: Seq<String>) -> Seq<Seq<char>> {
    v.map_values(|s: String| s@)
}

/// The identifiers registered under the picked names, in order; names nobody
/// has are skipped.
pub open spec fn known_ids(names: Map<Seq<u8>, Seq<char>>, picked: Seq<Seq<char>>) -> Seq<Seq<u8>>
    decreases picked.len(),
{
    if picked.len() == 0 {
        seq![]
    } else {
        let rest = known_ids(names, picked.drop_last());
        let n = picked.last();
        if names.values().contains(n) {
            rest.push(choose|k: Seq<u8>| names.dom().contains(k) && names[k] == n)
        } else {
            rest
        }
    }
}

/// The first picked name that nobody holds, if any.
pub open spec fn first_unknown(names: Map<Seq<u8>, Seq<char>>, picked: Seq<Seq<char>>) -> Option<Seq<char>>
    decreases picked.len(),
{
    if picked.len() == 0 {
        None
    } else if !names.values().contains(picked[0]) {
        Some(picked[0])
    } else {
        first_unknown(names, picked.drop_first())
    }
}

impl PlayerSelect<String> {
    /// Replaces names by identifiers; a name nobody holds is an error.
    pub fn into_guid_select(self, names: &NameMap) -> (r: Result<PlayerSelect<Guid>, SMOError>)
        requires
            injective(names@),
        ensures
            self is AllPlayers ==> r matches Ok(PlayerSelect::AllPlayers),
            self matches PlayerSelect::SelectPlayers(p) ==> (r is Ok <==> first_unknown(
                names@,
                texts(p@),
            ) is None),
            self matches PlayerSelect::ExcludePlayers(p) ==> (r is Ok <==> first_unknown(
                names@,
                texts(p@),
            ) is None),
            self matches PlayerSelect::SelectPlayers(p) ==> (r matches Ok(s) ==> s matches PlayerSelect::SelectPlayers(v)
                && ids_of(v@) == known_ids(names@, texts(p@))),
            self matches PlayerSelect::ExcludePlayers(p) ==> (r matches Ok(s) ==> s matches PlayerSelect::ExcludePlayers(v)
                && ids_of(v@) == known_ids(names@, texts(p@))),
            self matches PlayerSelect::SelectPlayers(p) ==> (r matches Err(e) ==> e matches SMOError::InvalidName(n)
                && first_unknown(names@, texts(p@)) == Some(n@)),
            self matches PlayerSelect::ExcludePlayers(p) ==> (r matches Err(e) ==> e matches SMOError::InvalidName(n)
                && first_unknown(names@, texts(p@)) == Some(n@)),
    {
        match self {
            PlayerSelect::AllPlayers => Ok(PlayerSelect::AllPlayers),
            PlayerSelect::SelectPlayers(p) => match guids_of(names, &p) {
                Ok(v) => Ok(PlayerSelect::SelectPlayers(v)),
                Err(e) => Err(e),
            },
            PlayerSelect::ExcludePlayers(p) => match guids_of(names, &p) {
                Ok(v) => Ok(PlayerSelect::ExcludePlayers(v)),
                Err(e) => Err(e),
            },
        }
    }
}

/// The identifiers of the picked names, in order; the first name nobody
/// holds is an error.
pub fn guids_of(names: &NameMap, picked: &Vec<String>) -> (r: Result<Vec<Guid>, SMOError>)
    requires
        injective(names@),
    ensures
        r is Ok <==> first_unknown(names@, texts(picked@)) is None,
        r matches Ok(v) ==> ids_of(v@) == known_ids(names@, texts(picked@)),
        r matches Err(e) ==> e matches SMOError::InvalidName(n) && first_unknown(
            names@,
            texts(picked@),
        ) == Some(n@),
{
    let mut out: Vec<Guid> = Vec::new();
    let mut i: usize = 0;
    assert(texts(picked@).skip(0) =~= texts(picked@));
    while i < picked.len()
        invariant
            0 <= i <= picked@.len(),
            injective(names@),
            ids_of(out@) == known_ids(names@, texts(picked@).take(i as int)),
            first_unknown(names@, texts(picked@)) == first_unknown(
                names@,
                texts(picked@).skip(i as int),
            ),
        decreases picked@.len() - i,
    {
        let ghost before = out@;
        assert(texts(picked@).take(i + 1).drop_last() =~= texts(picked@).take(i as int));
        assert(texts(picked@).take(i + 1).last() == picked@[i as int]@);
        assert(texts(picked@).skip(i as int).drop_first() =~= texts(picked@).skip(i + 1));
        assert(texts(picked@).skip(i as int)[0] == picked@[i as int]@);
        match names.guid_of(&picked[i]) {
            Some(g) => {
                proof {
                    let n = picked@[i as int]@;
                    let k = choose|k: Seq<u8>| names@.dom().contains(k) && names@[k] == n;
                    assert(names@.dom().contains(k) && names@[k] == n);
                    assert(names@[k] == names@[g.id@]);
                }
                out.push(g);
                assert(ids_of(out@) =~= ids_of(before).push(g.id@));
            },
            None => {
                return Err(SMOError::InvalidName(picked[i].clone()));
            },
        }
        i = i + 1;
    }
    assert(texts(picked@).take(picked@.len() as int) =~= texts(picked@));
    assert(texts(picked@).skip(picked@.len() as int) =~= Seq::<Seq<char>>::empty());
    Ok(out)
}

/// One word of a console player list: a name, `!` (all but the rest) or `*`.
#[derive(Debug, Clone)]
pub enum SinglePlayerSelect {
    Player(String),
    Negate,
    AllPlayers,
}

impl SinglePlayerSelect {
    /// The word this selector is written as.
    pub fn to_text(&self) -> (r: String)
        ensures
            match self {
                SinglePlayerSelect::Player(p) => r@ == p@,
                SinglePlayerSelect::Negate => r@ == "!"@,
                SinglePlayerSelect::AllPlayers => r@ == "*"@,
            },
    {
        match self {
            SinglePlayerSelect::Player(p) => p.clone(),
            SinglePlayerSelect::Negate => String::from_str("!"),
            SinglePlayerSelect::AllPlayers => String::from_str("*"),
        }
    }

    /// Reads one word: `*`, `!`, or a name.
    pub fn parse(s: &str) -> (r: SinglePlayerSelect)
        ensures
            s@ == "*"@ ==> r is AllPlayers,
            s@ == "!"@ ==> r is Negate,
            s@ != "*"@ && s@ != "!"@ ==> (r matches SinglePlayerSelect::Player(p) && p@ == s@),
    {
        proof {
            reveal_strlit("*");
            reveal_strlit("!");
            assert("*"@[0] != "!"@[0]);
        }
        if same_text(s, "*") {
            SinglePlayerSelect::AllPlayers
        } else if same_text(s, "!") {
            SinglePlayerSelect::Negate
        } else {
            SinglePlayerSelect::Player(s.to_owned())
        }
    }
}

/// The word a selector is written as.
pub open spec fn selector_text(s: SinglePlayerSelect) -> Seq<char> {
    match s {
        SinglePlayerSelect::Player(p) => p@,
        SinglePlayerSelect::Negate => "!"@,
        SinglePlayerSelect::AllPlayers => "*"@,
    }
}

/// The words of a list of selectors.
pub open spec fn selector_texts(v: Seq<SinglePlayerSelect>) -> Seq<Seq<char>> {
    v.map_values(|s: SinglePlayerSelect| selector_text(s))
}

/// The words of a selector list from `from` on, as names.
fn selector_names(players: &[SinglePlayerSelect], from: usize) -> (r: Vec<String>)
    requires
        from <= players@.len(),
    ensures
        texts(r@) == selector_texts(players@.skip(from as int)),
{
    let mut out: Vec<String> = Vec::new();
    let mut i: usize = from;
    while i < players.len()
        invariant
            from <= i <= players@.len(),
            texts(out@) == selector_texts(players@.subrange(from as int, i as int)),
        decreases players@.len() - i,
    {
        let t = players[i].to_text();
        let ghost prev = out@;
        out.push(t);
        assert(texts(out@) =~= texts(prev).push(t@));
        assert(selector_texts(players@.subrange(from as int, i + 1)) =~= selector_texts(
            players@.subrange(from as int, i as int),
        ).push(selector_text(players@[i as int])));
        i = i + 1;
    }
    assert(players@.subrange(from as int, players@.len() as int) =~= players@.skip(from as int));
    out
}

impl PlayerSelect<String> {
    /// Reads a console player list: `*` first means everyone; `!` first
    /// means everyone but the names after it (everyone if none follow);
    /// otherwise the words are the names picked.
    pub fn from_selectors(players: &[SinglePlayerSelect]) -> (r: PlayerSelect<String>)
        ensures
            players@.len() > 0 && players@[0] is AllPlayers ==> r is AllPlayers,
            players@.len() == 1 && players@[0] is Negate ==> r is AllPlayers,
            players@.len() > 1 && players@[0] is Negate ==> (r matches PlayerSelect::ExcludePlayers(v)
                && texts(v@) == selector_texts(players@.skip(1))),
            (players@.len() == 0 || players@[0] is Player) ==> (r matches PlayerSelect::SelectPlayers(v)
                && texts(v@) == selector_texts(players@)),
    {
        if players.len() > 0 {
            match &players[0] {
                SinglePlayerSelect::AllPlayers => {
                    return PlayerSelect::AllPlayers;
                },
                SinglePlayerSelect::Negate => {
                    let rest = selector_names(players, 1);
                    assert(texts(rest@).len() == rest@.len());
                    if rest.len() == 0 {
                        return PlayerSelect::AllPlayers;
                    } else {
                        return PlayerSelect::ExcludePlayers(rest);
                    }
                },
                SinglePlayerSelect::Player(_) => {},
            }
        }
        let all = selector_names(players, 0);
        assert(players@.skip(0) =~= players@);
        PlayerSelect::SelectPlayers(all)
    }
}

/// The short names of the kingdoms' home stages.
pub open spec fn stage_alias(alias: Seq<char>) -> Option<Seq<char>> {
    if alias == "cap"@ {
        Some("CapWorldHomeStage"@)
    } else if alias == "cascade"@ {
        Some("WaterfallWorldHomeStage"@)
    } else if alias == "sand"@ {
        Some("SandWorldHomeStage"@)
    } else if alias == "lake"@ {
        Some("LakeWorldHomeStage"@)
    } else if alias == "wooded"@ {
        Some("ForestWorldHomeStage"@)
    } else if alias == "cloud"@ {
        Some("CloudWorldHomeStage"@)
    } else if alias == "lost"@ {
        Some("ClashWorldHomeStage"@)
    } else if alias == "metro"@ {
        Some("CityWorldHomeStage"@)
    } else if alias == "sea"@ {
        Some("SeaWorldHomeStage"@)
    } else if alias == "snow"@ {
        Some("SnowWorldHomeStage"@)
    } else if alias == "lunch"@ {
        Some("LavaWorldHomeStage"@)
    } else if alias == "ruined"@ {
        Some("BossRaidWorldHomeStage"@)
    } else if alias == "bowser"@ {
        Some("SkyWorldHomeStage"@)
    } else if alias == "moon"@ {
        Some("MoonWorldHomeStage"@)
    } else if alias == "mush"@ {
        Some("PeachWorldHomeStage"@)
    } else if alias == "dark"@ {
        Some("Special1WorldHomeStage"@)
    } else if alias == "darker"@ {
        Some("Special2WorldHomeStage"@)
    } else {
        None
    }
}

/// The stage a short kingdom name stands for.
pub fn unalias_map(alias: &str) -> (r: Option<String>)
    ensures
        match stage_alias(alias@) {
            Some(s) => r matches Some(t) && t@ == s,
            None => r is None,
        },
{
    if same_text(alias, "cap") {
        Some(String::from_str("CapWorldHomeStage"))
    } else if same_text(alias, "cascade") {
        Some(String::from_str("WaterfallWorldHomeStage"))
    } else if same_text(alias, "sand") {
        Some(String::from_str("SandWorldHomeStage"))
    } else if same_text(alias, "lake") {
        Some(String::from_str("LakeWorldHomeStage"))
    } else if same_text(alias, "wooded") {
        Some(String::from_str("ForestWorldHomeStage"))
    } else if same_text(alias, "cloud") {
        Some(String::from_str("CloudWorldHomeStage"))
    } else if same_text(alias, "lost") {
        Some(String::from_str("ClashWorldHomeStage"))
    } else if same_text(alias, "metro") {
        Some(String::from_str("CityWorldHomeStage"))
    } else if same_text(alias, "sea") {
        Some(String::from_str("SeaWorldHomeStage"))
    } else if same_text(alias, "snow") {
        Some(String::from_str("SnowWorldHomeStage"))
    } else if same_text(alias, "lunch") {
        Some(String::from_str("LavaWorldHomeStage"))
    } else if same_text(alias, "ruined") {
        Some(String::from_str("BossRaidWorldHomeStage"))
    } else if same_text(alias, "bowser") {
        Some(String::from_str("SkyWorldHomeStage"))
    } else if same_text(alias, "moon") {
        Some(String::from_str("MoonWorldHomeStage"))
    } else if same_text(alias, "mush") {
        Some(String::from_str("PeachWorldHomeStage"))
    } else if same_text(alias, "dark") {
        Some(String::from_str("Special1WorldHomeStage"))
    } else if same_text(alias, "darker") {
        Some(String::from_str("Special2WorldHomeStage"))
    } else {
        None
    }
}

} // verus!
