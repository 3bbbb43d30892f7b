//! The operator-editable settings the relay core reads.
use crate::errors::SMOError;
use crate::guid::Guid;
use crate::text::same_text;
use vstd::prelude::*;

verus! {

/// Whether `g` is one of the identifiers in `list`.
pub open spec fn listed(list: Seq<Guid>, g: Guid) -> bool {
    exists|i: int| 0 <= i < list.len() && list[i].id@ == g.id@
}

/// Whether `g` is one of the identifiers in `list`.
pub fn guid_listed(list: &Vec<Guid>, g: &Guid) -> (r: bool)
    ensures
        r == listed(list@, *g),
{
    let mut i: usize = 0;
    while i < list.len()
        invariant
            0 <= i <= list@.len(),
            forall|j: int| 0 <= j < i ==> list@[j].id@ != g.id@,
        decreases list@.len() - i,
    {
        if list[i] == *g {
            return true;
        }
        i = i + 1;
    }
    false
}

/// Whose view the flip rewrite changes: everyone's, the flipped player's
/// own, or the others'.
#[derive(Debug, Clone, Copy, PartialEq, Eq, Structural)]
pub enum FlipPovSettings {
    Both,
    Player,
    Others,
}

impl FlipPovSettings {
    /// A flipped player sees the others flipped.
    pub fn is_self_flip(&self) -> (r: bool)
        ensures
            r == (*self == FlipPovSettings::Both || *self == FlipPovSettings::Player),
    {
        match self {
            FlipPovSettings::Both | FlipPovSettings::Player => true,
            FlipPovSettings::Others => false,
        }
    }

    /// The others see a flipped player flipped.
    pub fn is_others_flip(&self) -> (r: bool)
        ensures
            r == (*self == FlipPovSettings::Both || *self == FlipPovSettings::Others),
    {
        match self {
            FlipPovSettings::Both | FlipPovSettings::Others => true,
            FlipPovSettings::Player => false,
        }
    }

    /// Reads `both`, `self` (or `players`) and `others`.
    pub fn parse(s: &str) -> (r: Result<FlipPovSettings, SMOError>)
        ensures
            s@ == "both"@ ==> r == Ok::<FlipPovSettings, SMOError>(FlipPovSettings::Both),
            (s@ == "self"@ || s@ == "players"@) ==> r == Ok::<FlipPovSettings, SMOError>(
                FlipPovSettings::Player,
            ),
            s@ == "others"@ ==> r == Ok::<FlipPovSettings, SMOError>(FlipPovSettings::Others),
            !(s@ == "both"@ || s@ == "self"@ || s@ == "players"@ || s@ == "others"@) ==> (
            r matches Err(SMOError::InvalidConsoleArg(m)) && m@ == "Invalid Flip POV Settings"@),
    {
        proof {
            reveal_strlit("both");
            reveal_strlit("self");
            reveal_strlit("players");
            reveal_strlit("others");
            assert("both"@[0] == 'b' && "self"@[0] == 's' && "players"@[0] == 'p' && "others"@[0]
                == 'o');
        }
        if same_text(s, "both") {
            Ok(FlipPovSettings::Both)
        } else if same_text(s, "self") || same_text(s, "players") {
            Ok(FlipPovSettings::Player)
        } else if same_text(s, "others") {
            Ok(FlipPovSettings::Others)
        } else {
            Err(SMOError::InvalidConsoleArg(String::from_str("Invalid Flip POV Settings")))
        }
    }

    /// The word `parse` reads for this value.
    pub fn to_text(&self) -> (r: String)
        ensures
            *self == FlipPovSettings::Both ==> r@ == "both"@,
            *self == FlipPovSettings::Player ==> r@ == "self"@,
            *self == FlipPovSettings::Others ==> r@ == "others"@,
    {
        match self {
            FlipPovSettings::Both => String::from_str("both"),
            FlipPovSettings::Player => String::from_str("self"),
            FlipPovSettings::Others => String::from_str("others"),
        }
    }
}

impl Default for FlipPovSettings {
    fn default() -> (r: FlipPovSettings)
        ensures
            r == FlipPovSettings::Both,
    {
        FlipPovSettings::Both
    }
}

/// Listen endpoint and admission cap.
#[derive(Debug, Clone)]
pub struct ServerSettings {
    pub address: String,
    pub port: u16,
    pub max_players: u16,
}

impl Default for ServerSettings {
    fn default() -> (r: ServerSettings)
        ensures
            r.address@ == "0.0.0.0"@,
            r.port == 1027,
            r.max_players == 8,
    {
        ServerSettings { address: String::from_str("0.0.0.0"), port: 1027, max_players: 8 }
    }
}

/// Which players are flipped, and for whom.
#[derive(Debug, Clone)]
pub struct FlipSettings {
    pub enabled: bool,
    pub players: Vec<Guid>,
    pub pov: FlipPovSettings,
}

impl Default for FlipSettings {
    fn default() -> (r: FlipSettings)
        ensures
            r.enabled,
            r.players@.len() == 0,
            r.pov == FlipPovSettings::Both,
    {
        FlipSettings { enabled: true, players: Vec::new(), pov: FlipPovSettings::Both }
    }
}

#[derive(Debug, Clone, Copy, PartialEq, Eq, Structural)]
pub struct ScenarioSettings {
    pub merge_enabled: bool,
}

impl Default for ScenarioSettings {
    fn default() -> (r: ScenarioSettings)
        ensures
            !r.merge_enabled,
    {
        ScenarioSettings { merge_enabled: false }
    }
}

/// Identifiers and addresses that are refused. Addresses are IPv6 numbers;
/// an IPv4 address stands as its IPv4-mapped form.
#[derive(Debug, Clone)]
pub struct BanListSettings {
    pub enabled: bool,
    pub players: Vec<Guid>,
    pub ip_addresses: Vec<u128>,
}

impl Default for BanListSettings {
    fn default() -> (r: BanListSettings)
        ensures
            !r.enabled,
            r.players@.len() == 0,
            r.ip_addresses@.len() == 0,
    {
        BanListSettings { enabled: false, players: Vec::new(), ip_addresses: Vec::new() }
    }
}

#[derive(Debug, Clone)]
pub struct DiscordSettings {
    pub token: Option<String>,
    pub prefix: String,
    pub log_channel: Option<String>,
}

impl Default for DiscordSettings {
    fn default() -> (r: DiscordSettings)
        ensures
            r.token is None,
            r.prefix@ == "$"@,
            r.log_channel is None,
    {
        DiscordSettings { token: None, prefix: String::from_str("$"), log_channel: None }
    }
}

#[derive(Debug, Clone)]
pub struct PersistShine {
    pub enabled: bool,
    pub filename: String,
}

impl Default for PersistShine {
    fn default() -> (r: PersistShine)
        ensures
            !r.enabled,
            r.filename@ == "./moons.json"@,
    {
        PersistShine { enabled: false, filename: String::from_str("./moons.json") }
    }
}

#[derive(Debug, Clone, Copy, PartialEq, Eq, Structural)]
pub struct Udp {
    pub initiate_handshake: bool,
    pub base_port: u32,
    pub port_count: u32,
}

impl Default for Udp {
    fn default() -> (r: Udp)
        ensures
            !r.initiate_handshake,
            r.base_port == 0,
            r.port_count == 1,
    {
        Udp { initiate_handshake: false, base_port: 0, port_count: 1 }
    }
}

#[derive(Debug, Clone, Copy, PartialEq, Eq, Structural)]
pub struct ShineSettings {
    pub enabled: bool,
}

impl Default for ShineSettings {
    fn default() -> (r: ShineSettings)
        ensures
            r.enabled,
    {
        ShineSettings { enabled: true }
    }
}

/// The control channel: each token with the permissions it grants.
#[derive(Debug, Clone)]
pub struct JsonApiSettings {
    pub enabled: bool,
    pub port: u16,
    pub tokens: Vec<(String, Vec<String>)>,
}

impl Default for JsonApiSettings {
    fn default() -> (r: JsonApiSettings)
        ensures
            !r.enabled,
            r.port == 12,
            r.tokens@.len() == 0,
    {
        JsonApiSettings { enabled: false, port: 12, tokens: Vec::new() }
    }
}

#[derive(Debug, Clone)]
pub struct Settings {
    pub server: ServerSettings,
    pub flip: FlipSettings,
    pub scenario: ScenarioSettings,
    pub ban_list: BanListSettings,
    pub discord: DiscordSettings,
    pub persist_shines: PersistShine,
    pub udp: Udp,
    pub shines: ShineSettings,
    pub json_api: JsonApiSettings,
}

impl Default for Settings {
    fn default() -> (r: Settings)
        ensures
            r.server.max_players == 8,
            r.flip.enabled && r.flip.players@.len() == 0,
            !r.scenario.merge_enabled,
            r.ban_list.players@.len() == 0 && r.ban_list.ip_addresses@.len() == 0,
            !r.persist_shines.enabled,
            !r.udp.initiate_handshake,
            r.shines.enabled,
            !r.json_api.enabled,
    {
        Settings {
            server: ServerSettings::default(),
            flip: FlipSettings::default(),
            scenario: ScenarioSettings::default(),
            ban_list: BanListSettings::default(),
            discord: DiscordSettings::default(),
            persist_shines: PersistShine::default(),
            udp: Udp::default(),
            shines: ShineSettings::default(),
            json_api: JsonApiSettings::default(),
        }
    }
}

} // verus!
