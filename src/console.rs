//! The console's command set and the rules it applies before asking the
//! coordinator.
use crate::cmds::{unalias_map, stage_alias, SinglePlayerSelect};
use crate::errors::SMOError;
use crate::guid::Guid;
use crate::settings::{listed, FlipPovSettings, FlipSettings};
use vstd::prelude::*;

verus! {

/// One console command.
#[derive(Debug, Clone)]
pub enum ConsoleCommand {
    SendAll { force: bool, stage: String },
    Send { force: bool, stage: String, id: String, scenario: i8, players: Vec<SinglePlayerSelect> },
    Ban { players: Vec<SinglePlayerSelect> },
    Crash { players: Vec<SinglePlayerSelect> },
    Rejoin { players: Vec<SinglePlayerSelect> },
    Scenario(ScenarioCommand),
    Tag(TagCommand),
    MaxPlayers { player_count: u16 },
    List,
    Flip(FlipCommand),
    Shine(ShineArg),
    Udp(UdpCommand),
    LoadSettings,
    Restart,
}

#[derive(Debug, Clone)]
pub enum ScenarioCommand {
    Merge { enabled: Option<bool> },
}

#[derive(Debug, Clone)]
pub enum TagCommand {
    Time { player: SinglePlayerSelect, minutes: u16, seconds: u8 },
    Seeking { player: SinglePlayerSelect, is_seeking: bool },
    Start { countdown: u8, seekers: Vec<SinglePlayerSelect> },
}

#[derive(Debug, Clone)]
pub enum FlipCommand {
    List,
    Add { player: Guid },
    Remove { player: Guid },
    SetEnabled { is_flipped: bool },
    Pov { value: FlipPovSettings },
}

#[derive(Debug, Clone)]
pub enum ShineArg {
    List,
    Clear,
    Sync,
    Send { id: i32, player: SinglePlayerSelect },
    SetEnabled { should_sync: bool },
}

#[derive(Debug, Clone)]
pub enum UdpCommand {
    Init { player: SinglePlayerSelect },
    Auto { should_auto: bool },
}

/// A parsed console line.
#[derive(Debug, Clone)]
pub struct Cli {
    pub cmd: ConsoleCommand,
}

/// The stage a console argument names: a known short name, or, when forced,
/// the argument itself.
pub fn resolve_stage(stage: &str, force: bool) -> (r: Result<String, SMOError>)
    ensures
        stage_alias(stage@) matches Some(s) ==> (r matches Ok(t) && t@ == s),
        stage_alias(stage@) is None && force ==> (r matches Ok(t) && t@ == stage@),
        stage_alias(stage@) is None && !force ==> (r matches Err(SMOError::InvalidConsoleArg(m))
            && m@ == "Invalid stage name."@),
{
    match unalias_map(stage) {
        Some(s) => Ok(s),
        None => {
            if force {
                Ok(stage.to_owned())
            } else {
                Err(SMOError::InvalidConsoleArg(String::from_str("Invalid stage name.")))
            }
        },
    }
}

/// A tag time is refused when its seconds are not below sixty.
pub fn check_tag_seconds(seconds: u8) -> (r: Result<(), SMOError>)
    ensures
        seconds < 60 ==> r is Ok,
        seconds >= 60 ==> (r matches Err(SMOError::InvalidConsoleArg(m)) && m@
            == "Invalid number of seconds"@),
{
    if seconds >= 60 {
        Err(SMOError::InvalidConsoleArg(String::from_str("Invalid number of seconds")))
    } else {
        Ok(())
    }
}

/// Adds a player to the flipped ones; nothing changes if they are listed.
pub fn add_flip_player(flip: &mut FlipSettings, g: Guid)
    ensures
        final(flip).enabled == old(flip).enabled,
        final(flip).pov == old(flip).pov,
        forall|h: Guid| listed(final(flip).players@, h) <==> listed(old(flip).players@, h) || h.id@ == g.id@,
{
    if !crate::settings::guid_listed(&flip.players, &g) {
        let ghost before = flip.players@;
        flip.players.push(g);
        assert forall|h: Guid| listed(flip.players@, h) <==> listed(before, h) || h.id@ == g.id@ by {
            if listed(flip.players@, h) {
                let i = choose|i: int| 0 <= i < flip.players@.len() && flip.players@[i].id@ == h.id@;
                if i < before.len() {
                    assert(before[i].id@ == h.id@);
                }
            }
            if listed(before, h) {
                let i = choose|i: int| 0 <= i < before.len() && before[i].id@ == h.id@;
                assert(flip.players@[i].id@ == h.id@);
            }
            if h.id@ == g.id@ {
                assert(flip.players@[before.len() as int].id@ == h.id@);
            }
        }
    }
}

/// Removes every entry of a player from the flipped ones; returns whether
/// they were listed.
pub fn remove_flip_player(flip: &mut FlipSettings, g: &Guid) -> (r: bool)
    ensures
        r == listed(old(flip).players@, *g),
        final(flip).enabled == old(flip).enabled,
        final(flip).pov == old(flip).pov,
        forall|h: Guid| listed(final(flip).players@, h) <==> listed(old(flip).players@, h) && h.id@ != g.id@,
{
    let mut kept: Vec<Guid> = Vec::new();
    let mut found = false;
    let mut i: usize = 0;
    while i < flip.players.len()
        invariant
            0 <= i <= flip.players@.len(),
            found == (exists|j: int| 0 <= j < i && flip.players@[j].id@ == g.id@),
            forall|h: Guid| listed(kept@, h) <==> (exists|j: int| 0 <= j < i && flip.players@[j].id@ == h.id@) && h.id@ != g.id@,
        decreases flip.players@.len() - i,
    {
        let x = flip.players[i];
        let ghost before = kept@;
        if x == *g {
            found = true;
        } else {
            kept.push(x);
        }
        assert forall|h: Guid| listed(kept@, h) <==> (exists|j: int| 0 <= j < i + 1 && flip.players@[j].id@ == h.id@) && h.id@ != g.id@ by {
            if listed(kept@, h) {
                let k = choose|k: int| 0 <= k < kept@.len() && kept@[k].id@ == h.id@;
                if k < before.len() {
                    assert(listed(before, h));
                } else {
                    assert(flip.players@[i as int].id@ == h.id@);
                }
            }
            if (exists|j: int| 0 <= j < i + 1 && flip.players@[j].id@ == h.id@) && h.id@ != g.id@ {
                let j = choose|j: int| 0 <= j < i + 1 && flip.players@[j].id@ == h.id@;
                if j < i {
                    assert(listed(before, h));
                    let k = choose|k: int| 0 <= k < before.len() && before[k].id@ == h.id@;
                    assert(kept@[k].id@ == h.id@);
                } else {
                    assert(kept@[kept@.len() - 1].id@ == h.id@);
                }
            }
        }
        i = i + 1;
    }
    flip.players = kept;
    found
}

/// What the console does with a command that only reads or changes settings.
#[derive(Debug)]
pub enum ConsoleStep {
    /// Print `text`; write the settings file first when `save` is set.
    Reply { text: String, save: bool },
    /// The command needs the coordinator or the disk.
    Other,
}

pub open spec fn on_off(b: bool, on: Seq<char>, off: Seq<char>) -> Seq<char> {
    if b {
        on
    } else {
        off
    }
}

pub open spec fn bool_text(b: bool) -> Seq<char> {
    if b {
        "true"@
    } else {
        "false"@
    }
}

pub open spec fn pov_text(p: FlipPovSettings) -> Seq<char> {
    match p {
        FlipPovSettings::Both => "both"@,
        FlipPovSettings::Player => "self"@,
        FlipPovSettings::Others => "others"@,
    }
}

fn text_of(b: bool, on: &str, off: &str) -> (r: String)
    ensures
        r@ == on_off(b, on@, off@),
{
    if b {
        String::from_str(on)
    } else {
        String::from_str(off)
    }
}

/// Carries out the console commands that only touch the settings and says
/// what to print; the others are left to the caller untouched.
pub fn apply_settings_command(settings: &mut crate::settings::Settings, cmd: &ConsoleCommand) -> (r: ConsoleStep)
    ensures
        match cmd {
            ConsoleCommand::Scenario(ScenarioCommand::Merge { enabled: Some(b) }) => {
                &&& *final(settings) == crate::settings::Settings {
                    scenario: crate::settings::ScenarioSettings { merge_enabled: *b },
                    ..*old(settings)
                }
                &&& r matches ConsoleStep::Reply { text, save } && save && text@ == on_off(
                    *b,
                    "Enabled scenario merge"@,
                    "Disabled scenario merge"@,
                )
            },
            ConsoleCommand::Scenario(ScenarioCommand::Merge { enabled: None }) => {
                &&& *final(settings) == *old(settings)
                &&& r matches ConsoleStep::Reply { text, save } && !save && text@
                    == "Scenario merging is "@ + bool_text(old(settings).scenario.merge_enabled)
            },
            ConsoleCommand::Flip(FlipCommand::Add { player }) => {
                &&& *final(settings) == crate::settings::Settings { flip: final(settings).flip, ..*old(settings) }
                &&& final(settings).flip.enabled == old(settings).flip.enabled
                &&& final(settings).flip.pov == old(settings).flip.pov
                &&& forall|h: Guid|
                    listed(final(settings).flip.players@, h) <==> listed(
                        old(settings).flip.players@,
                        h,
                    ) || h.id@ == player.id@
                &&& r matches ConsoleStep::Reply { text, save } && save && text@ == "Added "@
                    + crate::guid::guid_text(player.id@) + " to flipped players"@
            },
            ConsoleCommand::Flip(FlipCommand::Remove { player }) => {
                &&& *final(settings) == crate::settings::Settings { flip: final(settings).flip, ..*old(settings) }
                &&& final(settings).flip.enabled == old(settings).flip.enabled
                &&& final(settings).flip.pov == old(settings).flip.pov
                &&& forall|h: Guid|
                    listed(final(settings).flip.players@, h) <==> listed(
                        old(settings).flip.players@,
                        h,
                    ) && h.id@ != player.id@
                &&& r matches ConsoleStep::Reply { text, save } && save && text@ == if listed(
                    old(settings).flip.players@,
                    *player,
                ) {
                    "Removed "@ + crate::guid::guid_text(player.id@) + " to flipped players"@
                } else {
                    "User "@ + crate::guid::guid_text(player.id@)
                        + " wasn't in the flipped players list"@
                }
            },
            ConsoleCommand::Flip(FlipCommand::SetEnabled { is_flipped }) => {
                &&& *final(settings) == crate::settings::Settings {
                    flip: crate::settings::FlipSettings { enabled: *is_flipped, ..old(settings).flip },
                    ..*old(settings)
                }
                &&& r matches ConsoleStep::Reply { text, save } && save && text@ == on_off(
                    *is_flipped,
                    "Enabled player flipping"@,
                    "Disabled player flipping"@,
                )
            },
            ConsoleCommand::Flip(FlipCommand::Pov { value }) => {
                &&& *final(settings) == crate::settings::Settings {
                    flip: crate::settings::FlipSettings { pov: *value, ..old(settings).flip },
                    ..*old(settings)
                }
                &&& r matches ConsoleStep::Reply { text, save } && save && text@
                    == "Point of view set to "@ + pov_text(*value)
            },
            ConsoleCommand::Shine(ShineArg::SetEnabled { should_sync }) => {
                &&& *final(settings) == crate::settings::Settings {
                    shines: crate::settings::ShineSettings { enabled: *should_sync },
                    ..*old(settings)
                }
                &&& r matches ConsoleStep::Reply { text, save } && save && text@ == on_off(
                    *should_sync,
                    "Enabled shine sync"@,
                    "Disabled shine sync"@,
                )
            },
            ConsoleCommand::Udp(UdpCommand::Auto { should_auto }) => {
                &&& *final(settings) == crate::settings::Settings {
                    udp: crate::settings::Udp { initiate_handshake: *should_auto, ..old(settings).udp },
                    ..*old(settings)
                }
                &&& r matches ConsoleStep::Reply { text, save } && !save && text@ == on_off(
                    *should_auto,
                    "Enabled auto udp handshake"@,
                    "Disabled auto udp handshake"@,
                )
            },
            _ => r is Other && *final(settings) == *old(settings),
        },
{
    match cmd {
        ConsoleCommand::Scenario(ScenarioCommand::Merge { enabled: Some(b) }) => {
            settings.scenario.merge_enabled = *b;
            ConsoleStep::Reply {
                text: text_of(*b, "Enabled scenario merge", "Disabled scenario merge"),
                save: true,
            }
        },
        ConsoleCommand::Scenario(ScenarioCommand::Merge { enabled: None }) => {
            let mut text = String::from_str("Scenario merging is ");
            let v = text_of(settings.scenario.merge_enabled, "true", "false");
            text.append(v.as_str());
            ConsoleStep::Reply { text, save: false }
        },
        ConsoleCommand::Flip(FlipCommand::Add { player }) => {
            add_flip_player(&mut settings.flip, *player);
            let mut text = String::from_str("Added ");
            let id = player.to_text();
            text.append(id.as_str());
            text.append(" to flipped players");
            ConsoleStep::Reply { text, save: true }
        },
        ConsoleCommand::Flip(FlipCommand::Remove { player }) => {
            let was = remove_flip_player(&mut settings.flip, player);
            let id = player.to_text();
            let mut text = String::new();
            if was {
                text.append("Removed ");
                text.append(id.as_str());
                text.append(" to flipped players");
            } else {
                text.append("User ");
                text.append(id.as_str());
                text.append(" wasn't in the flipped players list");
            }
            ConsoleStep::Reply { text, save: true }
        },
        ConsoleCommand::Flip(FlipCommand::SetEnabled { is_flipped }) => {
            settings.flip.enabled = *is_flipped;
            ConsoleStep::Reply {
                text: text_of(*is_flipped, "Enabled player flipping", "Disabled player flipping"),
                save: true,
            }
        },
        ConsoleCommand::Flip(FlipCommand::Pov { value }) => {
            settings.flip.pov = *value;
            let mut text = String::from_str("Point of view set to ");
            let v = value.to_text();
            text.append(v.as_str());
            ConsoleStep::Reply { text, save: true }
        },
        ConsoleCommand::Shine(ShineArg::SetEnabled { should_sync }) => {
            settings.shines.enabled = *should_sync;
            ConsoleStep::Reply {
                text: text_of(*should_sync, "Enabled shine sync", "Disabled shine sync"),
                save: true,
            }
        },
        ConsoleCommand::Udp(UdpCommand::Auto { should_auto }) => {
            settings.udp.initiate_handshake = *should_auto;
            ConsoleStep::Reply {
                text: text_of(
                    *should_auto,
                    "Enabled auto udp handshake",
                    "Disabled auto udp handshake",
                ),
                save: false,
            }
        },
        _ => ConsoleStep::Other,
    }
}

} // verus!
