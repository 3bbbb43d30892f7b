//! The packet model and its binary codec.
use crate::errors::EncodingError;
use crate::fixed_str::FixedString;
use crate::guid::Guid;
use crate::wire::{
    bool_byte, field_text, fits_field, fixed_field, get_fixed, get_u16, get_u32, le16, le32,
    put_fixed, put_u16, put_u32, put_u8, u16_at, u32_at,
};
use vstd::prelude::*;
use vstd::utf8::*;

verus! {

pub const MAX_PACKET_SIZE: usize = 300;

/// Sender id (16), tag (2) and body length (2).
pub const HEADER_SIZE: usize = 20;

pub const COSTUME_NAME_SIZE: usize = 0x20;

pub const CAP_ANIM_SIZE: usize = 0x30;

pub const STAGE_GAME_NAME_SIZE: usize = 0x40;

pub const STAGE_CHANGE_NAME_SIZE: usize = 0x30;

pub const STAGE_ID_SIZE: usize = 0x10;

pub const CLIENT_NAME_SIZE: usize = 0x20;

/// A position; each coordinate is an `f32` held as its IEEE-754 bit pattern.
#[derive(Debug, Clone, Copy, PartialEq, Eq, Structural, Default)]
pub struct Vector3 {
    pub x: u32,
    pub y: u32,
    pub z: u32,
}

/// A rotation quaternion; each component is an `f32` held as its bit pattern.
#[derive(Debug, Clone, Copy, PartialEq, Eq, Structural, Default)]
pub struct Quaternion {
    pub i: u32,
    pub j: u32,
    pub k: u32,
    pub w: u32,
}

#[derive(Debug, Clone, Copy, PartialEq, Eq, Structural)]
pub enum ConnectionType {
    FirstConnection,
    Reconnecting,
}

#[derive(Debug, Clone, Copy, PartialEq, Eq, Structural)]
pub enum TagUpdate {
    Time,
    State,
}

/// The outfit a player wears: body and cap.
#[derive(Debug, PartialEq, Eq)]
pub struct Costume {
    pub body_name: FixedString<COSTUME_NAME_SIZE>,
    pub cap_name: FixedString<COSTUME_NAME_SIZE>,
}

/// The body of a packet, one variant per tag; unknown tags keep their bytes.
#[derive(Debug, PartialEq)]
pub enum PacketData {
    Unhandled { tag: u16, data: Vec<u8> },
    Init { max_players: u16 },
    Player {
        pos: Vector3,
        rot: Quaternion,
        animation_blend_weights: [u32; 6],
        act: u16,
        sub_act: u16,
    },
    Cap { pos: Vector3, rot: Quaternion, cap_out: bool, cap_anim: String },
    Game { is_2d: bool, scenario_num: i8, stage: String },
    Tag { update_type: TagUpdate, is_it: bool, seconds: u8, minutes: u16 },
    Connect { c_type: ConnectionType, max_player: u16, client_name: String },
    Disconnect,
    Costume(Costume),
    Shine { shine_id: i32, is_grand: bool },
    Capture { model: String },
    ChangeStage { stage: String, id: String, scenario: i8, sub_scenario: u8 },
    Command,
    UdpInit { port: u16 },
    HolePunch,
}

/// One unit on the wire. `data_size` is the body length the header declared
/// when the packet was read, or the body's own size when it was built.
#[derive(Debug, PartialEq)]
pub struct Packet {
    pub id: Guid,
    pub data_size: u16,
    pub data: PacketData,
}

/// What a packet body says, with texts as characters and raw bodies as bytes.
#[verifier::ext_equal]
pub enum PacketDataView {
    Unhandled { tag: u16, data: Seq<u8> },
    Init { max_players: u16 },
    Player { pos: Vector3, rot: Quaternion, weights: Seq<u32>, act: u16, sub_act: u16 },
    Cap { pos: Vector3, rot: Quaternion, cap_out: bool, cap_anim: Seq<char> },
    Game { is_2d: bool, scenario_num: i8, stage: Seq<char> },
    Tag { update_type: TagUpdate, is_it: bool, seconds: u8, minutes: u16 },
    Connect { c_type: ConnectionType, max_player: u16, client_name: Seq<char> },
    Disconnect,
    Costume { body_name: Seq<char>, cap_name: Seq<char> },
    Shine { shine_id: i32, is_grand: bool },
    Capture { model: Seq<char> },
    ChangeStage { stage: Seq<char>, id: Seq<char>, scenario: i8, sub_scenario: u8 },
    Command,
    UdpInit { port: u16 },
    HolePunch,
}

#[verifier::ext_equal]
pub struct PacketView {
    pub id: Seq<u8>,
    pub data_size: u16,
    pub data: PacketDataView,
}

impl View for PacketData {
    type V = PacketDataView;

    open spec fn view(&self) -> PacketDataView {
        match self {
            PacketData::Unhandled { tag, data } => PacketDataView::Unhandled { tag: *tag, data: data@ },
            PacketData::Init { max_players } => PacketDataView::Init { max_players: *max_players },
            PacketData::Player { pos, rot, animation_blend_weights, act, sub_act } =>
                PacketDataView::Player {
                pos: *pos,
                rot: *rot,
                weights: animation_blend_weights@,
                act: *act,
                sub_act: *sub_act,
            },
            PacketData::Cap { pos, rot, cap_out, cap_anim } => PacketDataView::Cap {
                pos: *pos,
                rot: *rot,
                cap_out: *cap_out,
                cap_anim: cap_anim@,
            },
            PacketData::Game { is_2d, scenario_num, stage } => PacketDataView::Game {
                is_2d: *is_2d,
                scenario_num: *scenario_num,
                stage: stage@,
            },
            PacketData::Tag { update_type, is_it, seconds, minutes } => PacketDataView::Tag {
                update_type: *update_type,
                is_it: *is_it,
                seconds: *seconds,
                minutes: *minutes,
            },
            PacketData::Connect { c_type, max_player, client_name } => PacketDataView::Connect {
                c_type: *c_type,
                max_player: *max_player,
                client_name: client_name@,
            },
            PacketData::Disconnect => PacketDataView::Disconnect,
            PacketData::Costume(c) => PacketDataView::Costume {
                body_name: c.body_name@,
                cap_name: c.cap_name@,
            },
            PacketData::Shine { shine_id, is_grand } => PacketDataView::Shine {
                shine_id: *shine_id,
                is_grand: *is_grand,
            },
            PacketData::Capture { model } => PacketDataView::Capture { model: model@ },
            PacketData::ChangeStage { stage, id, scenario, sub_scenario } =>
                PacketDataView::ChangeStage {
                stage: stage@,
                id: id@,
                scenario: *scenario,
                sub_scenario: *sub_scenario,
            },
            PacketData::Command => PacketDataView::Command,
            PacketData::UdpInit { port } => PacketDataView::UdpInit { port: *port },
            PacketData::HolePunch => PacketDataView::HolePunch,
        }
    }
}

impl View for Packet {
    type V = PacketView;

    open spec fn view(&self) -> PacketView {
        PacketView { id: self.id.id@, data_size: self.data_size, data: self.data@ }
    }
}

/// The tag a body is sent under.
pub open spec fn type_id(d: PacketDataView) -> u16 {
    match d {
        PacketDataView::Unhandled { tag, .. } => tag,
        PacketDataView::Init { .. } => 1,
        PacketDataView::Player { .. } => 2,
        PacketDataView::Cap { .. } => 3,
        PacketDataView::Game { .. } => 4,
        PacketDataView::Tag { .. } => 5,
        PacketDataView::Connect { .. } => 6,
        PacketDataView::Disconnect => 7,
        PacketDataView::Costume { .. } => 8,
        PacketDataView::Shine { .. } => 9,
        PacketDataView::Capture { .. } => 10,
        PacketDataView::ChangeStage { .. } => 11,
        PacketDataView::Command => 12,
        PacketDataView::UdpInit { .. } => 13,
        PacketDataView::HolePunch => 14,
    }
}

/// The fewest body bytes a tag needs; unknown tags take any length.
pub open spec fn min_body(tag: u16) -> nat {
    if tag == 1 {
        2
    } else if tag == 2 {
        0x38
    } else if tag == 3 {
        29 + 0x30
    } else if tag == 4 {
        2 + 0x40
    } else if tag == 5 {
        5
    } else if tag == 6 {
        6 + 0x20
    } else if tag == 8 {
        0x40
    } else if tag == 9 {
        5
    } else if tag == 10 {
        0x20
    } else if tag == 11 {
        0x10 + 0x30 + 2
    } else if tag == 13 {
        2
    } else {
        0
    }
}

/// The number of body bytes a body is written with.
pub open spec fn body_size(d: PacketDataView) -> nat {
    match d {
        PacketDataView::Unhandled { data, .. } => data.len(),
        _ => min_body(type_id(d)),
    }
}

pub open spec fn vec3_bytes(v: Vector3) -> Seq<u8> {
    le32(v.x) + le32(v.y) + le32(v.z)
}

pub open spec fn quat_bytes(q: Quaternion) -> Seq<u8> {
    le32(q.i) + le32(q.j) + le32(q.k) + le32(q.w)
}

pub open spec fn weights_bytes(w: Seq<u32>) -> Seq<u8> {
    le32(w[0]) + le32(w[1]) + le32(w[2]) + le32(w[3]) + le32(w[4]) + le32(w[5])
}

pub open spec fn tag_update_byte(u: TagUpdate) -> u8 {
    match u {
        TagUpdate::Time => 1,
        TagUpdate::State => 2,
    }
}

pub open spec fn connection_word(c: ConnectionType) -> u32 {
    match c {
        ConnectionType::FirstConnection => 0,
        ConnectionType::Reconnecting => 1,
    }
}

/// The body bytes of each variant.
pub open spec fn body_bytes(d: PacketDataView) -> Seq<u8> {
    match d {
        PacketDataView::Unhandled { data, .. } => data,
        PacketDataView::Init { max_players } => le16(max_players),
        PacketDataView::Player { pos, rot, weights, act, sub_act } => vec3_bytes(pos) + quat_bytes(
            rot,
        ) + weights_bytes(weights) + le16(act) + le16(sub_act),
        PacketDataView::Cap { pos, rot, cap_out, cap_anim } => vec3_bytes(pos) + quat_bytes(rot)
            + seq![bool_byte(cap_out)] + fixed_field(cap_anim, 0x30),
        PacketDataView::Game { is_2d, scenario_num, stage } => seq![
            bool_byte(is_2d),
            scenario_num as u8,
        ] + fixed_field(stage, 0x40),
        PacketDataView::Tag { update_type, is_it, seconds, minutes } => seq![
            tag_update_byte(update_type),
            bool_byte(is_it),
            seconds,
        ] + le16(minutes),
        PacketDataView::Connect { c_type, max_player, client_name } => le32(
            connection_word(c_type),
        ) + le16(max_player) + fixed_field(client_name, 0x20),
        PacketDataView::Costume { body_name, cap_name } => fixed_field(body_name, 0x20)
            + fixed_field(cap_name, 0x20),
        PacketDataView::Shine { shine_id, is_grand } => le32(shine_id as u32) + seq![
            bool_byte(is_grand),
        ],
        PacketDataView::Capture { model } => fixed_field(model, 0x20),
        PacketDataView::ChangeStage { stage, id, scenario, sub_scenario } => fixed_field(
            stage,
            0x30,
        ) + fixed_field(id, 0x10) + seq![scenario as u8, sub_scenario],
        PacketDataView::UdpInit { port } => le16(port),
        _ => seq![],
    }
}

/// The full encoding: header, then body. The header declares the body's own size.
pub open spec fn packet_bytes(p: PacketView) -> Seq<u8> {
    p.id + le16(type_id(p.data)) + le16(body_size(p.data) as u16) + body_bytes(p.data)
}

/// A body that encodes and reads back as itself: its texts fit their fields,
/// a raw body keeps an unknown tag, and the size fits the header.
pub open spec fn data_well_formed(d: PacketDataView) -> bool {
    &&& body_size(d) <= 0xffff
    &&& match d {
        PacketDataView::Unhandled { tag, .. } => tag == 0 || tag > 14,
        PacketDataView::Player { weights, .. } => weights.len() == 6,
        PacketDataView::Cap { cap_anim, .. } => fits_field(cap_anim, 0x30),
        PacketDataView::Game { stage, .. } => fits_field(stage, 0x40),
        PacketDataView::Connect { client_name, .. } => fits_field(client_name, 0x20),
        PacketDataView::Costume { body_name, cap_name } => fits_field(body_name, 0x20)
            && fits_field(cap_name, 0x20),
        PacketDataView::Capture { model } => fits_field(model, 0x20),
        PacketDataView::ChangeStage { stage, id, .. } => fits_field(stage, 0x30) && fits_field(
            id,
            0x10,
        ),
        _ => true,
    }
}

/// A structurally valid packet: a 16-byte sender, a well-formed body, and a
/// declared size equal to the body's own.
pub open spec fn well_formed(p: PacketView) -> bool {
    &&& p.id.len() == 16
    &&& data_well_formed(p.data)
    &&& p.data_size == body_size(p.data)
}

/// The length of the first complete packet at the start of `b`, if there is one.
pub open spec fn frame_len(b: Seq<u8>) -> Option<nat> {
    if b.len() < 20 {
        None
    } else if b.len() < 20 + u16_at(b, 18) {
        None
    } else {
        Some((20 + u16_at(b, 18)) as nat)
    }
}

/// The body of the framed packet at the start of `b`.
pub open spec fn frame_body(b: Seq<u8>) -> Seq<u8> {
    b.subrange(20, 20 + u16_at(b, 18))
}

pub open spec fn vec3_at(b: Seq<u8>, off: int) -> Vector3 {
    Vector3 { x: u32_at(b, off), y: u32_at(b, off + 4), z: u32_at(b, off + 8) }
}

pub open spec fn quat_at(b: Seq<u8>, off: int) -> Quaternion {
    Quaternion {
        i: u32_at(b, off),
        j: u32_at(b, off + 4),
        k: u32_at(b, off + 8),
        w: u32_at(b, off + 12),
    }
}

pub open spec fn field_at(b: Seq<u8>, off: int, n: int) -> Seq<u8> {
    b.subrange(off, off + n)
}

/// Whether every text field of a body of this tag is valid UTF-8.
pub open spec fn texts_valid(tag: u16, b: Seq<u8>) -> bool {
    if tag == 3 {
        valid_utf8(field_at(b, 29, 0x30))
    } else if tag == 4 {
        valid_utf8(field_at(b, 2, 0x40))
    } else if tag == 6 {
        valid_utf8(field_at(b, 6, 0x20))
    } else if tag == 8 {
        valid_utf8(field_at(b, 0, 0x20)) && valid_utf8(field_at(b, 0x20, 0x20))
    } else if tag == 10 {
        valid_utf8(field_at(b, 0, 0x20))
    } else if tag == 11 {
        valid_utf8(field_at(b, 0, 0x30)) && valid_utf8(field_at(b, 0x30, 0x10))
    } else {
        true
    }
}

/// What a body of this tag says; bytes past the tag's fields are ignored.
pub open spec fn parse_body(tag: u16, b: Seq<u8>) -> PacketDataView {
    if tag == 1 {
        PacketDataView::Init { max_players: u16_at(b, 0) }
    } else if tag == 2 {
        PacketDataView::Player {
            pos: vec3_at(b, 0),
            rot: quat_at(b, 12),
            weights: seq![
                u32_at(b, 28),
                u32_at(b, 32),
                u32_at(b, 36),
                u32_at(b, 40),
                u32_at(b, 44),
                u32_at(b, 48),
            ],
            act: u16_at(b, 52),
            sub_act: u16_at(b, 54),
        }
    } else if tag == 3 {
        PacketDataView::Cap {
            pos: vec3_at(b, 0),
            rot: quat_at(b, 12),
            cap_out: b[28] != 0,
            cap_anim: field_text(field_at(b, 29, 0x30)),
        }
    } else if tag == 4 {
        PacketDataView::Game {
            is_2d: b[0] != 0,
            scenario_num: b[1] as i8,
            stage: field_text(field_at(b, 2, 0x40)),
        }
    } else if tag == 5 {
        PacketDataView::Tag {
            update_type: if b[0] == 1 {
                TagUpdate::Time
            } else {
                TagUpdate::State
            },
            is_it: b[1] != 0,
            seconds: b[2],
            minutes: u16_at(b, 3),
        }
    } else if tag == 6 {
        PacketDataView::Connect {
            c_type: if u32_at(b, 0) == 0 {
                ConnectionType::FirstConnection
            } else {
                ConnectionType::Reconnecting
            },
            max_player: u16_at(b, 4),
            client_name: field_text(field_at(b, 6, 0x20)),
        }
    } else if tag == 7 {
        PacketDataView::Disconnect
    } else if tag == 8 {
        PacketDataView::Costume {
            body_name: field_text(field_at(b, 0, 0x20)),
            cap_name: field_text(field_at(b, 0x20, 0x20)),
        }
    } else if tag == 9 {
        PacketDataView::Shine { shine_id: u32_at(b, 0) as i32, is_grand: b[4] != 0 }
    } else if tag == 10 {
        PacketDataView::Capture { model: field_text(field_at(b, 0, 0x20)) }
    } else if tag == 11 {
        PacketDataView::ChangeStage {
            stage: field_text(field_at(b, 0, 0x30)),
            id: field_text(field_at(b, 0x30, 0x10)),
            scenario: b[0x40] as i8,
            sub_scenario: b[0x41],
        }
    } else if tag == 12 {
        PacketDataView::Command
    } else if tag == 13 {
        PacketDataView::UdpInit { port: u16_at(b, 0) }
    } else if tag == 14 {
        PacketDataView::HolePunch
    } else {
        PacketDataView::Unhandled { tag, data: b }
    }
}

impl Clone for Costume {
    fn clone(&self) -> (r: Self)
        ensures
            r.body_name@ == self.body_name@,
            r.cap_name@ == self.cap_name@,
    {
        Costume { body_name: self.body_name.clone(), cap_name: self.cap_name.clone() }
    }
}

impl Costume {
    /// The outfit a player starts with.
    pub fn mario() -> (r: Costume)
        ensures
            r.body_name@ == "Mario"@,
            r.cap_name@ == "Mario"@,
    {
        Costume {
            body_name: FixedString::new(String::from_str("Mario")),
            cap_name: FixedString::new(String::from_str("Mario")),
        }
    }
}

impl Clone for PacketData {
    fn clone(&self) -> (r: Self)
        ensures
            r@ == self@,
    {
        match self {
            PacketData::Unhandled { tag, data } => PacketData::Unhandled {
                tag: *tag,
                data: data.clone(),
            },
            PacketData::Init { max_players } => PacketData::Init { max_players: *max_players },
            PacketData::Player { pos, rot, animation_blend_weights, act, sub_act } =>
                PacketData::Player {
                pos: *pos,
                rot: *rot,
                animation_blend_weights: *animation_blend_weights,
                act: *act,
                sub_act: *sub_act,
            },
            PacketData::Cap { pos, rot, cap_out, cap_anim } => PacketData::Cap {
                pos: *pos,
                rot: *rot,
                cap_out: *cap_out,
                cap_anim: cap_anim.clone(),
            },
            PacketData::Game { is_2d, scenario_num, stage } => PacketData::Game {
                is_2d: *is_2d,
                scenario_num: *scenario_num,
                stage: stage.clone(),
            },
            PacketData::Tag { update_type, is_it, seconds, minutes } => PacketData::Tag {
                update_type: *update_type,
                is_it: *is_it,
                seconds: *seconds,
                minutes: *minutes,
            },
            PacketData::Connect { c_type, max_player, client_name } => PacketData::Connect {
                c_type: *c_type,
                max_player: *max_player,
                client_name: client_name.clone(),
            },
            PacketData::Disconnect => PacketData::Disconnect,
            PacketData::Costume(c) => PacketData::Costume(c.clone()),
            PacketData::Shine { shine_id, is_grand } => PacketData::Shine {
                shine_id: *shine_id,
                is_grand: *is_grand,
            },
            PacketData::Capture { model } => PacketData::Capture { model: model.clone() },
            PacketData::ChangeStage { stage, id, scenario, sub_scenario } =>
                PacketData::ChangeStage {
                stage: stage.clone(),
                id: id.clone(),
                scenario: *scenario,
                sub_scenario: *sub_scenario,
            },
            PacketData::Command => PacketData::Command,
            PacketData::UdpInit { port } => PacketData::UdpInit { port: *port },
            PacketData::HolePunch => PacketData::HolePunch,
        }
    }
}

impl Clone for Packet {
    fn clone(&self) -> (r: Self)
        ensures
            r@ == self@,
    {
        Packet { id: self.id, data_size: self.data_size, data: self.data.clone() }
    }
}

impl PacketData {
    /// The number of body bytes this body is written with.
    pub fn get_size(&self) -> (r: usize)
        ensures
            r == body_size(self@),
    {
        match self {
            PacketData::Unhandled { data, .. } => data.len(),
            PacketData::Init { .. } => 2,
            PacketData::Player { .. } => 0x38,
            PacketData::Cap { .. } => 29 + CAP_ANIM_SIZE,
            PacketData::Game { .. } => 2 + STAGE_GAME_NAME_SIZE,
            PacketData::Tag { .. } => 5,
            PacketData::Connect { .. } => 6 + CLIENT_NAME_SIZE,
            PacketData::Disconnect => 0,
            PacketData::Costume(_) => COSTUME_NAME_SIZE * 2,
            PacketData::Shine { .. } => 5,
            PacketData::Capture { .. } => COSTUME_NAME_SIZE,
            PacketData::ChangeStage { .. } => STAGE_ID_SIZE + STAGE_CHANGE_NAME_SIZE + 2,
            PacketData::Command => 0,
            PacketData::UdpInit { .. } => 2,
            PacketData::HolePunch => 0,
        }
    }

    /// The tag this body is sent under.
    pub fn get_type_id(&self) -> (r: u16)
        ensures
            r == type_id(self@),
    {
        match self {
            PacketData::Unhandled { tag, .. } => *tag,
            PacketData::Init { .. } => 1,
            PacketData::Player { .. } => 2,
            PacketData::Cap { .. } => 3,
            PacketData::Game { .. } => 4,
            PacketData::Tag { .. } => 5,
            PacketData::Connect { .. } => 6,
            PacketData::Disconnect => 7,
            PacketData::Costume(_) => 8,
            PacketData::Shine { .. } => 9,
            PacketData::Capture { .. } => 10,
            PacketData::ChangeStage { .. } => 11,
            PacketData::Command => 12,
            PacketData::UdpInit { .. } => 13,
            PacketData::HolePunch => 14,
        }
    }

    /// A short lowercase name of the variant, for logs.
    pub fn get_type_name(&self) -> (r: String)
        ensures
            r@ == variant_label(self@),
    {
        let name = match self {
            PacketData::Unhandled { .. } => "unhandled",
            PacketData::Init { .. } => "init",
            PacketData::Player { .. } => "player",
            PacketData::Cap { .. } => "cap",
            PacketData::Game { .. } => "game",
            PacketData::Tag { .. } => "tag",
            PacketData::Connect { .. } => "connect",
            PacketData::Disconnect => "disconnect",
            PacketData::Costume(_) => "costume",
            PacketData::Shine { .. } => "shine",
            PacketData::Capture { .. } => "capture",
            PacketData::ChangeStage { .. } => "changeStage",
            PacketData::Command => "command",
            PacketData::UdpInit { .. } => "udpInit",
            PacketData::HolePunch => "holePunch",
        };
        String::from_str(name)
    }

    /// Appends the body bytes.
    #[verifier::spinoff_prover]
    pub fn encode_body(&self, buf: &mut Vec<u8>)
        ensures
            final(buf)@ == old(buf)@ + body_bytes(self@),
    {
        match self {
            PacketData::Unhandled { data, .. } => {
                crate::wire::put_bytes(buf, data.as_slice());
                assert(buf@ =~= old(buf)@ + body_bytes(self@));
            },
            PacketData::Init { max_players } => {
                put_u16(buf, *max_players);
                assert(buf@ =~= old(buf)@ + body_bytes(self@));
            },
            PacketData::Player { pos, rot, animation_blend_weights, act, sub_act } => {
                put_player_body(buf, pos, rot, animation_blend_weights, *act, *sub_act);
                assert(buf@ =~= old(buf)@ + body_bytes(self@));
            },
            PacketData::Cap { pos, rot, cap_out, cap_anim } => {
                put_vec3(buf, pos);
                put_quat(buf, rot);
                put_u8(buf, if *cap_out { 1 } else { 0 });
                put_fixed(buf, cap_anim.as_str(), CAP_ANIM_SIZE);
                assert(buf@ =~= old(buf)@ + body_bytes(self@));
            },
            PacketData::Game { is_2d, scenario_num, stage } => {
                put_u8(buf, if *is_2d { 1 } else { 0 });
                put_u8(buf, *scenario_num as u8);
                put_fixed(buf, stage.as_str(), STAGE_GAME_NAME_SIZE);
                assert(buf@ =~= old(buf)@ + body_bytes(self@));
            },
            PacketData::Tag { update_type, is_it, seconds, minutes } => {
                let kind: u8 = match update_type {
                    TagUpdate::Time => 1,
                    TagUpdate::State => 2,
                };
                put_u8(buf, kind);
                put_u8(buf, if *is_it { 1 } else { 0 });
                put_u8(buf, *seconds);
                put_u16(buf, *minutes);
                assert(buf@ =~= old(buf)@ + body_bytes(self@));
            },
            PacketData::Connect { c_type, max_player, client_name } => {
                let kind: u32 = match c_type {
                    ConnectionType::FirstConnection => 0,
                    ConnectionType::Reconnecting => 1,
                };
                put_u32(buf, kind);
                put_u16(buf, *max_player);
                put_fixed(buf, client_name.as_str(), CLIENT_NAME_SIZE);
                assert(buf@ =~= old(buf)@ + body_bytes(self@));
            },
            PacketData::Costume(c) => {
                put_fixed(buf, c.body_name.as_str(), COSTUME_NAME_SIZE);
                put_fixed(buf, c.cap_name.as_str(), COSTUME_NAME_SIZE);
                assert(buf@ =~= old(buf)@ + body_bytes(self@));
            },
            PacketData::Shine { shine_id, is_grand } => {
                put_u32(buf, *shine_id as u32);
                put_u8(buf, if *is_grand { 1 } else { 0 });
                assert(buf@ =~= old(buf)@ + body_bytes(self@));
            },
            PacketData::Capture { model } => {
                put_fixed(buf, model.as_str(), COSTUME_NAME_SIZE);
                assert(buf@ =~= old(buf)@ + body_bytes(self@));
            },
            PacketData::ChangeStage { stage, id, scenario, sub_scenario } => {
                put_fixed(buf, stage.as_str(), STAGE_CHANGE_NAME_SIZE);
                put_fixed(buf, id.as_str(), STAGE_ID_SIZE);
                put_u8(buf, *scenario as u8);
                put_u8(buf, *sub_scenario);
                assert(buf@ =~= old(buf)@ + body_bytes(self@));
            },
            PacketData::UdpInit { port } => {
                put_u16(buf, *port);
                assert(buf@ =~= old(buf)@ + body_bytes(self@));
            },
            _ => {},
        }
    }
}

pub open spec fn variant_label(d: PacketDataView) -> Seq<char> {
    match d {
        PacketDataView::Unhandled { .. } => "unhandled"@,
        PacketDataView::Init { .. } => "init"@,
        PacketDataView::Player { .. } => "player"@,
        PacketDataView::Cap { .. } => "cap"@,
        PacketDataView::Game { .. } => "game"@,
        PacketDataView::Tag { .. } => "tag"@,
        PacketDataView::Connect { .. } => "connect"@,
        PacketDataView::Disconnect => "disconnect"@,
        PacketDataView::Costume { .. } => "costume"@,
        PacketDataView::Shine { .. } => "shine"@,
        PacketDataView::Capture { .. } => "capture"@,
        PacketDataView::ChangeStage { .. } => "changeStage"@,
        PacketDataView::Command => "command"@,
        PacketDataView::UdpInit { .. } => "udpInit"@,
        PacketDataView::HolePunch => "holePunch"@,
    }
}

/// The bytes of the first `k` blend weights.
pub open spec fn weights_prefix(w: Seq<u32>, k: int) -> Seq<u8>
    decreases k,
{
    if k <= 0 {
        seq![]
    } else {
        weights_prefix(w, k - 1) + le32(w[k - 1])
    }
}

fn put_player_body(
    buf: &mut Vec<u8>,
    pos: &Vector3,
    rot: &Quaternion,
    weights: &[u32; 6],
    act: u16,
    sub_act: u16,
)
    ensures
        final(buf)@ == old(buf)@ + vec3_bytes(*pos) + quat_bytes(*rot) + weights_bytes(weights@)
            + le16(act) + le16(sub_act),
{
    put_vec3(buf, pos);
    put_quat(buf, rot);
    let mut k: usize = 0;
    while k < 6
        invariant
            0 <= k <= 6,
            buf@ == old(buf)@ + vec3_bytes(*pos) + quat_bytes(*rot) + weights_prefix(
                weights@,
                k as int,
            ),
        decreases 6 - k,
    {
        put_u32(buf, weights[k]);
        k = k + 1;
    }
    assert(weights_prefix(weights@, 6) =~= weights_bytes(weights@)) by {
        reveal_with_fuel(weights_prefix, 7);
    }
    put_u16(buf, act);
    put_u16(buf, sub_act);
    assert(buf@ =~= old(buf)@ + vec3_bytes(*pos) + quat_bytes(*rot) + weights_bytes(weights@)
        + le16(act) + le16(sub_act));
}

fn put_vec3(buf: &mut Vec<u8>, v: &Vector3)
    ensures
        final(buf)@ == old(buf)@ + vec3_bytes(*v),
{
    put_u32(buf, v.x);
    put_u32(buf, v.y);
    put_u32(buf, v.z);
    assert(buf@ =~= old(buf)@ + vec3_bytes(*v));
}

fn put_quat(buf: &mut Vec<u8>, q: &Quaternion)
    ensures
        final(buf)@ == old(buf)@ + quat_bytes(*q),
{
    put_u32(buf, q.i);
    put_u32(buf, q.j);
    put_u32(buf, q.k);
    put_u32(buf, q.w);
    assert(buf@ =~= old(buf)@ + quat_bytes(*q));
}

fn get_vec3(b: &[u8], off: usize) -> (r: Vector3)
    requires
        off + 12 <= b@.len(),
        off < 0x10000,
    ensures
        r == vec3_at(b@, off as int),
{
    Vector3 { x: get_u32(b, off), y: get_u32(b, off + 4), z: get_u32(b, off + 8) }
}

fn get_quat(b: &[u8], off: usize) -> (r: Quaternion)
    requires
        off + 16 <= b@.len(),
        off < 0x10000,
    ensures
        r == quat_at(b@, off as int),
{
    Quaternion {
        i: get_u32(b, off),
        j: get_u32(b, off + 4),
        k: get_u32(b, off + 8),
        w: get_u32(b, off + 12),
    }
}

/// Copies `n` bytes starting at `off`.
fn copy_range(b: &[u8], off: usize, n: usize) -> (r: Vec<u8>)
    requires
        off + n <= b@.len(),
    ensures
        r@ == b@.subrange(off as int, off + n),
{
    let mut out: Vec<u8> = Vec::new();
    let blen = b.len();
    let mut i: usize = 0;
    while i < n
        invariant
            0 <= i <= n,
            off + n <= b@.len(),
            blen == b@.len(),
            out@ == b@.subrange(off as int, off + i),
        decreases n - i,
    {
        out.push(b[off + i]);
        i = i + 1;
        assert(out@ =~= b@.subrange(off as int, off + i));
    }
    out
}

/// The fewest body bytes a tag needs.
pub fn min_body_size(tag: u16) -> (r: usize)
    ensures
        r == min_body(tag),
{
    match tag {
        1 => 2,
        2 => 0x38,
        3 => 29 + CAP_ANIM_SIZE,
        4 => 2 + STAGE_GAME_NAME_SIZE,
        5 => 5,
        6 => 6 + CLIENT_NAME_SIZE,
        8 => COSTUME_NAME_SIZE * 2,
        9 => 5,
        10 => COSTUME_NAME_SIZE,
        11 => STAGE_ID_SIZE + STAGE_CHANGE_NAME_SIZE + 2,
        13 => 2,
        _ => 0,
    }
}

/// Reads a body of the given tag; fails only on a text field that is not UTF-8.
#[verifier::spinoff_prover]
pub fn decode_body(tag: u16, body: Vec<u8>) -> (r: Result<PacketData, EncodingError>)
    requires
        body@.len() >= min_body(tag),
    ensures
        r is Ok <==> texts_valid(tag, body@),
        r matches Ok(d) ==> d@ == parse_body(tag, body@),
        r matches Err(e) ==> e == EncodingError::BadUtf8,
{
    let b = body.as_slice();
    if tag == 1 {
        Ok(PacketData::Init { max_players: get_u16(b, 0) })
    } else if tag == 2 {
        let w = [
            get_u32(b, 28),
            get_u32(b, 32),
            get_u32(b, 36),
            get_u32(b, 40),
            get_u32(b, 44),
            get_u32(b, 48),
        ];
        let d = PacketData::Player {
            pos: get_vec3(b, 0),
            rot: get_quat(b, 12),
            animation_blend_weights: w,
            act: get_u16(b, 52),
            sub_act: get_u16(b, 54),
        };
        assert(d@ =~= parse_body(tag, body@));
        Ok(d)
    } else if tag == 3 {
        let anim = match get_fixed(b, 29, CAP_ANIM_SIZE) {
            Some(t) => t,
            None => return Err(EncodingError::BadUtf8),
        };
        Ok(
            PacketData::Cap {
                pos: get_vec3(b, 0),
                rot: get_quat(b, 12),
                cap_out: b[28] != 0,
                cap_anim: anim,
            },
        )
    } else if tag == 4 {
        let stage = match get_fixed(b, 2, STAGE_GAME_NAME_SIZE) {
            Some(t) => t,
            None => return Err(EncodingError::BadUtf8),
        };
        Ok(PacketData::Game { is_2d: b[0] != 0, scenario_num: b[1] as i8, stage })
    } else if tag == 5 {
        let update_type = if b[0] == 1 {
            TagUpdate::Time
        } else {
            TagUpdate::State
        };
        Ok(
            PacketData::Tag {
                update_type,
                is_it: b[1] != 0,
                seconds: b[2],
                minutes: get_u16(b, 3),
            },
        )
    } else if tag == 6 {
        let c_type = if get_u32(b, 0) == 0 {
            ConnectionType::FirstConnection
        } else {
            ConnectionType::Reconnecting
        };
        let client_name = match get_fixed(b, 6, CLIENT_NAME_SIZE) {
            Some(t) => t,
            None => return Err(EncodingError::BadUtf8),
        };
        Ok(PacketData::Connect { c_type, max_player: get_u16(b, 4), client_name })
    } else if tag == 7 {
        Ok(PacketData::Disconnect)
    } else if tag == 8 {
        let body_name = match get_fixed(b, 0, COSTUME_NAME_SIZE) {
            Some(t) => t,
            None => return Err(EncodingError::BadUtf8),
        };
        let cap_name = match get_fixed(b, COSTUME_NAME_SIZE, COSTUME_NAME_SIZE) {
            Some(t) => t,
            None => return Err(EncodingError::BadUtf8),
        };
        Ok(
            PacketData::Costume(
                Costume {
                    body_name: FixedString::new(body_name),
                    cap_name: FixedString::new(cap_name),
                },
            ),
        )
    } else if tag == 9 {
        Ok(PacketData::Shine { shine_id: get_u32(b, 0) as i32, is_grand: b[4] != 0 })
    } else if tag == 10 {
        let model = match get_fixed(b, 0, COSTUME_NAME_SIZE) {
            Some(t) => t,
            None => return Err(EncodingError::BadUtf8),
        };
        Ok(PacketData::Capture { model })
    } else if tag == 11 {
        let stage = match get_fixed(b, 0, STAGE_CHANGE_NAME_SIZE) {
            Some(t) => t,
            None => return Err(EncodingError::BadUtf8),
        };
        let id = match get_fixed(b, STAGE_CHANGE_NAME_SIZE, STAGE_ID_SIZE) {
            Some(t) => t,
            None => return Err(EncodingError::BadUtf8),
        };
        Ok(
            PacketData::ChangeStage {
                stage,
                id,
                scenario: b[0x40] as i8,
                sub_scenario: b[0x41],
            },
        )
    } else if tag == 12 {
        Ok(PacketData::Command)
    } else if tag == 13 {
        Ok(PacketData::UdpInit { port: get_u16(b, 0) })
    } else if tag == 14 {
        Ok(PacketData::HolePunch)
    } else {
        Ok(PacketData::Unhandled { tag, data: body })
    }
}

impl Packet {
    /// A packet whose header declares the body's own size.
    pub fn new(id: Guid, data: PacketData) -> (r: Packet)
        requires
            body_size(data@) <= 0xffff,
        ensures
            r@ == (PacketView { id: id.id@, data_size: body_size(data@) as u16, data: data@ }),
    {
        let size = data.get_size();
        Packet { id, data_size: size as u16, data }
    }

    /// Sets the declared size to the body's own size.
    pub fn resize(&mut self)
        requires
            body_size(old(self).data@) <= 0xffff,
        ensures
            final(self).id == old(self).id,
            final(self).data@ == old(self).data@,
            final(self).data_size == body_size(old(self).data@),
    {
        self.data_size = self.data.get_size() as u16;
    }

    /// The length of the first complete packet in `buf`, or `NotEnoughData`
    /// while the header or the body is still incomplete.
    pub fn check(buf: &[u8]) -> (r: Result<usize, EncodingError>)
        ensures
            frame_len(buf@) is None ==> r == Err::<usize, EncodingError>(
                EncodingError::NotEnoughData,
            ),
            frame_len(buf@) matches Some(n) ==> r == Ok::<usize, EncodingError>(n as usize),
    {
        if buf.len() < HEADER_SIZE {
            return Err(EncodingError::NotEnoughData);
        }
        let size = get_u16(buf, 18) as usize;
        if buf.len() - HEADER_SIZE < size {
            return Err(EncodingError::NotEnoughData);
        }
        Ok(HEADER_SIZE + size)
    }

    /// Appends the encoding of this packet. The header declares the body's
    /// own size, so padding read with the packet is not written again. Fails
    /// only when a raw body is too long for the header.
    pub fn encode(&self, buf: &mut Vec<u8>) -> (r: Result<(), EncodingError>)
        ensures
            r is Ok <==> body_size(self.data@) <= 0xffff,
            r is Ok ==> final(buf)@ == old(buf)@ + packet_bytes(self@),
            r matches Err(e) ==> e == EncodingError::IntConversion && final(buf)@ == old(buf)@,
    {
        let size = self.data.get_size();
        if size > 0xffff {
            return Err(EncodingError::IntConversion);
        }
        crate::wire::put_bytes(buf, &self.id.id);
        put_u16(buf, self.data.get_type_id());
        put_u16(buf, size as u16);
        self.data.encode_body(buf);
        assert(buf@ =~= old(buf)@ + packet_bytes(self@));
        Ok(())
    }

    /// Reads the first packet of `buf` and says how many bytes it took. Bytes
    /// the header declares beyond the tag's fields are skipped.
    pub fn decode(buf: &[u8]) -> (r: Result<(Packet, usize), EncodingError>)
        ensures
            frame_len(buf@) is None ==> (r matches Err(e) && e == EncodingError::NotEnoughData),
            frame_len(buf@) is Some && frame_body(buf@).len() < min_body(u16_at(buf@, 16)) ==> (
            r matches Err(e) && e == EncodingError::BodyTooShort),
            frame_len(buf@) is Some && frame_body(buf@).len() >= min_body(u16_at(buf@, 16))
                && !texts_valid(u16_at(buf@, 16), frame_body(buf@)) ==> (r matches Err(e) && e
                == EncodingError::BadUtf8),
            frame_len(buf@) is Some && frame_body(buf@).len() >= min_body(u16_at(buf@, 16))
                && texts_valid(u16_at(buf@, 16), frame_body(buf@)) ==> (r matches Ok((p, n)) && n
                == frame_len(buf@)->0 && p@ == (PacketView {
                id: buf@.subrange(0, 16),
                data_size: u16_at(buf@, 18),
                data: parse_body(u16_at(buf@, 16), frame_body(buf@)),
            })),
    {
        if buf.len() < HEADER_SIZE {
            return Err(EncodingError::NotEnoughData);
        }
        let tag = get_u16(buf, 16);
        let declared = get_u16(buf, 18);
        let size = declared as usize;
        if buf.len() - HEADER_SIZE < size {
            return Err(EncodingError::NotEnoughData);
        }
        if size < min_body_size(tag) {
            return Err(EncodingError::BodyTooShort);
        }
        let mut id = [0u8; 16];
        let mut i: usize = 0;
        while i < 16
            invariant
                0 <= i <= 16,
                buf@.len() >= 20,
                forall|j: int| 0 <= j < i ==> id@[j] == buf@[j],
            decreases 16 - i,
        {
            id[i] = buf[i];
            i = i + 1;
        }
        assert(id@ =~= buf@.subrange(0, 16));
        let body = copy_range(buf, HEADER_SIZE, size);
        let data = decode_body(tag, body)?;
        Ok((Packet { id: Guid { id }, data_size: declared, data }, HEADER_SIZE + size))
    }
}

proof fn lemma_u16_from(s: Seq<u8>, off: int, v: u16)
    requires
        0 <= off,
        off + 2 <= s.len(),
        s.subrange(off, off + 2) == le16(v),
    ensures
        u16_at(s, off) == v,
{
    assert(s[off] == s.subrange(off, off + 2)[0]);
    assert(s[off + 1] == s.subrange(off, off + 2)[1]);
}

proof fn lemma_u32_from(s: Seq<u8>, off: int, v: u32)
    requires
        0 <= off,
        off + 4 <= s.len(),
        s.subrange(off, off + 4) == le32(v),
    ensures
        u32_at(s, off) == v,
{
    assert(s[off] == s.subrange(off, off + 4)[0]);
    assert(s[off + 1] == s.subrange(off, off + 4)[1]);
    assert(s[off + 2] == s.subrange(off, off + 4)[2]);
    assert(s[off + 3] == s.subrange(off, off + 4)[3]);
}

proof fn lemma_vec3_from(s: Seq<u8>, off: int, v: Vector3)
    requires
        0 <= off,
        off + 12 <= s.len(),
        s.subrange(off, off + 12) == vec3_bytes(v),
    ensures
        vec3_at(s, off) == v,
{
    assert(s.subrange(off, off + 4) =~= s.subrange(off, off + 12).subrange(0, 4));
    assert(s.subrange(off + 4, off + 8) =~= s.subrange(off, off + 12).subrange(4, 8));
    assert(s.subrange(off + 8, off + 12) =~= s.subrange(off, off + 12).subrange(8, 12));
    assert(vec3_bytes(v).subrange(0, 4) =~= le32(v.x));
    assert(vec3_bytes(v).subrange(4, 8) =~= le32(v.y));
    assert(vec3_bytes(v).subrange(8, 12) =~= le32(v.z));
    lemma_u32_from(s, off, v.x);
    lemma_u32_from(s, off + 4, v.y);
    lemma_u32_from(s, off + 8, v.z);
}

proof fn lemma_quat_from(s: Seq<u8>, off: int, q: Quaternion)
    requires
        0 <= off,
        off + 16 <= s.len(),
        s.subrange(off, off + 16) == quat_bytes(q),
    ensures
        quat_at(s, off) == q,
{
    assert(s.subrange(off, off + 4) =~= s.subrange(off, off + 16).subrange(0, 4));
    assert(s.subrange(off + 4, off + 8) =~= s.subrange(off, off + 16).subrange(4, 8));
    assert(s.subrange(off + 8, off + 12) =~= s.subrange(off, off + 16).subrange(8, 12));
    assert(s.subrange(off + 12, off + 16) =~= s.subrange(off, off + 16).subrange(12, 16));
    assert(quat_bytes(q).subrange(0, 4) =~= le32(q.i));
    assert(quat_bytes(q).subrange(4, 8) =~= le32(q.j));
    assert(quat_bytes(q).subrange(8, 12) =~= le32(q.k));
    assert(quat_bytes(q).subrange(12, 16) =~= le32(q.w));
    lemma_u32_from(s, off, q.i);
    lemma_u32_from(s, off + 4, q.j);
    lemma_u32_from(s, off + 8, q.k);
    lemma_u32_from(s, off + 12, q.w);
}

proof fn lemma_field_from(s: Seq<u8>, off: int, t: Seq<char>, n: nat)
    requires
        0 <= off,
        off + n <= s.len(),
        s.subrange(off, off + n) == fixed_field(t, n),
        fits_field(t, n),
    ensures
        valid_utf8(field_at(s, off, n as int)),
        field_text(field_at(s, off, n as int)) == t,
{
    crate::wire::lemma_field_round_trip(t, n);
}

proof fn lemma_weights_from(s: Seq<u8>, off: int, w: Seq<u32>)
    requires
        0 <= off,
        off + 24 <= s.len(),
        w.len() == 6,
        s.subrange(off, off + 24) == weights_bytes(w),
    ensures
        u32_at(s, off) == w[0],
        u32_at(s, off + 4) == w[1],
        u32_at(s, off + 8) == w[2],
        u32_at(s, off + 12) == w[3],
        u32_at(s, off + 16) == w[4],
        u32_at(s, off + 20) == w[5],
{
    let t = s.subrange(off, off + 24);
    assert(t.subrange(0, 4) =~= le32(w[0]));
    assert(t.subrange(4, 8) =~= le32(w[1]));
    assert(t.subrange(8, 12) =~= le32(w[2]));
    assert(t.subrange(12, 16) =~= le32(w[3]));
    assert(t.subrange(16, 20) =~= le32(w[4]));
    assert(t.subrange(20, 24) =~= le32(w[5]));
    lemma_u32_from(t, 0, w[0]);
    lemma_u32_from(t, 4, w[1]);
    lemma_u32_from(t, 8, w[2]);
    lemma_u32_from(t, 12, w[3]);
    lemma_u32_from(t, 16, w[4]);
    lemma_u32_from(t, 20, w[5]);
}

proof fn lemma_player_fields(
    pos: Vector3,
    rot: Quaternion,
    weights: Seq<u32>,
    act: u16,
    sub_act: u16,
    b: Seq<u8>,
)
    requires
        weights.len() == 6,
        b == vec3_bytes(pos) + quat_bytes(rot) + weights_bytes(weights) + le16(act) + le16(sub_act),
    ensures
        b.len() == 56,
        vec3_at(b, 0) == pos,
        quat_at(b, 12) == rot,
        seq![
            u32_at(b, 28),
            u32_at(b, 32),
            u32_at(b, 36),
            u32_at(b, 40),
            u32_at(b, 44),
            u32_at(b, 48),
        ] == weights,
        u16_at(b, 52) == act,
        u16_at(b, 54) == sub_act,
{
    let v = vec3_bytes(pos);
    let q = quat_bytes(rot);
    let w = weights_bytes(weights);
    assert(b.subrange(0, 12) =~= v);
    assert(b.subrange(12, 28) =~= q);
    assert(b.subrange(28, 52) =~= w);
    assert(b.subrange(52, 54) =~= le16(act));
    assert(b.subrange(54, 56) =~= le16(sub_act));
    lemma_vec3_from(b, 0, pos);
    lemma_quat_from(b, 12, rot);
    lemma_weights_from(b, 28, weights);
    lemma_u16_from(b, 52, act);
    lemma_u16_from(b, 54, sub_act);
    assert(seq![
        u32_at(b, 28),
        u32_at(b, 32),
        u32_at(b, 36),
        u32_at(b, 40),
        u32_at(b, 44),
        u32_at(b, 48),
    ] =~= weights);
}

proof fn lemma_player_round_trip(d: PacketDataView)
    requires
        d is Player,
        data_well_formed(d),
    ensures
        body_bytes(d).len() == body_size(d),
        parse_body(2, body_bytes(d)) == d,
{
    match d {
        PacketDataView::Player { pos, rot, weights, act, sub_act } => {
            lemma_player_fields(pos, rot, weights, act, sub_act, body_bytes(d));
        },
        _ => {},
    }
}

proof fn lemma_cap_round_trip(d: PacketDataView)
    requires
        d is Cap,
        data_well_formed(d),
    ensures
        body_bytes(d).len() == body_size(d),
        parse_body(3, body_bytes(d)) == d,
        texts_valid(3, body_bytes(d)),
{
    let b = body_bytes(d);
    match d {
        PacketDataView::Cap { pos, rot, cap_out, cap_anim } => {
            assert(b.subrange(0, 12) =~= vec3_bytes(pos));
            assert(b.subrange(12, 28) =~= quat_bytes(rot));
            lemma_vec3_from(b, 0, pos);
            lemma_quat_from(b, 12, rot);
            assert(b.subrange(29, 77) =~= fixed_field(cap_anim, 0x30));
            lemma_field_from(b, 29, cap_anim, 0x30);
            assert(b[28] == bool_byte(cap_out));
        },
        _ => {},
    }
}

proof fn lemma_text_round_trip(d: PacketDataView)
    requires
        d is Game || d is Connect || d is Costume || d is Capture || d is ChangeStage,
        data_well_formed(d),
    ensures
        body_bytes(d).len() == body_size(d),
        parse_body(type_id(d), body_bytes(d)) == d,
        texts_valid(type_id(d), body_bytes(d)),
{
    let b = body_bytes(d);
    match d {
        PacketDataView::Game { is_2d, scenario_num, stage } => {
            assert(b.subrange(2, 66) =~= fixed_field(stage, 0x40));
            lemma_field_from(b, 2, stage, 0x40);
            assert((scenario_num as u8) as i8 == scenario_num) by (bit_vector);
        },
        PacketDataView::Connect { c_type, max_player, client_name } => {
            assert(b.subrange(0, 4) =~= le32(connection_word(c_type)));
            assert(b.subrange(4, 6) =~= le16(max_player));
            assert(b.subrange(6, 38) =~= fixed_field(client_name, 0x20));
            lemma_u32_from(b, 0, connection_word(c_type));
            lemma_u16_from(b, 4, max_player);
            lemma_field_from(b, 6, client_name, 0x20);
        },
        PacketDataView::Costume { body_name, cap_name } => {
            assert(b.subrange(0, 32) =~= fixed_field(body_name, 0x20));
            assert(b.subrange(32, 64) =~= fixed_field(cap_name, 0x20));
            lemma_field_from(b, 0, body_name, 0x20);
            lemma_field_from(b, 32, cap_name, 0x20);
        },
        PacketDataView::Capture { model } => {
            assert(b.subrange(0, 32) =~= fixed_field(model, 0x20));
            lemma_field_from(b, 0, model, 0x20);
        },
        PacketDataView::ChangeStage { stage, id, scenario, sub_scenario } => {
            assert(b.subrange(0, 48) =~= fixed_field(stage, 0x30));
            assert(b.subrange(48, 64) =~= fixed_field(id, 0x10));
            lemma_field_from(b, 0, stage, 0x30);
            lemma_field_from(b, 48, id, 0x10);
            assert(b[64] == scenario as u8);
            assert((scenario as u8) as i8 == scenario) by (bit_vector);
        },
        _ => {},
    }
    assert(parse_body(type_id(d), b) =~= d);
}

proof fn lemma_plain_round_trip(d: PacketDataView)
    requires
        !(d is Player || d is Cap || d is Game || d is Connect || d is Costume || d is Capture
            || d is ChangeStage),
        data_well_formed(d),
    ensures
        body_bytes(d).len() == body_size(d),
        parse_body(type_id(d), body_bytes(d)) == d,
        texts_valid(type_id(d), body_bytes(d)),
{
    let b = body_bytes(d);
    match d {
        PacketDataView::Init { max_players } => {
            assert(b.subrange(0, 2) =~= le16(max_players));
            lemma_u16_from(b, 0, max_players);
        },
        PacketDataView::Tag { update_type, is_it, seconds, minutes } => {
            assert(b.subrange(3, 5) =~= le16(minutes));
            lemma_u16_from(b, 3, minutes);
        },
        PacketDataView::Shine { shine_id, is_grand } => {
            assert(b.subrange(0, 4) =~= le32(shine_id as u32));
            lemma_u32_from(b, 0, shine_id as u32);
            assert((shine_id as u32) as i32 == shine_id) by (bit_vector);
        },
        PacketDataView::UdpInit { port } => {
            assert(b.subrange(0, 2) =~= le16(port));
            lemma_u16_from(b, 0, port);
        },
        _ => {},
    }
    assert(parse_body(type_id(d), b) =~= d);
}

/// Every well-formed body is read back as itself from its own bytes.
pub proof fn lemma_body_round_trip(d: PacketDataView)
    requires
        data_well_formed(d),
    ensures
        body_bytes(d).len() == body_size(d),
        body_size(d) >= min_body(type_id(d)),
        texts_valid(type_id(d), body_bytes(d)),
        parse_body(type_id(d), body_bytes(d)) == d,
{
    if d is Player {
        lemma_player_round_trip(d);
    } else if d is Cap {
        lemma_cap_round_trip(d);
    } else if d is Game || d is Connect || d is Costume || d is Capture || d is ChangeStage {
        lemma_text_round_trip(d);
    } else {
        lemma_plain_round_trip(d);
    }
}

/// Decoding the encoding of a structurally valid packet gives the packet
/// back: the encoding is one complete frame whose header carries the sender,
/// tag and size, and whose body reads as the body it was made from.
pub proof fn lemma_round_trip(p: PacketView)
    requires
        well_formed(p),
    ensures
        frame_len(packet_bytes(p)) == Some(packet_bytes(p).len()),
        packet_bytes(p).subrange(0, 16) == p.id,
        u16_at(packet_bytes(p), 16) == type_id(p.data),
        u16_at(packet_bytes(p), 18) == p.data_size,
        frame_body(packet_bytes(p)).len() >= min_body(type_id(p.data)),
        texts_valid(type_id(p.data), frame_body(packet_bytes(p))),
        (PacketView {
            id: packet_bytes(p).subrange(0, 16),
            data_size: u16_at(packet_bytes(p), 18),
            data: parse_body(u16_at(packet_bytes(p), 16), frame_body(packet_bytes(p))),
        }) == p,
{
    let b = packet_bytes(p);
    lemma_body_round_trip(p.data);
    assert(b.subrange(0, 16) =~= p.id);
    assert(b.subrange(16, 18) =~= le16(type_id(p.data)));
    assert(b.subrange(18, 20) =~= le16(body_size(p.data) as u16));
    lemma_u16_from(b, 16, type_id(p.data));
    lemma_u16_from(b, 18, body_size(p.data) as u16);
    assert(frame_body(b) =~= body_bytes(p.data));
}

/// A proper prefix of the encoding of a structurally valid packet is never a
/// complete frame: the decoder asks for more bytes and takes none.
pub proof fn lemma_prefix_needs_more(p: PacketView, k: nat)
    requires
        well_formed(p),
        k < packet_bytes(p).len(),
    ensures
        frame_len(packet_bytes(p).take(k as int)) is None,
{
    let b = packet_bytes(p);
    lemma_round_trip(p);
    if k >= 20 {
        let t = b.take(k as int);
        assert(t.subrange(18, 20) =~= b.subrange(18, 20));
        assert(t[18] == b[18] && t[19] == b[19]);
    }
}

} // verus!
