//! The control channel's reply to a command, its permission test, and the
//! per-address failure counter that soft-blocks misbehaving clients.
use crate::text::same_text;
use vstd::prelude::*;

verus! {

/// Failed requests after which an address is refused.
pub const MAX_TRIES: u8 = 5;

/// The reply to a `Command` request.
#[derive(Debug, Clone)]
pub struct JsonApiCommands {
    pub output: Option<String>,
}

impl JsonApiCommands {
    pub fn result(s: String) -> (r: JsonApiCommands)
        ensures
            r.output matches Some(o) && o@ == s@,
    {
        JsonApiCommands { output: Some(s) }
    }
}

/// Whether a token's permissions hold `perm`.
pub fn has_permission(perms: &Vec<String>, perm: &str) -> (r: bool)
    ensures
        r == exists|i: int| 0 <= i < perms@.len() && perms@[i]@ == perm@,
{
    let mut i: usize = 0;
    while i < perms.len()
        invariant
            0 <= i <= perms@.len(),
            forall|j: int| 0 <= j < i ==> perms@[j]@ != perm@,
        decreases perms@.len() - i,
    {
        if same_text(perms[i].as_str(), perm) {
            return true;
        }
        i = i + 1;
    }
    false
}

/// Failed requests per address; an address is an IPv6 number, an IPv4
/// address its IPv4-mapped form.
#[derive(Debug, Clone)]
pub struct BlockClients {
    pub failures: Vec<(u128, u8)>,
}

impl View for BlockClients {
    type V = Map<u128, u8>;

    open spec fn view(&self) -> Map<u128, u8> {
        Map::new(
            |ip: u128| exists|i: int| 0 <= i < self.failures@.len() && self.failures@[i].0 == ip,
            |ip: u128|
                self.failures@[choose|i: int|
                    0 <= i < self.failures@.len() && self.failures@[i].0 == ip].1,
        )
    }
}

impl BlockClients {
    /// Each address is counted once.
    pub open spec fn wf(&self) -> bool {
        forall|i: int, j: int|
            0 <= i < j < self.failures@.len() ==> self.failures@[i].0 != self.failures@[j].0
    }

    pub fn new() -> (r: BlockClients)
        ensures
            r.wf(),
            r@.dom() == Set::<u128>::empty(),
    {
        let r = BlockClients { failures: Vec::new() };
        assert(r@.dom() =~= Set::<u128>::empty());
        r
    }

    fn index_of(&self, ip: u128) -> (r: Option<usize>)
        requires
            self.wf(),
        ensures
            r matches Some(i) ==> i < self.failures@.len() && self.failures@[i as int].0 == ip
                && self@.dom().contains(ip) && self@[ip] == self.failures@[i as int].1,
            r is None ==> !self@.dom().contains(ip),
    {
        let mut i: usize = 0;
        while i < self.failures.len()
            invariant
                0 <= i <= self.failures@.len(),
                self.wf(),
                forall|j: int| 0 <= j < i ==> self.failures@[j].0 != ip,
            decreases self.failures@.len() - i,
        {
            if self.failures[i].0 == ip {
                proof {
                    let k = choose|k: int| 0 <= k < self.failures@.len() && self.failures@[k].0 == ip;
                    assert(k == i);
                }
                return Some(i);
            }
            i = i + 1;
        }
        None
    }

    /// An address is refused once it has failed `MAX_TRIES` times.
    pub fn is_blocked(&self, ip: u128) -> (r: bool)
        requires
            self.wf(),
        ensures
            r == (self@.dom().contains(ip) && self@[ip] >= MAX_TRIES),
    {
        match self.index_of(ip) {
            Some(i) => self.failures[i].1 >= MAX_TRIES,
            None => false,
        }
    }

    /// Counts one more failure of an address (the count stops at its maximum).
    pub fn fail(&mut self, ip: u128)
        requires
            old(self).wf(),
        ensures
            final(self).wf(),
            final(self)@ == old(self)@.insert(
                ip,
                if old(self)@.dom().contains(ip) {
                    if old(self)@[ip] == 255 {
                        255u8
                    } else {
                        (old(self)@[ip] + 1) as u8
                    }
                } else {
                    1u8
                },
            ),
    {
        match self.index_of(ip) {
            Some(i) => {
                let n = self.failures[i].1;
                let m: u8 = if n == 255 {
                    255
                } else {
                    n + 1
                };
                self.failures.set(i, (ip, m));
                proof {
                    assert forall|a: int, b: int|
                        0 <= a < b < self.failures@.len() implies self.failures@[a].0
                        != self.failures@[b].0 by {
                        assert(old(self).failures@[a].0 == self.failures@[a].0);
                        assert(old(self).failures@[b].0 == self.failures@[b].0);
                    }
                    assert forall|x: u128| self@.dom().contains(x) implies self@[x] == old(self)@.insert(ip, m)[x] by {
                        let k = choose|k: int| 0 <= k < self.failures@.len() && self.failures@[k].0 == x;
                        assert(old(self).failures@[k].0 == x);
                    }
                    assert(self@ =~= old(self)@.insert(ip, m)) by {
                        assert forall|x: u128| self@.dom().contains(x) <==> old(self)@.insert(ip, m).dom().contains(x) by {
                            if old(self)@.dom().contains(x) {
                                let k = choose|k: int| 0 <= k < old(self).failures@.len() && old(self).failures@[k].0 == x;
                                assert(self.failures@[k].0 == x);
                            }
                            if self@.dom().contains(x) {
                                let k = choose|k: int| 0 <= k < self.failures@.len() && self.failures@[k].0 == x;
                                assert(old(self).failures@[k].0 == x);
                            }
                        }
                    }
                }
            },
            None => {
                self.failures.push((ip, 1));
                proof {
                    let n = old(self).failures@.len() as int;
                    assert(self.failures@[n].0 == ip);
                    assert forall|x: u128| self@.dom().contains(x) implies self@[x] == old(self)@.insert(ip, 1u8)[x] by {
                        let k = choose|k: int| 0 <= k < self.failures@.len() && self.failures@[k].0 == x;
                        if k < n {
                            assert(old(self).failures@[k].0 == x);
                        }
                    }
                    assert(self@ =~= old(self)@.insert(ip, 1u8)) by {
                        assert forall|x: u128| self@.dom().contains(x) <==> old(self)@.insert(ip, 1u8).dom().contains(x) by {
                            if old(self)@.dom().contains(x) {
                                let k = choose|k: int| 0 <= k < old(self).failures@.len() && old(self).failures@[k].0 == x;
                                assert(self.failures@[k].0 == x);
                            }
                            if self@.dom().contains(x) && x != ip {
                                let k = choose|k: int| 0 <= k < self.failures@.len() && self.failures@[k].0 == x;
                                assert(old(self).failures@[k].0 == x);
                            }
                        }
                    }
                }
            },
        }
    }

    /// Forgets an address's failures after a good request.
    pub fn redeem(&mut self, ip: u128)
        requires
            old(self).wf(),
        ensures
            final(self).wf(),
            final(self)@ == old(self)@.remove(ip),
    {
        match self.index_of(ip) {
            Some(i) => {
                self.failures.remove(i);
                proof {
                    let old_f = old(self).failures@;
                    assert forall|a: int, b: int|
                        0 <= a < b < self.failures@.len() implies self.failures@[a].0
                        != self.failures@[b].0 by {
                        let a2 = if a < i { a } else { a + 1 };
                        let b2 = if b < i { b } else { b + 1 };
                        assert(old_f[a2].0 != old_f[b2].0);
                    }
                    if self@.dom().contains(ip) {
                        let k = choose|k: int| 0 <= k < self.failures@.len() && self.failures@[k].0 == ip;
                        let k2 = if k < i { k } else { k + 1 };
                        assert(old_f[k2].0 == ip);
                    }
                    assert forall|x: u128| x != ip && #[trigger] self@.dom().contains(x) implies self@[x] == old(self)@[x] by {
                        let k = choose|k: int| 0 <= k < self.failures@.len() && self.failures@[k].0 == x;
                        let k2 = if k < i { k } else { k + 1 };
                        self.lemma_value_at(k);
                        old(self).lemma_value_at(k2);
                    }
                    assert forall|x: u128| x != ip implies (self@.dom().contains(x) == old(self)@.dom().contains(x)) by {
                        if old(self)@.dom().contains(x) {
                            let k = choose|k: int| 0 <= k < old_f.len() && old_f[k].0 == x;
                            if k < i {
                                assert(self.failures@[k].0 == x);
                            } else {
                                assert(k != i);
                                assert(self.failures@[k - 1].0 == x);
                            }
                        }
                        if self@.dom().contains(x) {
                            let k = choose|k: int| 0 <= k < self.failures@.len() && self.failures@[k].0 == x;
                            let k2 = if k < i { k } else { k + 1 };
                            assert(old_f[k2].0 == x);
                        }
                    }
                }
            },
            None => {},
        }
        assert(self@ =~= old(self)@.remove(ip));
    }

    proof fn lemma_value_at(&self, j: int)
        requires
            self.wf(),
            0 <= j < self.failures@.len(),
        ensures
            self@.dom().contains(self.failures@[j].0),
            self@[self.failures@[j].0] == self.failures@[j].1,
    {
        let x = self.failures@[j].0;
        let k = choose|k: int| 0 <= k < self.failures@.len() && self.failures@[k].0 == x;
        assert(k == j);
    }
}

/// A text without the spaces at both ends.
pub open spec fn trim_spaces(s: Seq<char>) -> Seq<char>
    decreases s.len(),
{
    if s.len() > 0 && s[0] == ' ' {
        trim_spaces(s.drop_first())
    } else if s.len() > 0 && s.last() == ' ' {
        trim_spaces(s.drop_last())
    } else {
        s
    }
}

/// The characters of a text before its first space.
pub open spec fn first_word(s: Seq<char>) -> Seq<char>
    decreases s.len(),
{
    if s.len() == 0 || s[0] == ' ' {
        seq![]
    } else {
        seq![s[0]] + first_word(s.drop_first())
    }
}

/// The command names a token may run: its `Commands/<name>` permissions,
/// without the prefix, in order.
pub open spec fn command_names(perms: Seq<Seq<char>>) -> Seq<Seq<char>>
    decreases perms.len(),
{
    if perms.len() == 0 {
        seq![]
    } else {
        let rest = command_names(perms.drop_last());
        let p = perms.last();
        if p.len() >= 9 && p.take(9) == "Commands/"@ {
            rest.push(p.skip(9))
        } else {
            rest
        }
    }
}

/// Names joined with `, `.
pub open spec fn join_names(names: Seq<Seq<char>>) -> Seq<char>
    decreases names.len(),
{
    if names.len() == 0 {
        seq![]
    } else if names.len() == 1 {
        names[0]
    } else {
        join_names(names.drop_last()) + ", "@ + names.last()
    }
}

/// What the control channel does with a `Command` request: reply at once,
/// or run the console line.
#[derive(Debug)]
pub enum CommandCheck {
    Reply(String),
    Run(String),
}

/// The text a request carries, if any.
pub open spec fn request_text(data: Option<&str>) -> Seq<char> {
    match data {
        Some(d) => d@,
        None => seq![],
    }
}

pub open spec fn perm_texts(perms: Seq<String>) -> Seq<Seq<char>> {
    perms.map_values(|p: String| p@)
}

/// Removes the spaces at both ends of a text.
pub fn trim_spaces_str(s: &str) -> (r: String)
    ensures
        r@ == trim_spaces(s@),
{
    let n = s.unicode_len();
    let mut start: usize = 0;
    let mut end: usize = n;
    assert(s@.subrange(0, n as int) =~= s@);
    while start < end && (s.get_char(start) == ' ' || s.get_char(end - 1) == ' ')
        invariant
            0 <= start <= end <= n,
            n == s@.len(),
            trim_spaces(s@) == trim_spaces(s@.subrange(start as int, end as int)),
        decreases end - start,
    {
        let ghost t = s@.subrange(start as int, end as int);
        if s.get_char(start) == ' ' {
            assert(t.drop_first() =~= s@.subrange(start + 1, end as int));
            start = start + 1;
        } else {
            assert(t.drop_last() =~= s@.subrange(start as int, end - 1));
            end = end - 1;
        }
    }
    s.substring_char(start, end).to_owned()
}

/// The first word of a text.
pub fn first_word_str(s: &str) -> (r: String)
    ensures
        r@ == first_word(s@),
{
    let n = s.unicode_len();
    let mut i: usize = 0;
    assert(s@.take(0) =~= Seq::<char>::empty());
    assert(s@.skip(0) =~= s@);
    assert(Seq::<char>::empty() + s@ =~= s@);
    while i < n && s.get_char(i) != ' '
        invariant
            0 <= i <= n,
            n == s@.len(),
            forall|j: int| 0 <= j < i ==> s@[j] != ' ',
            first_word(s@) == s@.take(i as int) + first_word(s@.skip(i as int)),
        decreases n - i,
    {
        assert(s@.skip(i as int).drop_first() =~= s@.skip(i + 1));
        assert(s@.take(i + 1) =~= s@.take(i as int) + seq![s@[i as int]]);
        assert(s@.skip(i as int)[0] == s@[i as int]);
        i = i + 1;
    }
    proof {
        if i < n {
            assert(s@.skip(i as int)[0] == ' ');
        } else {
            assert(s@.skip(i as int) =~= Seq::<char>::empty());
        }
        assert(s@.take(i as int) + Seq::<char>::empty() =~= s@.take(i as int));
    }
    s.substring_char(0, i).to_owned()
}

/// Whether a text starts with `Commands/`; the rest of it if so.
fn command_suffix(p: &str) -> (r: Option<String>)
    ensures
        p@.len() >= 9 && p@.take(9) == "Commands/"@ ==> (r matches Some(t) && t@ == p@.skip(9)),
        !(p@.len() >= 9 && p@.take(9) == "Commands/"@) ==> r is None,
{
    let n = p.unicode_len();
    if n < 9 {
        return None;
    }
    let head = p.substring_char(0, 9);
    if crate::text::same_text(head, "Commands/") {
        Some(p.substring_char(9, n).to_owned())
    } else {
        None
    }
}

/// The `help` reply: the command names a token may run.
pub fn list_commands(perms: &Vec<String>) -> (r: String)
    ensures
        r@ == join_names(command_names(perm_texts(perms@))),
{
    let mut out = String::new();
    let mut count: usize = 0;
    let mut i: usize = 0;
    while i < perms.len()
        invariant
            0 <= i <= perms@.len(),
            count <= i,
            count == command_names(perm_texts(perms@).take(i as int)).len(),
            out@ == join_names(command_names(perm_texts(perms@).take(i as int))),
        decreases perms@.len() - i,
    {
        assert(perm_texts(perms@).take(i + 1).drop_last() =~= perm_texts(perms@).take(i as int));
        assert(perm_texts(perms@).take(i + 1).last() == perms@[i as int]@);
        match command_suffix(perms[i].as_str()) {
            Some(name) => {
                let ghost names = command_names(perm_texts(perms@).take(i as int));
                if count > 0 {
                    proof {
                        reveal_strlit(", ");
                    }
                    out.append(", ");
                }
                out.append(name.as_str());
                proof {
                    if count == 0 {
                        assert(names.push(name@).len() == 1);
                        assert(out@ =~= join_names(names.push(name@)));
                    } else {
                        assert(names.push(name@).drop_last() =~= names);
                    }
                }
                count = count + 1;
            },
            None => {},
        }
        i = i + 1;
    }
    assert(perm_texts(perms@).take(perms@.len() as int) =~= perm_texts(perms@));
    out
}

/// Whether a token's permissions allow running a command: the general
/// `Commands` permission, then `Commands/<first word>`; `help` lists the
/// commands the token may run.
pub fn check_command(perms: &Vec<String>, data: Option<&str>) -> (r: CommandCheck)
    ensures
        !perm_texts(perms@).contains("Commands"@) ==> (r matches CommandCheck::Reply(m) && m@
            == "Error: Missing Commands permission."@),
        perm_texts(perms@).contains("Commands"@) && data is None ==> (r matches CommandCheck::Reply(
            m,
        ) && m@ == "Error: Invalid request - Data is missing"@),
        perm_texts(perms@).contains("Commands"@) && data is Some && request_text(data) == "help"@
            ==> (r matches CommandCheck::Reply(m) && m@ == "Valid commands: "@ + join_names(
            command_names(perm_texts(perms@)),
        )),
        perm_texts(perms@).contains("Commands"@) && data is Some && request_text(data) != "help"@
            && !perm_texts(perms@).contains(
            "Commands/"@ + first_word(trim_spaces(request_text(data))),
        ) ==> (r matches CommandCheck::Reply(m) && m@ == "Error: Missing "@ + "Commands/"@
            + first_word(trim_spaces(request_text(data))) + " permission."@),
        perm_texts(perms@).contains("Commands"@) && data is Some && request_text(data) != "help"@
            && perm_texts(perms@).contains(
            "Commands/"@ + first_word(trim_spaces(request_text(data))),
        ) ==> (r matches CommandCheck::Run(line) && line@ == trim_spaces(request_text(data))),
{
    proof {
        reveal_strlit("Commands");
        reveal_strlit("help");
    }
    if !has_permission(perms, "Commands") {
        proof {
            lemma_perm_texts(perms@, "Commands"@);
        }
        return CommandCheck::Reply(String::from_str("Error: Missing Commands permission."));
    }
    proof {
        lemma_perm_texts(perms@, "Commands"@);
    }
    let d = match data {
        None => {
            return CommandCheck::Reply(String::from_str("Error: Invalid request - Data is missing"));
        },
        Some(d) => d,
    };
    if crate::text::same_text(d, "help") {
        let mut m = String::from_str("Valid commands: ");
        let names = list_commands(perms);
        m.append(names.as_str());
        return CommandCheck::Reply(m);
    }
    let line = trim_spaces_str(d);
    let cmd = first_word_str(line.as_str());
    let mut perm = String::from_str("Commands/");
    perm.append(cmd.as_str());
    proof {
        lemma_perm_texts(perms@, perm@);
    }
    if !has_permission(perms, perm.as_str()) {
        let mut m = String::from_str("Error: Missing ");
        m.append(perm.as_str());
        m.append(" permission.");
        return CommandCheck::Reply(m);
    }
    CommandCheck::Run(line)
}

proof fn lemma_perm_texts(perms: Seq<String>, t: Seq<char>)
    ensures
        perm_texts(perms).contains(t) <==> exists|i: int| 0 <= i < perms.len() && perms[i]@ == t,
{
    if perm_texts(perms).contains(t) {
        let k = choose|k: int| 0 <= k < perm_texts(perms).len() && perm_texts(perms)[k] == t;
        assert(perms[k]@ == t);
    }
    if exists|i: int| 0 <= i < perms.len() && perms[i]@ == t {
        let k = choose|k: int| 0 <= k < perms.len() && perms[k]@ == t;
        assert(perm_texts(perms)[k] == t);
    }
}

/// The request kinds the control channel serves.
pub open spec fn known_kind(kind: Seq<char>) -> bool {
    kind == "Status"@ || kind == "Command"@ || kind == "Permissions"@
}

/// The permissions of a request: those of its token, when its kind is known
/// and its token is configured. `None` counts as a failed request.
pub fn request_permissions(api: &crate::settings::JsonApiSettings, kind: &str, token: &str) -> (r:
    Option<Vec<String>>)
    ensures
        !known_kind(kind@) ==> r is None,
        known_kind(kind@) ==> (r is Some <==> exists|i: int|
            0 <= i < api.tokens@.len() && api.tokens@[i].0@ == token@),
        r matches Some(p) ==> exists|i: int|
            0 <= i < api.tokens@.len() && api.tokens@[i].0@ == token@ && perm_texts(p@)
                == perm_texts(api.tokens@[i].1@),
{
    proof {
        reveal_strlit("Status");
        reveal_strlit("Command");
        reveal_strlit("Permissions");
    }
    if !(same_text(kind, "Status") || same_text(kind, "Command") || same_text(kind, "Permissions")) {
        return None;
    }
    let mut i: usize = 0;
    while i < api.tokens.len()
        invariant
            0 <= i <= api.tokens@.len(),
            known_kind(kind@),
            forall|j: int| 0 <= j < i ==> api.tokens@[j].0@ != token@,
        decreases api.tokens@.len() - i,
    {
        if same_text(api.tokens[i].0.as_str(), token) {
            return Some(copy_texts(&api.tokens[i].1));
        }
        i = i + 1;
    }
    None
}

fn copy_texts(v: &Vec<String>) -> (r: Vec<String>)
    ensures
        perm_texts(r@) == perm_texts(v@),
{
    let mut out: Vec<String> = Vec::new();
    let mut i: usize = 0;
    while i < v.len()
        invariant
            0 <= i <= v@.len(),
            perm_texts(out@) == perm_texts(v@).take(i as int),
        decreases v@.len() - i,
    {
        let c = v[i].clone();
        let ghost prev = out@;
        out.push(c);
        assert(perm_texts(out@) =~= perm_texts(prev).push(c@));
        assert(perm_texts(v@).take(i + 1) =~= perm_texts(v@).take(i as int).push(v@[i as int]@));
        i = i + 1;
    }
    assert(perm_texts(v@).take(v@.len() as int) =~= perm_texts(v@));
    out
}

/// What the `Status` reply tells of one player: each field only when the
/// token holds its permission.
#[derive(Debug)]
pub struct StatusPlayer {
    pub id: Option<crate::guid::Guid>,
    pub name: Option<String>,
    pub stage: Option<String>,
    pub scenario: Option<i8>,
    pub position: Option<crate::packet::Vector3>,
    pub tagged: Option<bool>,
    pub costume: Option<(String, String)>,
    pub ipv4: Option<u128>,
}

pub open spec fn granted(perms: Seq<String>, p: Seq<char>) -> bool {
    perm_texts(perms).contains(p)
}

/// The stage of a player's last game packet, when it names one.
pub open spec fn last_stage(v: crate::session::PlayerView) -> Option<Seq<char>> {
    match v.last_game_packet {
        Some(p) => match p.data {
            crate::packet::PacketDataView::Game { stage, .. } => if stage.len() > 0 {
                Some(stage)
            } else {
                None
            },
            _ => None,
        },
        None => None,
    }
}

/// The scenario of a player's last game packet, unless it is -1.
pub open spec fn last_scenario(v: crate::session::PlayerView) -> Option<i8> {
    match v.last_game_packet {
        Some(p) => match p.data {
            crate::packet::PacketDataView::Game { scenario_num, .. } => if scenario_num != -1 {
                Some(scenario_num)
            } else {
                None
            },
            _ => None,
        },
        None => None,
    }
}

/// The status fields of one player under a token's permissions.
pub open spec fn status_matches(s: StatusPlayer, e: (Seq<u8>, crate::session::PlayerView), perms: Seq<String>) -> bool {
    &&& (s.id is Some <==> granted(perms, "Status/Players/ID"@))
    &&& (s.id matches Some(g) ==> g.id@ == e.0)
    &&& (s.name is Some <==> granted(perms, "Status/Players/Name"@))
    &&& (s.name matches Some(n) ==> n@ == e.1.name)
    &&& (s.stage is Some <==> granted(perms, "Status/Players/Stage"@) && last_stage(e.1) is Some)
    &&& (s.stage matches Some(t) ==> Some(t@) == last_stage(e.1))
    &&& s.scenario == (if granted(perms, "Status/Players/Scenario"@) {
        last_scenario(e.1)
    } else {
        None
    })
    &&& s.position == (if granted(perms, "Status/Players/Position"@) {
        Some(e.1.last_position)
    } else {
        None
    })
    &&& s.tagged == (if granted(perms, "Status/Players/Tagged"@) {
        Some(e.1.is_seeking)
    } else {
        None
    })
    &&& (s.costume is Some <==> granted(perms, "Status/Players/Costume"@) && e.1.costume is Some)
    &&& (s.costume matches Some(c) ==> e.1.costume == Some((c.0@, c.1@)))
    &&& s.ipv4 == (if granted(perms, "Status/Players/IPv4"@) {
        e.1.ipv4
    } else {
        None
    })
}

fn permitted(perms: &Vec<String>, p: &str) -> (r: bool)
    ensures
        r == granted(perms@, p@),
{
    let r = has_permission(perms, p);
    proof {
        lemma_perm_texts(perms@, p@);
    }
    r
}

impl crate::lobby::Lobby {
    /// The players part of the `Status` reply: nothing without
    /// `Status/Players`, else one entry per player, in table order.
    pub fn status_players(&self, perms: &Vec<String>) -> (r: Option<Vec<StatusPlayer>>)
        ensures
            r is Some <==> granted(perms@, "Status/Players"@),
            r matches Some(v) ==> v@.len() == self.players@.len() && forall|i: int|
                0 <= i < v@.len() ==> status_matches(#[trigger] v@[i], self.players_view()[i], perms@),
    {
        if !permitted(perms, "Status/Players") {
            return None;
        }
        let id_p = permitted(perms, "Status/Players/ID");
        let name_p = permitted(perms, "Status/Players/Name");
        let stage_p = permitted(perms, "Status/Players/Stage");
        let scenario_p = permitted(perms, "Status/Players/Scenario");
        let position_p = permitted(perms, "Status/Players/Position");
        let tagged_p = permitted(perms, "Status/Players/Tagged");
        let costume_p = permitted(perms, "Status/Players/Costume");
        let ipv4_p = permitted(perms, "Status/Players/IPv4");
        let mut out: Vec<StatusPlayer> = Vec::new();
        let mut i: usize = 0;
        while i < self.players.len()
            invariant
                0 <= i <= self.players@.len(),
                out@.len() == i,
                id_p == granted(perms@, "Status/Players/ID"@),
                name_p == granted(perms@, "Status/Players/Name"@),
                stage_p == granted(perms@, "Status/Players/Stage"@),
                scenario_p == granted(perms@, "Status/Players/Scenario"@),
                position_p == granted(perms@, "Status/Players/Position"@),
                tagged_p == granted(perms@, "Status/Players/Tagged"@),
                costume_p == granted(perms@, "Status/Players/Costume"@),
                ipv4_p == granted(perms@, "Status/Players/IPv4"@),
                forall|k: int|
                    0 <= k < i ==> status_matches(#[trigger] out@[k], self.players_view()[k], perms@),
            decreases self.players@.len() - i,
        {
            let e = &self.players[i];
            let mut stage: Option<String> = None;
            let mut scenario: Option<i8> = None;
            if let Some(p) = &e.data.last_game_packet {
                if let crate::packet::PacketData::Game { stage: st, scenario_num, .. } = &p.data {
                    if stage_p && st.unicode_len() > 0 {
                        stage = Some(st.clone());
                    }
                    if scenario_p && *scenario_num != -1 {
                        scenario = Some(*scenario_num);
                    }
                }
            }
            let costume = if costume_p {
                match &e.data.costume {
                    Some(c) => Some(
                        (c.body_name.as_str().to_owned(), c.cap_name.as_str().to_owned()),
                    ),
                    None => None,
                }
            } else {
                None
            };
            let entry = StatusPlayer {
                id: if id_p {
                    Some(e.guid)
                } else {
                    None
                },
                name: if name_p {
                    Some(e.data.name.clone())
                } else {
                    None
                },
                stage,
                scenario,
                position: if position_p {
                    Some(e.data.last_position)
                } else {
                    None
                },
                tagged: if tagged_p {
                    Some(e.data.is_seeking)
                } else {
                    None
                },
                costume,
                ipv4: if ipv4_p {
                    e.data.ipv4
                } else {
                    None
                },
            };
            assert(status_matches(entry, self.players_view()[i as int], perms@));
            out.push(entry);
            i = i + 1;
        }
        Some(out)
    }
}

} // verus!
