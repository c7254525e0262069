use vstd::prelude::*;
use vstd::string::*;

use crate::block::CUSTOM_BLOCKS_SUPPORT_LEVEL;
use crate::command::{command_name_of, eq_ignore_case, equal_ignore_case, names_equal, perms_for, Command};
use crate::level::{Level, WeatherType};
use crate::packet::server::{same_packet, ServerPacket, TeleportBehavior};
use crate::packet::{ExtBitmask, Extension, PROTOCOL_VERSION};
use crate::player::{rank, PlayerType};
use crate::command::usage;
use crate::rules::{levelrule_command, levelrule_reply};
use crate::session::{kick_reason, name_taken, lemma_password_push, lemma_password_set, password_of, assign_player_id, default_spawn, inventory_order_packets, kick_player, Player, ServerProtectionMode};
use crate::stream::{build_level_packets, chunk_count, gzip_best, level_payload, level_stream_ok, sees_custom};
use crate::level::{only_player_data_changed, saved_data_of, SavablePlayerData};
use crate::block::{MAX_BLOCK_ID, MAX_CLASSIC_ID};

verus! {

/// Coordinates as the configuration writes them, such as the level's size.
#[derive(Debug, Clone, Copy, PartialEq, Eq, Structural)]
pub struct ConfigCoordinates {
    pub x: usize,
    pub y: usize,
    pub z: usize,
}

/// The state that connection tasks and the ticker share: the level, the roster and the parts of
/// the configuration that commands read and change.
#[derive(Debug)]
pub struct ServerData {
    /// the level
    pub level: Level,
    /// the connected players
    pub players: Vec<Player>,
    /// ids freed by players who left
    pub free_player_ids: Vec<i8>,
    /// how joining players are checked
    pub protection_mode: ServerProtectionMode,
    /// the permission levels above `Normal`, by username
    pub player_perms: Vec<(String, PlayerType)>,
    /// the configured spawn point, in 1/32 of a block, with yaw and pitch
    pub spawn: Option<(i16, i16, i16, u8, u8)>,
    /// whether the configuration changed and should be written out
    pub config_needs_saving: bool,
    /// whether the server should stop
    pub stop: bool,
}

/// The player after one more packet was queued for it, everything else kept.
pub open spec fn queued_one(a: Player, b: Player, p: ServerPacket) -> bool {
    &&& b.id == a.id
    &&& b.x == a.x && b.y == a.y && b.z == a.z && b.yaw == a.yaw && b.pitch == a.pitch
    &&& b.extensions == a.extensions && b.custom_blocks_support_level == a.custom_blocks_support_level
    &&& b.username == a.username
    &&& b.permissions == a.permissions
    &&& b.should_be_kicked == a.should_be_kicked
    &&& b.packets_to_send@.len() == a.packets_to_send@.len() + 1
    &&& b.packets_to_send@.take(a.packets_to_send@.len() as int) == a.packets_to_send@
    &&& same_packet(b.packets_to_send@.last(), p)
}

/// Two rosters that differ only in one more packet queued for every player.
pub open spec fn queued_to_all(a: Seq<Player>, b: Seq<Player>, p: ServerPacket) -> bool {
    &&& b.len() == a.len()
    &&& forall|i: int| 0 <= i < a.len() ==> queued_one(a[i], #[trigger] b[i], p)
}

/// Queues a copy of a packet for every player.
pub fn spread_packet(players: &mut Vec<Player>, packet: &ServerPacket)
    ensures
        queued_to_all(old(players)@, final(players)@, *packet),
{
    let mut i: usize = 0;
    while i < players.len()
        invariant
            i <= players@.len(),
            players@.len() == old(players)@.len(),
            forall|k: int| i <= k < players@.len() ==> players@[k] == old(players)@[k],
            forall|k: int| 0 <= k < i ==> queued_one(old(players)@[k], #[trigger] players@[k], *packet),
        decreases players@.len() - i,
    {
        let mut p = players.remove(i);
        let ghost q0 = p.packets_to_send@;
        p.packets_to_send.push(packet.duplicate());
        assert(p.packets_to_send@.take(q0.len() as int) =~= q0);
        players.insert(i, p);
        i = i + 1;
    }
}

/// The position in the roster of the player with id `id`.
pub fn find_player_by_id(players: &Vec<Player>, id: i8) -> (r: Option<usize>)
    ensures
        r matches Some(i) ==> i < players@.len() && players@[i as int].id == id
            && forall|k: int| 0 <= k < i ==> (#[trigger] players@[k]).id != id,
        r is None ==> forall|i: int| 0 <= i < players@.len() ==> (#[trigger] players@[i]).id != id,
{
    let mut i: usize = 0;
    while i < players.len()
        invariant
            i <= players@.len(),
            forall|k: int| 0 <= k < i ==> (#[trigger] players@[k]).id != id,
        decreases players@.len() - i,
    {
        if players[i].id == id {
            return Some(i);
        }
        i = i + 1;
    }
    None
}

/// The weather named by a text, ignoring ASCII case.
pub open spec fn weather_named(s: Seq<char>) -> Option<WeatherType> {
    if eq_ignore_case(s, "sunny"@) {
        Some(WeatherType::Sunny)
    } else if eq_ignore_case(s, "raining"@) {
        Some(WeatherType::Raining)
    } else if eq_ignore_case(s, "snowing"@) {
        Some(WeatherType::Snowing)
    } else {
        None
    }
}

/// Reads a weather name, ignoring ASCII case.
pub fn parse_weather(s: &str) -> (r: Option<WeatherType>)
    ensures
        r == weather_named(s@),
{
    if equal_ignore_case(s, "sunny") {
        Some(WeatherType::Sunny)
    } else if equal_ignore_case(s, "raining") {
        Some(WeatherType::Raining)
    } else if equal_ignore_case(s, "snowing") {
        Some(WeatherType::Snowing)
    } else {
        None
    }
}

/// `/weather`: sets the level's weather and tells every player, or names the unknown weather.
pub fn weather_command(data: &mut ServerData, weather_type: &str) -> (r: String)
    ensures
        match weather_named(weather_type@) {
            Some(w) => final(data).level.weather == w && r@ == "Weather updated!"@
                && queued_to_all(old(data).players@, final(data).players@, ServerPacket::EnvWeatherType { weather_type: w }),
            None => final(data).level.weather == old(data).level.weather && final(data).players@ == old(data).players@
                && r@ == "&cUnknown weather type "@ + weather_type@ + "!"@,
        },
        final(data).level.blocks@ == old(data).level.blocks@,
        final(data).stop == old(data).stop,
{
    match parse_weather(weather_type) {
        Some(w) => {
            data.level.weather = w;
            spread_packet(&mut data.players, &ServerPacket::EnvWeatherType { weather_type: w });
            String::from_str("Weather updated!")
        },
        None => {
            let mut m = String::from_str("&cUnknown weather type ");
            m.append(weather_type);
            m.append("!");
            m
        },
    }
}

/// The lines of `/help` without a command: the commands the player may run, joined by commas
/// on lines of at most 64 characters.
pub fn command_list(perms: PlayerType) -> (r: Vec<String>)
    ensures
        r@.len() >= 2,
        r@[0]@ == "Commands available to you:"@,
{
    let names = ["me", "say", "setperm", "kick", "stop", "help", "ban", "allowentry", "setpass", "setlevelspawn",
        "weather", "save", "tp", "levelrule"];
    let mut out: Vec<String> = Vec::new();
    out.push(String::from_str("Commands available to you:"));
    let mut current = String::from_str("&f");
    let mut i: usize = 0;
    while i < 14
        invariant
            i <= 14,
            names@.len() == 14,
            out@.len() >= 1,
            out@[0]@ == "Commands available to you:"@,
        decreases 14 - i,
    {
        let name = names[i];
        if perms.allows(Command::perms_required_by_name(name)) {
            let len = current.as_str().unicode_len();
            let name_len = name.unicode_len();
            if len > 61 || name_len > 61 - len {
                let mut line = current;
                line.append(",");
                out.push(line);
                current = String::from_str("&f");
            }
            if current.as_str().unicode_len() == 2 {
                current.append(name);
            } else {
                current.append(", ");
                current.append(name);
            }
        }
        i = i + 1;
    }
    out.push(current);
    out
}

/// The password stored for a username, when the server uses per-user passwords.
pub open spec fn stored_password(d: &ServerData, name: Seq<char>) -> Option<Seq<char>> {
    match d.protection_mode {
        ServerProtectionMode::PasswordsByUser(m) => password_of(m@, name),
        _ => None,
    }
}

/// Whether `name` has a password in a per-user password list.
pub open spec fn has_password(m: Seq<(String, String)>, name: Seq<char>) -> bool {
    exists|i: int| 0 <= i < m.len() && (#[trigger] m[i]).0@ == name
}

fn password_index(m: &Vec<(String, String)>, name: &str) -> (r: Option<usize>)
    ensures
        r matches Some(i) ==> i < m@.len() && m@[i as int].0@ == name@
            && forall|k: int| 0 <= k < i ==> (#[trigger] m@[k]).0@ != name@,
        r is None ==> !has_password(m@, name@),
{
    let mut i: usize = 0;
    while i < m.len()
        invariant
            i <= m@.len(),
            forall|k: int| 0 <= k < i ==> (#[trigger] m@[k]).0@ != name@,
        decreases m@.len() - i,
    {
        if names_equal(m[i].0.as_str(), name) {
            return Some(i);
        }
        i = i + 1;
    }
    None
}

/// `/setpass`: records the sender's password, when the server uses per-user passwords.
pub fn setpass_command(data: &mut ServerData, username: &str, password: &str) -> (r: String)
    ensures
        match old(data).protection_mode {
            ServerProtectionMode::PasswordsByUser(_) => r@ == "Updated password!"@ && final(data).config_needs_saving
                && stored_password(final(data), username@) == Some(password@),
            _ => r@ == "&cServer must be set to per-user passwords!"@ && *final(data) == *old(data),
        },
        final(data).players@ == old(data).players@,
        final(data).level == old(data).level,
        final(data).stop == old(data).stop,
{
    match &mut data.protection_mode {
        ServerProtectionMode::PasswordsByUser(m) => {
            let e = (String::from_str(username), String::from_str(password));
            let ghost before = m@;
            match password_index(m, username) {
                Some(i) => {
                    proof { lemma_password_set(before, i as int, username@, e); }
                    m.set(i, e);
                },
                None => {
                    proof { lemma_password_push(before, username@, e); }
                    m.push(e);
                },
            }
            data.config_needs_saving = true;
            String::from_str("Updated password!")
        },
        _ => String::from_str("&cServer must be set to per-user passwords!"),
    }
}

/// `/allowentry`: gives a player a password (the one given, else `generated`), unless it has one.
pub fn allowentry_command(data: &mut ServerData, username: &str, password: Option<&str>, generated: &str) -> (r: Vec<String>)
    ensures
        match old(data).protection_mode {
            ServerProtectionMode::PasswordsByUser(m) => if has_password(m@, username@) {
                r@.len() == 1 && r@[0]@ == "&cPlayer is already allowed in the server!"@
            } else {
                r@.len() == 2 && r@[0]@ == username@ + " is now allowed in the server."@
                    && r@[1]@ == "Password: "@ + match password { Some(p) => p@, None => generated@ }
                    && final(data).config_needs_saving
                    && stored_password(final(data), username@) == Some(match password { Some(p) => p@, None => generated@ })
            },
            _ => r@.len() == 1 && r@[0]@ == "&cServer must be set to per-user passwords!"@,
        },
        final(data).players@ == old(data).players@,
        final(data).level == old(data).level,
        final(data).stop == old(data).stop,
{
    match &mut data.protection_mode {
        ServerProtectionMode::PasswordsByUser(m) => {
            if password_index(m, username).is_some() {
                return vec![String::from_str("&cPlayer is already allowed in the server!")];
            }
            let pw = match password { Some(p) => p, None => generated };
            let e = (String::from_str(username), String::from_str(pw));
            proof { lemma_password_push(m@, username@, e); }
            m.push(e);
            data.config_needs_saving = true;
            let mut first = String::from_str(username);
            first.append(" is now allowed in the server.");
            let mut second = String::from_str("Password: ");
            second.append(pw);
            vec![first, second]
        },
        _ => vec![String::from_str("&cServer must be set to per-user passwords!")],
    }
}

/// The name of a permission level.
pub open spec fn perm_name(p: PlayerType) -> Seq<char> {
    match p {
        PlayerType::Normal => "Normal"@,
        PlayerType::Moderator => "Moderator"@,
        PlayerType::Operator => "Operator"@,
    }
}

fn perm_str(p: PlayerType) -> (r: &'static str)
    ensures
        r@ == perm_name(p),
{
    match p {
        PlayerType::Normal => "Normal",
        PlayerType::Moderator => "Moderator",
        PlayerType::Operator => "Operator",
    }
}

/// The configured level of a username: the first entry for it, else `Normal`.
pub open spec fn configured_perm(m: Seq<(String, PlayerType)>, name: Seq<char>) -> PlayerType
    decreases m.len(),
{
    if m.len() == 0 {
        PlayerType::Normal
    } else if m[0].0@ == name {
        m[0].1
    } else {
        configured_perm(m.skip(1), name)
    }
}

fn perm_index(m: &Vec<(String, PlayerType)>, name: &str) -> (r: Option<usize>)
    ensures
        r matches Some(i) ==> i < m@.len() && m@[i as int].0@ == name@ && configured_perm(m@, name@) == m@[i as int].1
            && forall|k: int| 0 <= k < i ==> (#[trigger] m@[k]).0@ != name@,
        r is None ==> configured_perm(m@, name@) == PlayerType::Normal
            && forall|k: int| 0 <= k < m@.len() ==> (#[trigger] m@[k]).0@ != name@,
{
    let mut i: usize = 0;
    assert(m@.skip(0) =~= m@);
    while i < m.len()
        invariant
            i <= m@.len(),
            configured_perm(m@, name@) == configured_perm(m@.skip(i as int), name@),
            forall|k: int| 0 <= k < i ==> (#[trigger] m@[k]).0@ != name@,
        decreases m@.len() - i,
    {
        assert(m@.skip(i as int)[0] == m@[i as int]);
        assert(m@.skip(i as int).skip(1) =~= m@.skip(i + 1));
        if names_equal(m[i].0.as_str(), name) {
            return Some(i);
        }
        i = i + 1;
    }
    assert(m@.skip(i as int).len() == 0);
    None
}

fn find_player_by_name(players: &Vec<Player>, name: &str) -> (r: Option<usize>)
    ensures
        r matches Some(i) ==> first_named(players@, name@, i as int),
        r is None ==> forall|i: int| 0 <= i < players@.len() ==> (#[trigger] players@[i]).username@ != name@,
{
    let mut i: usize = 0;
    while i < players.len()
        invariant
            i <= players@.len(),
            forall|k: int| 0 <= k < i ==> (#[trigger] players@[k]).username@ != name@,
        decreases players@.len() - i,
    {
        if names_equal(players[i].username.as_str(), name) {
            return Some(i);
        }
        i = i + 1;
    }
    None
}

fn text3(a: &str, b: &str, c: &str) -> (r: String)
    ensures
        r@ == a@ + b@ + c@,
{
    let mut s = String::from_str(a);
    s.append(b);
    s.append(c);
    s
}

/// `/setperm`: sets another player's level, below the sender's own. Levels above `Normal` are
/// kept in the configuration; a connected player is told at once.
pub fn setperm_command(data: &mut ServerData, sender: PlayerType, sender_name: &str, target: &str, perms: PlayerType) -> (r: String)
    ensures
        target@ == sender_name@ ==> r@ == "&cCannot change your own permissions"@,
        target@ != sender_name@ && rank(perms) >= rank(sender) ==> r@ == "&cCannot set permissions higher or equal to your own"@,
        target@ != sender_name@ && rank(perms) < rank(sender) && rank(configured_perm(old(data).player_perms@, target@)) >= rank(sender)
            ==> r@ == "&cThis player outranks or is the same rank as you"@,
        target@ != sender_name@ && rank(perms) < rank(sender) && rank(configured_perm(old(data).player_perms@, target@)) < rank(sender)
            ==> r@ == "Set permissions for "@ + target@ + " to "@ + perm_name(perms)
                && configured_perm(final(data).player_perms@, target@) == perms
                && final(data).config_needs_saving,
        final(data).players@.len() == old(data).players@.len(),
{
    if names_equal(target, sender_name) {
        return String::from_str("&cCannot change your own permissions");
    }
    if perms.allows(sender) {
        return String::from_str("&cCannot set permissions higher or equal to your own");
    }
    let at = perm_index(&data.player_perms, target);
    let current = match at { Some(i) => data.player_perms[i].1, None => PlayerType::Normal };
    if current.allows(sender) {
        return String::from_str("&cThis player outranks or is the same rank as you");
    }
    data.config_needs_saving = true;
    match at {
        Some(i) => {
            let ghost before = data.player_perms@;
            let entry = (String::from_str(target), perms);
            data.player_perms.set(i, entry);
            proof {
                lemma_configured_after_set(before, i as int, target@, perms);
                assert(data.player_perms@ == before.update(i as int, entry));
                assert(configured_perm(before.update(i as int, entry), target@) == perms);
            }
        },
        None => {
            let ghost before = data.player_perms@;
            data.player_perms.insert(0, (String::from_str(target), perms));
            proof {
                assert(data.player_perms@[0].0@ == target@);
            }
        },
    }
    match find_player_by_name(&data.players, target) {
        Some(i) => {
            let mut p = data.players.remove(i);
            p.permissions = perms;
            p.packets_to_send.push(ServerPacket::UpdateUserType { user_type: perms });
            let id = p.id;
            p.packets_to_send.push(ServerPacket::Message { player_id: id, message: text3("Your permissions have been set to ", perm_str(perms), "") });
            data.players.insert(i, p);
        },
        None => {},
    }
    let mut reply = text3("Set permissions for ", target, " to ");
    reply.append(perm_str(perms));
    reply
}

proof fn lemma_configured_after_set(m: Seq<(String, PlayerType)>, i: int, name: Seq<char>, p: PlayerType)
    requires
        0 <= i < m.len(),
        m[i].0@ == name,
        configured_perm(m, name) == m[i].1,
        forall|j: int| 0 <= j < i ==> (#[trigger] m[j]).0@ != name,
    ensures
        forall|s: String| s@ == name ==> #[trigger] configured_perm(m.update(i, (s, p)), name) == p,
    decreases m.len(),
{
    assert forall|s: String| s@ == name implies #[trigger] configured_perm(m.update(i, (s, p)), name) == p by {
        let u = m.update(i, (s, p));
        if i > 0 {
            assert(u[0] == m[0]);
            assert(m[0].0@ != name);
            assert(u.skip(1) =~= m.skip(1).update(i - 1, (s, p)));
            assert(m.skip(1)[i - 1].0@ == name);
            assert forall|j: int| 0 <= j < i - 1 implies (#[trigger] m.skip(1)[j]).0@ != name by {
                assert(m.skip(1)[j] == m[j + 1]);
            }
            assert(configured_perm(m, name) == configured_perm(m.skip(1), name));
            lemma_configured_after_set(m.skip(1), i - 1, name, p);
            assert(configured_perm(u, name) == configured_perm(u.skip(1), name));
        } else {
            assert(u[0] == (s, p));
        }
    }
}

/// `/me`: tells everyone what the sender does.
pub fn me_command(data: &mut ServerData, own_id: i8, username: &str, action: &str) -> (r: Vec<String>)
    ensures
        r@.len() == 0,
        exists|m: String| m@ == "&f*"@ + username@ + " "@ + action@ &&
            queued_to_all(old(data).players@, final(data).players@, ServerPacket::Message { player_id: own_id, message: m }),
{
    let mut m = text3("&f*", username, " ");
    m.append(action);
    let p = ServerPacket::Message { player_id: own_id, message: m };
    spread_packet(&mut data.players, &p);
    proof {
        let w = p->Message_message;
        assert(queued_to_all(old(data).players@, data.players@, ServerPacket::Message { player_id: own_id, message: w }));
    }
    Vec::new()
}

/// `/say`: tells everyone a message from the server.
pub fn say_command(data: &mut ServerData, own_id: i8, message: &str) -> (r: Vec<String>)
    ensures
        r@.len() == 0,
        exists|m: String| m@ == "&d[SERVER] &f"@ + message@ &&
            queued_to_all(old(data).players@, final(data).players@, ServerPacket::Message { player_id: own_id, message: m }),
{
    let mut m = String::from_str("&d[SERVER] &f");
    m.append(message);
    let p = ServerPacket::Message { player_id: own_id, message: m };
    spread_packet(&mut data.players, &p);
    proof {
        let w = p->Message_message;
        assert(queued_to_all(old(data).players@, data.players@, ServerPacket::Message { player_id: own_id, message: w }));
    }
    Vec::new()
}

/// Whether `i` is the first player with the username.
pub open spec fn first_named(players: Seq<Player>, name: Seq<char>, i: int) -> bool {
    &&& 0 <= i < players.len()
    &&& players[i].username@ == name
    &&& forall|j: int| 0 <= j < i ==> (#[trigger] players[j]).username@ != name
}

/// The per-user password list, empty unless the server uses per-user passwords.
pub open spec fn password_list(d: &ServerData) -> Seq<(String, String)> {
    match d.protection_mode {
        ServerProtectionMode::PasswordsByUser(m) => m@,
        _ => Seq::empty(),
    }
}

/// Whether the first player named `name`, if connected, outranks or equals `sender`.
pub open spec fn ban_refused(players: Seq<Player>, name: Seq<char>, sender: PlayerType) -> bool {
    exists|i: int| first_named(players, name, i) && rank(#[trigger] players[i].permissions) >= rank(sender)
}

/// The reason a banned player is disconnected with.
pub open spec fn ban_reason(message: Option<Seq<char>>) -> Seq<char> {
    "Banned: "@ + match message {
        Some(m) => m,
        None => "<no_message>"@,
    }
}

/// `/ban`: takes a player's password away (and its level), kicking it if connected, when the
/// server uses per-user passwords and the sender outranks the player. The sender's rank is
/// checked before anything is removed, so a refused ban changes nothing.
pub fn ban_command(data: &mut ServerData, sender: PlayerType, target: &str, message: Option<&str>) -> (r: String)
    ensures
        !(old(data).protection_mode is PasswordsByUser) ==> r@ == "&cServer must be set to per-user passwords!"@
            && *final(data) == *old(data),
        old(data).protection_mode is PasswordsByUser && !has_password(password_list(old(data)), target@)
            ==> r@ == "&cPlayer is already banned!"@ && *final(data) == *old(data),
        old(data).protection_mode is PasswordsByUser && has_password(password_list(old(data)), target@)
            && ban_refused(old(data).players@, target@, sender)
            ==> r@ == "&cThis player outranks or is the same rank as you"@ && *final(data) == *old(data),
        old(data).protection_mode is PasswordsByUser && has_password(password_list(old(data)), target@)
            && !ban_refused(old(data).players@, target@, sender) ==> {
            &&& r@ == target@ + " has been banned"@
            &&& final(data).config_needs_saving
            &&& final(data).protection_mode is PasswordsByUser
            &&& exists|k: int| 0 <= k < password_list(old(data)).len()
                && (#[trigger] password_list(old(data))[k]).0@ == target@
                && (forall|j: int| 0 <= j < k ==> (#[trigger] password_list(old(data))[j]).0@ != target@)
                && password_list(final(data)) == password_list(old(data)).remove(k)
            &&& forall|j: int| 0 <= j < old(data).player_perms@.len() && (#[trigger] old(data).player_perms@[j]).0@ == target@
                && (forall|q: int| 0 <= q < j ==> (#[trigger] old(data).player_perms@[q]).0@ != target@)
                ==> final(data).player_perms@ == old(data).player_perms@.remove(j)
            &&& (forall|j: int| 0 <= j < old(data).player_perms@.len() ==> (#[trigger] old(data).player_perms@[j]).0@ != target@)
                ==> final(data).player_perms@ == old(data).player_perms@
            &&& final(data).players@.len() == old(data).players@.len()
            &&& forall|i: int| first_named(old(data).players@, target@, i) ==> {
                &&& (final(data).players@[i].should_be_kicked matches Some(m)
                    && m@ == ban_reason(match message { Some(t) => Some(t@), None => None }))
                &&& forall|j: int| 0 <= j < old(data).players@.len() && j != i
                    ==> #[trigger] final(data).players@[j] == old(data).players@[j]
            }
            &&& (forall|i: int| 0 <= i < old(data).players@.len() ==> (#[trigger] old(data).players@[i]).username@ != target@)
                ==> final(data).players@ == old(data).players@
            &&& final(data).level == old(data).level
            &&& final(data).stop == old(data).stop
        },
{
    proof {
        reveal_strlit("&cPlayer is already banned!");
        reveal_strlit("&cThis player outranks or is the same rank as you");
        reveal_strlit("&cServer must be set to per-user passwords!");
    }
    let online = find_player_by_name(&data.players, target);
    if let Some(i) = online {
        if data.players[i].permissions.allows(sender) {
            if let ServerProtectionMode::PasswordsByUser(m) = &data.protection_mode {
                if password_index(m, target).is_some() {
                    return String::from_str("&cThis player outranks or is the same rank as you");
                }
            }
        }
    }
    proof {
        if let Some(i) = online {
            if ban_refused(old(data).players@, target@, sender) {
                let k = choose|k: int| first_named(old(data).players@, target@, k)
                    && rank(#[trigger] old(data).players@[k].permissions) >= rank(sender);
                assert(k == i);
            }
        }
    }
    match &mut data.protection_mode {
        ServerProtectionMode::PasswordsByUser(m) => {
            let at = match password_index(m, target) {
                Some(i) => i,
                None => return String::from_str("&cPlayer is already banned!"),
            };
            m.remove(at);
            let ghost perms_before = data.player_perms@;
            match perm_index(&data.player_perms, target) {
                Some(j) => {
                    data.player_perms.remove(j);
                    proof {
                        assert forall|q: int| 0 <= q < perms_before.len() && (#[trigger] perms_before[q]).0@ == target@
                            && (forall|p: int| 0 <= p < q ==> (#[trigger] perms_before[p]).0@ != target@)
                            implies q == j by {
                            if q < j { } else if q > j { assert(perms_before[j as int].0@ == target@); }
                        }
                    }
                },
                None => {},
            }
            data.config_needs_saving = true;
            if let Some(i) = online {
                let mut p = data.players.remove(i);
                let mut reason = String::from_str("Banned: ");
                match message {
                    Some(t) => reason.append(t),
                    None => reason.append("<no_message>"),
                }
                p.should_be_kicked = Some(reason);
                data.players.insert(i, p);
            }
            let mut reply = String::from_str(target);
            reply.append(" has been banned");
            reply
        },
        _ => String::from_str("&cServer must be set to per-user passwords!"),
    }
}

/// `/setlevelspawn`: makes the sender's position the spawn point, and everyone's if asked.
pub fn setlevelspawn_command(data: &mut ServerData, at: (i16, i16, i16, u8, u8), overwrite_others: bool) -> (r: String)
    ensures
        final(data).spawn == Some(at),
        final(data).config_needs_saving,
        r@ == "Level spawn updated!"@,
        overwrite_others ==> queued_to_all(old(data).players@, final(data).players@, ServerPacket::SetSpawnPoint {
            spawn_x: at.0, spawn_y: at.1, spawn_z: at.2, spawn_yaw: at.3, spawn_pitch: at.4 }),
        !overwrite_others ==> final(data).players@ == old(data).players@,
{
    data.spawn = Some(at);
    if overwrite_others {
        let p = ServerPacket::SetSpawnPoint { spawn_x: at.0, spawn_y: at.1, spawn_z: at.2, spawn_yaw: at.3, spawn_pitch: at.4 };
        spread_packet(&mut data.players, &p);
    }
    data.config_needs_saving = true;
    String::from_str("Level spawn updated!")
}

/// The username a command means: `@s` means the sender.
pub open spec fn resolve_name(name: Seq<char>, sender: Seq<char>) -> Seq<char> {
    if name == "@s"@ { sender } else { name }
}

/// Whether some player has the username.
pub open spec fn online(players: Seq<Player>, name: Seq<char>) -> bool {
    exists|i: int| 0 <= i < players.len() && (#[trigger] players[i]).username@ == name
}

/// Whether `i` and `j` are both the first player with a name only if they are the same.
proof fn lemma_first_named_unique(players: Seq<Player>, name: Seq<char>, i: int, j: int)
    requires
        first_named(players, name, i),
        first_named(players, name, j),
    ensures
        i == j,
{
    if i < j {
        assert(players[i].username@ == name);
    } else if j < i {
        assert(players[j].username@ == name);
    }
}

/// Whether player `p`'s queue ends with the move of the teleported player (id `id`, now `moved`):
/// `ExtEntityTeleport` for clients that negotiated it, else `SetPositionOrientation`, with the id
/// rewritten to -1 in the teleported player's own queue.
pub open spec fn moved_seen(p: Player, own: bool, id: i8, moved: Player) -> bool {
    moved_to(p, own, id, moved.x, moved.y, moved.z, moved.yaw, moved.pitch)
}

/// Whether player `p`'s queue ends with the move of player `id` to the given place.
pub open spec fn moved_to(p: Player, own: bool, id: i8, x: i16, y: i16, z: i16, yaw: u8, pitch: u8) -> bool {
    let shown = if own { -1i8 } else { id };
    &&& p.packets_to_send@.len() > 0
    &&& if p.extensions.has(Extension::ExtEntityTeleport) {
        p.packets_to_send@.last() matches ServerPacket::ExtEntityTeleport { entity_id, x: a, y: b, z: c, yaw: w, pitch: h, .. }
            && entity_id == shown && a == x && b == y && c == z && w == yaw && h == pitch
    } else {
        p.packets_to_send@.last() == (ServerPacket::SetPositionOrientation { player_id: shown, x, y, z, yaw, pitch })
    }
}

/// `/tp`: moves a player (`@s` is the sender) to another player's position and orientation, or
/// to `coords` (a position in 1/32 of a block and its text) when given. Everyone sees the move;
/// clients with `ExtEntityTeleport` get that packet instead.
pub fn teleport_command(data: &mut ServerData, sender_name: &str, username: &str, destination: &str,
    coords: Option<(i16, i16, i16, String)>) -> (r: Vec<String>)
    ensures
        final(data).players@.len() == old(data).players@.len(),
        r@.len() <= 1,
        r@.len() == 0 <==> (online(old(data).players@, resolve_name(username@, sender_name@))
            && (coords is Some || online(old(data).players@, resolve_name(destination@, sender_name@)))),
        coords is Some && r@.len() == 0 ==> exists|i: int| 0 <= i < final(data).players@.len()
            && (#[trigger] final(data).players@[i]).username@ == resolve_name(username@, sender_name@)
            && final(data).players@[i].x == coords->Some_0.0 && final(data).players@[i].y == coords->Some_0.1
            && final(data).players@[i].z == coords->Some_0.2,
        forall|t: int, d: int| coords is None && #[trigger] first_named(old(data).players@, resolve_name(username@, sender_name@), t)
            && #[trigger] first_named(old(data).players@, resolve_name(destination@, sender_name@), d)
            ==> r@.len() == 0 && final(data).players@[t].x == old(data).players@[d].x
                && final(data).players@[t].y == old(data).players@[d].y && final(data).players@[t].z == old(data).players@[d].z
                && final(data).players@[t].yaw == old(data).players@[d].yaw
                && final(data).players@[t].pitch == old(data).players@[d].pitch,
        forall|t: int| #[trigger] first_named(old(data).players@, resolve_name(username@, sender_name@), t) && r@.len() == 0
            && coords is Some ==> final(data).players@[t].x == coords->Some_0.0 && final(data).players@[t].y == coords->Some_0.1
                && final(data).players@[t].z == coords->Some_0.2,
        forall|t: int| #[trigger] first_named(old(data).players@, resolve_name(username@, sender_name@), t) && r@.len() == 0
            ==> forall|q: int| 0 <= q < final(data).players@.len() ==> moved_seen(
                final(data).players@[q], q == t, old(data).players@[t].id, final(data).players@[t]),
{
    proof { reveal_strlit("@s"); }
    let who: &str = if names_equal(username, "@s") { sender_name } else { username };
    let (x, y, z, orientation, note) = match coords {
        Some((x, y, z, text)) => (x, y, z, None, text3("You have been teleported to ", text.as_str(), ".")),
        None => {
            let dest: &str = if names_equal(destination, "@s") { sender_name } else { destination };
            match find_player_by_name(&data.players, dest) {
                Some(i) => {
                    proof {
                        assert forall|d: int| #[trigger] first_named(old(data).players@, resolve_name(destination@, sender_name@), d)
                            implies d == i by {
                            lemma_first_named_unique(old(data).players@, dest@, d, i as int);
                        }
                    }
                    let p = &data.players[i];
                    (p.x, p.y, p.z, Some((p.yaw, p.pitch)), text3("You have been teleported to ", dest, "."))
                },
                None => return vec![text3("Unknown username: ", dest, "")],
            }
        },
    };
    let target = match find_player_by_name(&data.players, who) {
        Some(i) => i,
        None => return vec![text3("Unknown username: ", who, "!")],
    };
    let ghost target_name = data.players@[target as int].username;
    proof {
        assert forall|t: int| #[trigger] first_named(old(data).players@, resolve_name(username@, sender_name@), t)
            implies t == target by {
            lemma_first_named_unique(old(data).players@, who@, t, target as int);
        }
    }
    let mut p = data.players.remove(target);
    let (yaw, pitch) = match orientation { Some(o) => o, None => (p.yaw, p.pitch) };
    p.x = x;
    p.y = y;
    p.z = z;
    p.yaw = yaw;
    p.pitch = pitch;
    let id = p.id;
    data.players.insert(target, p);
    let mut i: usize = 0;
    while i < data.players.len()
        invariant
            i <= data.players@.len(),
            data.players@.len() == old(data).players@.len(),
            target < data.players@.len(),
            data.players@[target as int].username == target_name,
            data.players@[target as int].x == x && data.players@[target as int].y == y && data.players@[target as int].z == z,
            data.players@[target as int].yaw == yaw && data.players@[target as int].pitch == pitch,
            data.players@[target as int].id == id,
            id == old(data).players@[target as int].id,
            forall|k: int| 0 <= k < i ==> moved_to(#[trigger] data.players@[k], k == target, id, x, y, z, yaw, pitch),
        decreases data.players@.len() - i,
    {
        let mut q = data.players.remove(i);
        let own = i == target;
        let shown_id = if own { -1i8 } else { id };
        let packet = if q.extensions.contains(Extension::ExtEntityTeleport) {
            ServerPacket::ExtEntityTeleport {
                entity_id: shown_id,
                teleport_behavior: TeleportBehavior {
                    bits: TeleportBehavior::USE_POSITION | TeleportBehavior::USE_ORIENTATION | TeleportBehavior::MODE_INTERPOLATED,
                },
                x, y, z, yaw, pitch,
            }
        } else {
            ServerPacket::SetPositionOrientation { player_id: shown_id, x, y, z, yaw, pitch }
        };
        if own {
            q.packets_to_send.push(ServerPacket::Message { player_id: -1, message: text3(note.as_str(), "", "") });
        }
        q.packets_to_send.push(packet);
        data.players.insert(i, q);
        i = i + 1;
    }
    proof {
        assert(data.players@[target as int].username@ == who@);
    }
    Vec::new()
}

/// Whether `s` is the first player with id `id`.
pub open spec fn first_id(players: Seq<Player>, id: i8, s: int) -> bool {
    &&& 0 <= s < players.len()
    &&& players[s].id == id
    &&& forall|j: int| 0 <= j < s ==> (#[trigger] players[j]).id != id
}

/// An optional string as optional text.
pub open spec fn opt_view(o: Option<String>) -> Option<Seq<char>> {
    match o {
        Some(t) => Some(t@),
        None => None,
    }
}

/// Whether the chat lines are the texts.
pub open spec fn lines_are(r: Seq<String>, texts: Seq<Seq<char>>) -> bool {
    r.len() == texts.len() && forall|i: int| 0 <= i < r.len() ==> (#[trigger] r[i])@ == texts[i]
}

/// What `/kick` does: the first player with the name is marked to be kicked if the sender
/// outranks it; nothing else changes.
pub open spec fn kicked(a: &ServerData, b: &ServerData, sender: PlayerType, username: Seq<char>,
    message: Option<Seq<char>>, r: Seq<String>) -> bool {
    &&& r.len() == 1
    &&& *b == (ServerData { players: b.players, ..*a })
    &&& b.players@.len() == a.players@.len()
    &&& !name_taken(a.players@, username) ==> r[0]@ == "&cPlayer not connected to server!"@ && b.players@ == a.players@
    &&& forall|t: int| #[trigger] first_named(a.players@, username, t) ==> if rank(sender) > rank(a.players@[t].permissions) {
        &&& b.players@[t].should_be_kicked matches Some(reason) && reason@ == kick_reason(message)
        &&& b.players@[t].id == a.players@[t].id && b.players@[t].username == a.players@[t].username
        &&& forall|j: int| 0 <= j < b.players@.len() && j != t ==> b.players@[j] == a.players@[j]
        &&& r[0]@ == username + " has been kicked"@
    } else {
        r[0]@ == "&cThis player outranks or is the same rank as you"@ && b.players@ == a.players@
    }
}

/// `/kick`: marks the first player with the name to be kicked, if the sender outranks it.
#[verifier::rlimit(50)]
pub fn kick_command(data: &mut ServerData, sender: PlayerType, target: String, message: Option<String>) -> (r: Vec<String>)
    ensures
        kicked(old(data), final(data), sender, target@, opt_view(message), r@),
{
    let m: Option<&str> = match &message { Some(t) => Some(t.as_str()), None => None };
    let ghost a0 = *data;
    let (reply, at) = kick_player(&mut data.players, sender, target.as_str(), m);
    proof {
        assert(opt_view(message) == (match m { Some(t) => Some(t@), None => None }));
        assert forall|t: int| #[trigger] first_named(a0.players@, target@, t) implies
            (rank(sender) > rank(a0.players@[t].permissions) <==> at == Some(t as usize)) by {
            assert(a0.players@[t].username@ == target@);
        }
        if !name_taken(a0.players@, target@) {
            assert(at is None);
        }
    }
    let res = vec![reply];
    proof {
        assert(*data == (ServerData { players: data.players, ..a0 }));
        assert(res@[0] == reply);
        assert forall|t: int| #[trigger] first_named(a0.players@, target@, t) implies
            (if rank(sender) > rank(a0.players@[t].permissions) {
                &&& data.players@[t].should_be_kicked matches Some(reason) && reason@ == kick_reason(opt_view(message))
                &&& data.players@[t].id == a0.players@[t].id && data.players@[t].username == a0.players@[t].username
                &&& forall|j: int| 0 <= j < data.players@.len() && j != t ==> data.players@[j] == a0.players@[j]
                &&& res@[0]@ == target@ + " has been kicked"@
            } else {
                res@[0]@ == "&cThis player outranks or is the same rank as you"@ && data.players@ == a0.players@
            }) by {
            assert(name_taken(a0.players@, target@)) by {
                assert(a0.players@[t].username@ == target@);
            }
            if rank(sender) > rank(a0.players@[t].permissions) {
                assert(at == Some(t as usize));
            } else {
                if let Some(i) = at {
                    if (i as int) < t { assert(a0.players@[i as int].username@ == target@); }
                    if (i as int) > t { assert(a0.players@[t].username@ == target@); }
                }
                assert(at is None);
            }
        }
    }
    res
}

/// What a permitted command does, sent by player `s` of `a`, leaving `b` and answering `r`.
pub open spec fn command_done(c: Command, a: &ServerData, b: &ServerData, s: int, generated: Seq<char>,
    coords: Option<(i16, i16, i16, String)>, r: Seq<String>) -> bool {
    let me = a.players@[s];
    match c {
        Command::Me { action } => r.len() == 0 && exists|m: String| m@ == "&f*"@ + me.username@ + " "@ + action@
            && queued_to_all(a.players@, b.players@, ServerPacket::Message { player_id: me.id, message: m }),
        Command::Say { message } => r.len() == 0 && exists|m: String| m@ == "&d[SERVER] &f"@ + message@
            && queued_to_all(a.players@, b.players@, ServerPacket::Message { player_id: me.id, message: m }),
        Command::SetPermissions { player_username, permissions } => {
            let t = player_username@;
            &&& r.len() == 1
            &&& t == me.username@ ==> r[0]@ == "&cCannot change your own permissions"@
            &&& t != me.username@ && rank(permissions) >= rank(me.permissions)
                ==> r[0]@ == "&cCannot set permissions higher or equal to your own"@
            &&& t != me.username@ && rank(permissions) < rank(me.permissions)
                && rank(configured_perm(a.player_perms@, t)) >= rank(me.permissions)
                ==> r[0]@ == "&cThis player outranks or is the same rank as you"@
            &&& t != me.username@ && rank(permissions) < rank(me.permissions)
                && rank(configured_perm(a.player_perms@, t)) < rank(me.permissions)
                ==> r[0]@ == "Set permissions for "@ + t + " to "@ + perm_name(permissions)
                    && configured_perm(b.player_perms@, t) == permissions && b.config_needs_saving
        },
        Command::Kick { username, message } => kicked(a, b, me.permissions, username@, opt_view(message), r),
        Command::Stop => r.len() == 0 && *b == (ServerData { stop: true, ..*a }),
        Command::Help { command } => *b == *a && match command {
            Some(cmd) => match usage(cmd@) {
                Some((u, d)) => lines_are(r, seq!["&f/"@ + cmd@ + " "@ + u, d]),
                None => lines_are(r, seq!["&eUnknown command!"@]),
            },
            None => r.len() >= 2 && r[0]@ == "Commands available to you:"@,
        },
        Command::Ban { player_username, message } => {
            let t = player_username@;
            &&& r.len() == 1
            &&& !(a.protection_mode is PasswordsByUser) ==> r[0]@ == "&cServer must be set to per-user passwords!"@ && *b == *a
            &&& a.protection_mode is PasswordsByUser && !has_password(password_list(a), t)
                ==> r[0]@ == "&cPlayer is already banned!"@ && *b == *a
            &&& a.protection_mode is PasswordsByUser && has_password(password_list(a), t) && ban_refused(a.players@, t, me.permissions)
                ==> r[0]@ == "&cThis player outranks or is the same rank as you"@ && *b == *a
            &&& a.protection_mode is PasswordsByUser && has_password(password_list(a), t) && !ban_refused(a.players@, t, me.permissions)
                ==> r[0]@ == t + " has been banned"@ && b.config_needs_saving
                    && (forall|i: int| first_named(a.players@, t, i) ==> (b.players@[i].should_be_kicked matches Some(m)
                        && m@ == ban_reason(opt_view(message))))
                    && exists|k: int| 0 <= k < password_list(a).len() && (#[trigger] password_list(a)[k]).0@ == t
                        && password_list(b) == password_list(a).remove(k)
        },
        Command::AllowEntry { player_username, password } => {
            let t = player_username@;
            let pw = match password { Some(p) => p@, None => generated };
            match a.protection_mode {
                ServerProtectionMode::PasswordsByUser(m) => if has_password(m@, t) {
                    lines_are(r, seq!["&cPlayer is already allowed in the server!"@])
                } else {
                    lines_are(r, seq![t + " is now allowed in the server."@, "Password: "@ + pw])
                        && stored_password(b, t) == Some(pw) && b.config_needs_saving
                },
                _ => lines_are(r, seq!["&cServer must be set to per-user passwords!"@]),
            }
        },
        Command::SetPass { password } => r.len() == 1 && match a.protection_mode {
            ServerProtectionMode::PasswordsByUser(_) => r[0]@ == "Updated password!"@
                && stored_password(b, me.username@) == Some(password@) && b.config_needs_saving,
            _ => r[0]@ == "&cServer must be set to per-user passwords!"@ && *b == *a,
        },
        Command::SetLevelSpawn { overwrite_others } => {
            &&& lines_are(r, seq!["Level spawn updated!"@])
            &&& b.spawn == Some((me.x, me.y, me.z, me.yaw, me.pitch))
            &&& b.config_needs_saving
            &&& !overwrite_others ==> b.players@ == a.players@
        },
        Command::Weather { weather_type } => r.len() == 1 && match weather_named(weather_type@) {
            Some(w) => b.level.weather == w && r[0]@ == "Weather updated!"@
                && queued_to_all(a.players@, b.players@, ServerPacket::EnvWeatherType { weather_type: w }),
            None => b.level.weather == a.level.weather && b.players@ == a.players@
                && r[0]@ == "&cUnknown weather type "@ + weather_type@ + "!"@,
        },
        Command::Save => lines_are(r, seq!["Saving level..."@])
            && *b == (ServerData { level: Level { save_now: true, ..a.level }, ..*a }),
        Command::Teleport { username, destination } => {
            let who = resolve_name(username@, me.username@);
            let dest = resolve_name(destination@, me.username@);
            &&& r.len() <= 1
            &&& r.len() == 0 <==> (online(a.players@, who) && (coords is Some || online(a.players@, dest)))
            &&& forall|t: int, d: int| coords is None && #[trigger] first_named(a.players@, who, t)
                && #[trigger] first_named(a.players@, dest, d) ==> b.players@[t].x == a.players@[d].x
                    && b.players@[t].y == a.players@[d].y && b.players@[t].z == a.players@[d].z
                    && b.players@[t].yaw == a.players@[d].yaw && b.players@[t].pitch == a.players@[d].pitch
            &&& forall|t: int| #[trigger] first_named(a.players@, who, t) && r.len() == 0 && coords is Some
                ==> b.players@[t].x == coords->Some_0.0 && b.players@[t].y == coords->Some_0.1
                    && b.players@[t].z == coords->Some_0.2
            &&& forall|t: int| #[trigger] first_named(a.players@, who, t) && r.len() == 0
                ==> forall|q: int| 0 <= q < b.players@.len() ==> moved_seen(b.players@[q], q == t, a.players@[t].id, b.players@[t])
        },
        Command::LevelRule { rule, value } => {
            let (lines, n) = levelrule_reply(a.level.rules, rule@, opt_view(value));
            &&& lines_are(r, lines)
            &&& *b == (ServerData { level: Level { rules: n, ..a.level }, ..*a })
        },
    }
}

impl Command {
    /// Runs a command sent by the player with id `own_id`, returning the chat lines for it. A
    /// player below the command's level gets a refusal and nothing changes. `generated_password`
    /// is the password `/allowentry` hands out when none is given; `coords` is where `/tp` sends
    /// a player when its destination is a position.
    #[verifier::rlimit(100)]
    #[verifier::spinoff_prover]
    pub fn process(self, data: &mut ServerData, own_id: i8, generated_password: &str,
        coords: Option<(i16, i16, i16, String)>) -> (r: Vec<String>)
        requires
            old(data).level.wf(),
        ensures
            (forall|i: int| 0 <= i < old(data).players@.len() ==> (#[trigger] old(data).players@[i]).id != own_id)
                ==> r@.len() == 0 && *final(data) == *old(data),
            forall|s: int| #[trigger] first_id(old(data).players@, own_id, s)
                && rank(old(data).players@[s].permissions) < rank(perms_for(command_name_of(self)))
                ==> lines_are(r@, seq!["&cPermissions do not allow you to use this command"@]) && *final(data) == *old(data),
            forall|s: int| #[trigger] first_id(old(data).players@, own_id, s)
                && rank(old(data).players@[s].permissions) >= rank(perms_for(command_name_of(self)))
                ==> command_done(self, old(data), final(data), s, generated_password@, coords, r@),
    {
        let me = match find_player_by_id(&data.players, own_id) {
            Some(i) => i,
            None => return Vec::new(),
        };
        proof {
            assert forall|j: int| 0 <= j < me && (#[trigger] data.players@[j]).id == own_id implies false by {
                assert(data.players@[j].id == own_id);
            }
        }
        let perms = data.players[me].permissions;
        if !perms.allows(self.perms_required()) {
            return vec![String::from_str("&cPermissions do not allow you to use this command")];
        }
        let username = data.players[me].username.clone();
        let position = (data.players[me].x, data.players[me].y, data.players[me].z, data.players[me].yaw, data.players[me].pitch);
        let ghost cmd = self;
        let ghost a0 = *data;
        let ghost coords0 = coords;
        proof {
            assert forall|s: int| #[trigger] first_id(old(data).players@, own_id, s) implies s == me by {
                if s < me { } else if s > me { assert(data.players@[me as int].id == own_id); }
            }
        }
        let r = match self {
            Command::Me { action } => {
                let res = me_command(data, own_id, username.as_str(), action.as_str());
                proof { assert(command_done(cmd, &a0, data, me as int, generated_password@, coords0, res@)); }
                res
            },
            Command::Say { message } => {
                let res = say_command(data, own_id, message.as_str());
                proof { assert(command_done(cmd, &a0, data, me as int, generated_password@, coords0, res@)); }
                res
            },
            Command::SetPermissions { player_username, permissions } => {
                let res = vec![setperm_command(data, perms, username.as_str(), player_username.as_str(), permissions)];
                proof { assert(command_done(cmd, &a0, data, me as int, generated_password@, coords0, res@)); }
                res
            },
            Command::Kick { username: target, message } => {
                let res = kick_command(data, perms, target, message);
                proof { assert(command_done(cmd, &a0, data, me as int, generated_password@, coords0, res@)); }
                res
            },
            Command::Stop => {
                data.stop = true;
                let res: Vec<String> = Vec::new();
                proof { assert(command_done(cmd, &a0, data, me as int, generated_password@, coords0, res@)); }
                res
            },
            Command::Help { command } => {
                let res = match command {
                    Some(c) => Command::help(c.as_str()),
                    None => command_list(perms),
                };
                proof { assert(command_done(cmd, &a0, data, me as int, generated_password@, coords0, res@)); }
                res
            },
            Command::Ban { player_username, message } => {
                let m: Option<&str> = match &message { Some(t) => Some(t.as_str()), None => None };
                let res = vec![ban_command(data, perms, player_username.as_str(), m)];
                proof { assert(command_done(cmd, &a0, data, me as int, generated_password@, coords0, res@)); }
                res
            },
            Command::AllowEntry { player_username, password } => {
                let pw: Option<&str> = match &password { Some(t) => Some(t.as_str()), None => None };
                let res = allowentry_command(data, player_username.as_str(), pw, generated_password);
                proof { assert(command_done(cmd, &a0, data, me as int, generated_password@, coords0, res@)); }
                res
            },
            Command::SetPass { password } => {
                let res = vec![setpass_command(data, username.as_str(), password.as_str())];
                proof { assert(command_done(cmd, &a0, data, me as int, generated_password@, coords0, res@)); }
                res
            },
            Command::SetLevelSpawn { overwrite_others } => {
                let res = vec![setlevelspawn_command(data, position, overwrite_others)];
                proof { assert(command_done(cmd, &a0, data, me as int, generated_password@, coords0, res@)); }
                res
            },
            Command::Weather { weather_type } => {
                let res = vec![weather_command(data, weather_type.as_str())];
                proof { assert(command_done(cmd, &a0, data, me as int, generated_password@, coords0, res@)); }
                res
            },
            Command::Save => {
                data.level.save_now = true;
                let res = vec![String::from_str("Saving level...")];
                proof { assert(command_done(cmd, &a0, data, me as int, generated_password@, coords0, res@)); }
                res
            },
            Command::Teleport { username: target, destination } => {
                let res = teleport_command(data, username.as_str(), target.as_str(), destination.as_str(), coords);
                proof { assert(command_done(cmd, &a0, data, me as int, generated_password@, coords0, res@)); }
                res
            },
            Command::LevelRule { rule, value } => {
                let v: Option<&str> = match &value { Some(t) => Some(t.as_str()), None => None };
                let res = levelrule_command(&mut data.level.rules, rule.as_str(), v);
                proof { assert(command_done(cmd, &a0, data, me as int, generated_password@, coords0, res@)); }
                res
            },
        };
        r
    }
}

/// The place a joining player starts at: where it was when it last left, else the configured
/// spawn point, else the default one.
pub open spec fn join_position(d: &ServerData, username: Seq<char>) -> (i16, i16, i16, u8, u8) {
    match saved_data_of(d.level.player_data@, username) {
        Some(s) => (s.x, s.y, s.z, s.yaw, s.pitch),
        None => match d.spawn {
            Some(p) => p,
            None => (528i16, (((d.level.y_size / 2 + 2) * 32) as i16), 528i16, 0u8, 0u8),
        },
    }
}

/// The id a joining player gets: the most recently freed one, else the number of players.
pub open spec fn join_id(d: &ServerData) -> i8 {
    if d.free_player_ids@.len() > 0 { d.free_player_ids@.last() } else { d.players@.len() as i8 }
}

/// Whether `p` is the `SpawnPlayer` of player `q`.
pub open spec fn spawn_of(p: ServerPacket, q: Player) -> bool {
    p matches ServerPacket::SpawnPlayer { player_id, player_name, x, y, z, yaw, pitch }
        && player_id == q.id && player_name@ == q.username@ && x == q.x && y == q.y && z == q.z
        && yaw == q.yaw && pitch == q.pitch
}

/// Adds a player who passed identification and negotiation, and returns its id and the packets
/// that set up its client, in order: `ServerIdentification`, the level stream, the weather if
/// negotiated, a `SpawnPlayer` for every player already there, a welcome line, `UpdateUserType`
/// and, if negotiated, the inventory order. Everyone, the new player included, is sent its
/// `SpawnPlayer` and a join line. `None`, with nothing changed, exactly when compressing the
/// level fails.
pub fn join_player(data: &mut ServerData, username: &str, permissions: PlayerType, extensions: ExtBitmask,
    custom_blocks_support_level: u8, server_name: &str, motd: &str) -> (r: Option<(i8, Vec<ServerPacket>)>)
    requires
        old(data).level.wf(),
        custom_blocks_support_level <= CUSTOM_BLOCKS_SUPPORT_LEVEL,
    ensures
        final(data).level == old(data).level,
        r is Some <==> gzip_best(level_payload(old(data).level.blocks@, sees_custom(extensions, custom_blocks_support_level))) is Some,
        r is None ==> *final(data) == *old(data),
        r matches Some((id, ps)) ==> {
            let g = gzip_best(level_payload(old(data).level.blocks@, sees_custom(extensions, custom_blocks_support_level)))->Some_0;
            let n: int = chunk_count(g.len()) as int + 2;
            let w: int = if extensions.has(Extension::EnvWeatherType) { 1 } else { 0 };
            let o = old(data).players@.len() as int;
            let pos = join_position(old(data), username@);
            let me = final(data).players@.last();
            &&& id == join_id(old(data))
            &&& final(data).players@.len() == o + 1
            &&& me.id == id && me.username@ == username@ && me.permissions == permissions
            &&& (me.x, me.y, me.z, me.yaw, me.pitch) == pos
            &&& me.extensions == extensions && me.custom_blocks_support_level == custom_blocks_support_level
            &&& me.should_be_kicked is None
            &&& forall|i: int| 0 <= i < o ==> (#[trigger] final(data).players@[i]).id == old(data).players@[i].id
                && final(data).players@[i].username == old(data).players@[i].username
            &&& forall|i: int| 0 <= i < o + 1 ==> {
                let q = #[trigger] final(data).players@[i];
                let k = q.packets_to_send@.len();
                &&& k >= 2
                &&& spawn_of(q.packets_to_send@[k - 2], me)
                &&& q.packets_to_send@[k - 1] matches ServerPacket::Message { player_id, message }
                    && player_id == id && message@ == "&e"@ + username@ + " has joined the server."@
            }
            &&& ps@.len() >= 1 + n + w + o + 2
            &&& ps@[0] matches ServerPacket::ServerIdentification { protocol_version, server_name: sn, server_motd: m, user_type }
                && protocol_version == PROTOCOL_VERSION && sn@ == server_name@ && m@ == motd@ && user_type == permissions
            &&& level_stream_ok(ps@.subrange(1, 1 + n), old(data).level.dims(), g)
            &&& w == 1 ==> ps@[1 + n] == (ServerPacket::EnvWeatherType { weather_type: old(data).level.weather })
            &&& forall|i: int| 0 <= i < o ==> spawn_of(#[trigger] ps@[1 + n + w + i], old(data).players@[i])
            &&& ps@[1 + n + w + o] matches ServerPacket::Message { player_id, message }
                && player_id == -1 && message@ == "&dWelcome to the server! Enjoyyyyyy"@
            &&& ps@[1 + n + w + o + 1] == (ServerPacket::UpdateUserType { user_type: permissions })
            &&& extensions.has(Extension::InventoryOrder) ==> ps@.len() == 1 + n + w + o + 2 + (if extensions.has(Extension::CustomBlocks)
                && custom_blocks_support_level == 1 { MAX_BLOCK_ID as int + 1 } else { MAX_CLASSIC_ID as int + 1 })
            &&& !extensions.has(Extension::InventoryOrder) ==> ps@.len() == 1 + n + w + o + 2
        },
{
    let mut stream = match build_level_packets(&data.level, extensions, custom_blocks_support_level) {
        Some(ps) => ps,
        None => return None,
    };
    let ghost g = gzip_best(level_payload(data.level.blocks@, sees_custom(extensions, custom_blocks_support_level)))->Some_0;
    let ghost st = stream@;
    let ghost o = data.players@.len() as int;
    let ghost start = *data;
    let count = data.players.len();
    let id = assign_player_id(&mut data.free_player_ids, count);
    let mut replies: Vec<ServerPacket> = Vec::new();
    replies.push(ServerPacket::ServerIdentification {
        protocol_version: PROTOCOL_VERSION,
        server_name: String::from_str(server_name),
        server_motd: String::from_str(motd),
        user_type: permissions,
    });
    let ghost first = replies@[0];
    let mut k: usize = 0;
    let n = stream.len();
    while k < n
        invariant
            n == st.len(),
            k <= n,
            stream@ == st.skip(k as int),
            replies@.len() == 1 + k,
            replies@[0] == first,
            replies@.subrange(1, 1 + k as int) == st.take(k as int),
        decreases n - k,
    {
        let p = stream.remove(0);
        replies.push(p);
        assert(replies@.subrange(1, 1 + k + 1) =~= st.take(k + 1));
        assert(stream@ =~= st.skip(k + 1));
        k = k + 1;
    }
    assert(st.take(n as int) =~= st);
    let ghost after_stream = replies@;
    if extensions.contains(Extension::EnvWeatherType) {
        replies.push(ServerPacket::EnvWeatherType { weather_type: data.level.weather });
    }
    let ghost w: int = if extensions.has(Extension::EnvWeatherType) { 1 } else { 0 };
    let ghost base = replies@;
    assert(after_stream.len() == 1 + n);
    assert(base.len() == 1 + n + w);
    let (x, y, z, yaw, pitch) = match self::saved_position(&data.level, username) {
        Some(s) => s,
        None => match data.spawn {
            Some(s) => s,
            None => default_spawn(&data.level),
        },
    };
    let mut i: usize = 0;
    while i < data.players.len()
        invariant
            data.players@ == start.players@,
            i <= data.players@.len(),
            replies@.len() == base.len() + i,
            replies@.take(base.len() as int) == base,
            forall|j: int| 0 <= j < i ==> spawn_of(#[trigger] replies@[base.len() + j], start.players@[j]),
        decreases data.players@.len() - i,
    {
        let other = &data.players[i];
        let ghost before = replies@;
        replies.push(ServerPacket::SpawnPlayer {
            player_id: other.id,
            player_name: other.username.clone(),
            x: other.x,
            y: other.y,
            z: other.z,
            yaw: other.yaw,
            pitch: other.pitch,
        });
        assert(replies@.take(base.len() as int) =~= before.take(base.len() as int));
        i = i + 1;
    }
    data.players.push(Player {
        id,
        username: String::from_str(username),
        x,
        y,
        z,
        yaw,
        pitch,
        permissions,
        extensions,
        custom_blocks_support_level,
        packets_to_send: Vec::new(),
        should_be_kicked: None,
    });
    let ghost joined = data.players@;
    let spawn = ServerPacket::SpawnPlayer { player_id: id, player_name: String::from_str(username), x, y, z, yaw, pitch };
    spread_packet(&mut data.players, &spawn);
    let ghost spawned = data.players@;
    let mut text = String::from_str("&e");
    text.append(username);
    text.append(" has joined the server.");
    spread_packet(&mut data.players, &ServerPacket::Message { player_id: id, message: text });
    proof {
        assert forall|i: int| 0 <= i < o + 1 implies {
            let q = #[trigger] data.players@[i];
            let k = q.packets_to_send@.len();
            &&& k >= 2
            &&& spawn_of(q.packets_to_send@[k - 2], data.players@.last())
            &&& q.packets_to_send@[k - 1] matches ServerPacket::Message { player_id, message }
                && player_id == id && message@ == "&e"@ + username@ + " has joined the server."@
        } by {
            assert(queued_one(joined[i], spawned[i], spawn));
            assert(queued_one(spawned[i], data.players@[i], ServerPacket::Message { player_id: id, message: text }));
            let k = data.players@[i].packets_to_send@.len();
            assert(data.players@[i].packets_to_send@[k - 2] == spawned[i].packets_to_send@.last());
        }
    }
    let ghost pre_welcome = replies@;
    proof {
        assert(pre_welcome.len() == base.len() + o);
    }
    replies.push(ServerPacket::Message { player_id: -1, message: String::from_str("&dWelcome to the server! Enjoyyyyyy") });
    replies.push(ServerPacket::UpdateUserType { user_type: permissions });
    let ghost fixed_all = replies@;
    proof {
        assert(fixed_all.take(pre_welcome.len() as int) =~= pre_welcome);
        assert(pre_welcome.take(base.len() as int) == base);
        assert(base.take(after_stream.len() as int) =~= after_stream);
    }
    if extensions.contains(Extension::InventoryOrder) {
        let inv = inventory_order_packets(permissions, extensions, custom_blocks_support_level);
        let ghost fixed = replies@;
        let mut j: usize = 0;
        while j < inv.len()
            invariant
                j <= inv@.len(),
                replies@.len() == fixed.len() + j,
                replies@.take(fixed.len() as int) == fixed,
            decreases inv@.len() - j,
        {
            let ghost before = replies@;
            replies.push(inv[j].duplicate());
            assert(replies@.take(fixed.len() as int) =~= before.take(fixed.len() as int));
            j = j + 1;
        }
        proof {
            assert(replies@[0] == fixed[0]);
        }
    }
    proof {
        assert(replies@.take(fixed_all.len() as int) == fixed_all);
        assert forall|q: int| 0 <= q < fixed_all.len() implies replies@[q] == fixed_all[q] by {
            assert(replies@.take(fixed_all.len() as int)[q] == replies@[q]);
        }
        assert forall|q: int| 0 <= q < pre_welcome.len() implies fixed_all[q] == pre_welcome[q] by {
            assert(fixed_all.take(pre_welcome.len() as int)[q] == fixed_all[q]);
        }
        assert forall|q: int| 0 <= q < base.len() implies pre_welcome[q] == base[q] by {
            assert(pre_welcome.take(base.len() as int)[q] == pre_welcome[q]);
        }
        assert forall|q: int| 0 <= q < after_stream.len() implies base[q] == after_stream[q] by {
            assert(base.take(after_stream.len() as int)[q] == base[q]);
        }
        assert(after_stream.subrange(1, 1 + n as int) == st);
        assert(replies@.subrange(1, 1 + n as int) =~= after_stream.subrange(1, 1 + n as int));
        let nn: int = chunk_count(g.len()) as int + 2;
        assert(nn == n);
        assert(level_stream_ok(replies@.subrange(1, 1 + nn), start.level.dims(), g));
        assert(id == join_id(&start));
        assert(replies@[0] == fixed_all[0]);
        assert(replies@.len() >= 1 + nn + w + o + 2);
        assert(data.players@.len() == o + 1);
        assert(forall|i: int| 0 <= i < o ==> (#[trigger] data.players@[i]).id == start.players@[i].id
            && data.players@[i].username == start.players@[i].username);
        assert(data.players@.last().should_be_kicked is None);
        assert(data.players@.last().extensions == extensions);
        assert(fixed_all.len() == 1 + nn + w + o + 2);
        assert(!extensions.has(Extension::InventoryOrder) ==> replies@.len() == 1 + nn + w + o + 2);
        let me = data.players@.last();
        assert((me.x, me.y, me.z, me.yaw, me.pitch) == join_position(&start, username@));
        assert forall|i: int| 0 <= i < o implies spawn_of(#[trigger] replies@[1 + nn + w + i], start.players@[i]) by {
            assert(replies@[base.len() + i] == fixed_all[base.len() + i]);
            assert(fixed_all[base.len() + i] == pre_welcome[base.len() + i]);
        }
        assert(replies@[pre_welcome.len() as int] == fixed_all[pre_welcome.len() as int]);
        assert(replies@[pre_welcome.len() as int + 1] == fixed_all[pre_welcome.len() as int + 1]);
        assert(forall|i: int| 0 <= i < o ==> spawn_of(#[trigger] replies@[1 + nn + w + i], start.players@[i]));
        assert(replies@[1 + nn + w + o] matches ServerPacket::Message { player_id, message }
            && player_id == -1 && message@ == "&dWelcome to the server! Enjoyyyyyy"@);
        assert(replies@[1 + nn + w + o + 1] == (ServerPacket::UpdateUserType { user_type: permissions }));
        if w == 1 {
            assert(replies@[1 + nn] == fixed_all[1 + nn]);
            assert(fixed_all[1 + nn] == pre_welcome[1 + nn]);
            assert(pre_welcome[1 + nn] == base[1 + nn]);
            assert(base[1 + nn] == (ServerPacket::EnvWeatherType { weather_type: start.level.weather }));
        }
    }
    Some((id, replies))
}

/// Whether `b` is player `a` with the leave of player `id`, named `name`, queued: its
/// `DespawnPlayer` and the leave line.
pub open spec fn told_left(a: Player, b: Player, id: i8, name: Seq<char>) -> bool {
    &&& b.id == a.id && b.username == a.username && b.permissions == a.permissions
    &&& b.should_be_kicked == a.should_be_kicked
    &&& b.packets_to_send@.len() == a.packets_to_send@.len() + 2
    &&& b.packets_to_send@.take(a.packets_to_send@.len() as int) == a.packets_to_send@
    &&& b.packets_to_send@[a.packets_to_send@.len() as int] == (ServerPacket::DespawnPlayer { player_id: id })
    &&& b.packets_to_send@.last() matches ServerPacket::Message { player_id, message }
        && player_id == id && message@ == "&e"@ + name + " has left the server."@
}

/// Ends the session of the player with id `own_id`: the first player with that id leaves the
/// roster, its id is freed, every remaining player is told (`DespawnPlayer` and a leave line),
/// and where it was is kept in the level under its username. `false`, with nothing changed,
/// when no player has the id.
pub fn leave(data: &mut ServerData, own_id: i8) -> (r: bool)
    requires
        old(data).level.wf(),
    ensures
        final(data).level.wf(),
        (forall|i: int| 0 <= i < old(data).players@.len() ==> (#[trigger] old(data).players@[i]).id != own_id)
            ==> !r && *final(data) == *old(data),
        forall|s: int| #[trigger] first_id(old(data).players@, own_id, s) ==> {
            let p = old(data).players@[s];
            let rest = old(data).players@.remove(s);
            &&& r
            &&& final(data).players@.len() == rest.len()
            &&& forall|i: int| 0 <= i < rest.len() ==> told_left(rest[i], #[trigger] final(data).players@[i], own_id, p.username@)
            &&& final(data).free_player_ids@ == old(data).free_player_ids@.push(own_id)
            &&& saved_data_of(final(data).level.player_data@, p.username@)
                == Some(SavablePlayerData { x: p.x, y: p.y, z: p.z, yaw: p.yaw, pitch: p.pitch })
            &&& forall|n: Seq<char>| n != p.username@ ==> #[trigger] saved_data_of(final(data).level.player_data@, n)
                == saved_data_of(old(data).level.player_data@, n)
            &&& only_player_data_changed(&old(data).level, &final(data).level)
        },
{
    let s = match find_player_by_id(&data.players, own_id) {
        Some(s) => s,
        None => return false,
    };
    proof {
        assert forall|t: int| #[trigger] first_id(old(data).players@, own_id, t) implies t == s by {
            if t < s { } else if t > s { assert(data.players@[s as int].id == own_id); }
        }
    }
    let p = data.players.remove(s);
    let ghost rest = data.players@;
    data.free_player_ids.push(own_id);
    let saved = SavablePlayerData { x: p.x, y: p.y, z: p.z, yaw: p.yaw, pitch: p.pitch };
    data.level.store_player_data(p.username.as_str(), saved);
    let despawn = ServerPacket::DespawnPlayer { player_id: own_id };
    spread_packet(&mut data.players, &despawn);
    let ghost mid = data.players@;
    let mut text = String::from_str("&e");
    text.append(p.username.as_str());
    text.append(" has left the server.");
    let line = ServerPacket::Message { player_id: own_id, message: text };
    spread_packet(&mut data.players, &line);
    proof {
        assert forall|i: int| 0 <= i < rest.len() implies told_left(rest[i], #[trigger] data.players@[i], own_id, p.username@) by {
            assert(queued_one(rest[i], mid[i], despawn));
            assert(queued_one(mid[i], data.players@[i], line));
            let k = rest[i].packets_to_send@.len();
            assert(data.players@[i].packets_to_send@.take(k as int) =~= rest[i].packets_to_send@) by {
                assert(data.players@[i].packets_to_send@.take(k as int + 1) == mid[i].packets_to_send@);
            }
            assert(data.players@[i].packets_to_send@[k as int] == mid[i].packets_to_send@[k as int]);
        }
    }
    true
}

/// Records where the player with id `own_id` now is and tells everyone:
/// `ExtEntityTeleport` to clients that negotiated it, `SetPositionOrientation` to the others.
/// `false`, with nothing changed, when no player has the id.
pub fn move_player(data: &mut ServerData, own_id: i8, x: i16, y: i16, z: i16, yaw: u8, pitch: u8) -> (r: bool)
    ensures
        (forall|i: int| 0 <= i < old(data).players@.len() ==> (#[trigger] old(data).players@[i]).id != own_id)
            ==> !r && *final(data) == *old(data),
        forall|s: int| #[trigger] first_id(old(data).players@, own_id, s) ==> {
            &&& r
            &&& final(data).players@.len() == old(data).players@.len()
            &&& final(data).players@[s].x == x && final(data).players@[s].y == y && final(data).players@[s].z == z
            &&& final(data).players@[s].yaw == yaw && final(data).players@[s].pitch == pitch
            &&& forall|q: int| 0 <= q < final(data).players@.len()
                ==> moved_to(#[trigger] final(data).players@[q], false, own_id, x, y, z, yaw, pitch)
        },
        final(data).level == old(data).level,
{
    let s = match find_player_by_id(&data.players, own_id) {
        Some(s) => s,
        None => return false,
    };
    proof {
        assert forall|t: int| #[trigger] first_id(old(data).players@, own_id, t) implies t == s by {
            if t < s { } else if t > s { assert(data.players@[s as int].id == own_id); }
        }
    }
    let mut p = data.players.remove(s);
    p.x = x;
    p.y = y;
    p.z = z;
    p.yaw = yaw;
    p.pitch = pitch;
    data.players.insert(s, p);
    let mut i: usize = 0;
    while i < data.players.len()
        invariant
            i <= data.players@.len(),
            data.players@.len() == old(data).players@.len(),
            s < data.players@.len(),
            data.level == old(data).level,
            data.players@[s as int].x == x && data.players@[s as int].y == y && data.players@[s as int].z == z,
            data.players@[s as int].yaw == yaw && data.players@[s as int].pitch == pitch,
            forall|k: int| 0 <= k < i ==> moved_to(#[trigger] data.players@[k], false, own_id, x, y, z, yaw, pitch),
        decreases data.players@.len() - i,
    {
        let mut q = data.players.remove(i);
        let packet = if q.extensions.contains(Extension::ExtEntityTeleport) {
            ServerPacket::ExtEntityTeleport {
                entity_id: own_id,
                teleport_behavior: TeleportBehavior {
                    bits: TeleportBehavior::USE_POSITION | TeleportBehavior::USE_ORIENTATION | TeleportBehavior::MODE_INTERPOLATED,
                },
                x, y, z, yaw, pitch,
            }
        } else {
            ServerPacket::SetPositionOrientation { player_id: own_id, x, y, z, yaw, pitch }
        };
        q.packets_to_send.push(packet);
        data.players.insert(i, q);
        i = i + 1;
    }
    true
}

/// The permission level configured for a username, `Normal` if none is.
pub fn permissions_for(data: &ServerData, username: &str) -> (r: PlayerType)
    ensures
        r == configured_perm(data.player_perms@, username@),
{
    match perm_index(&data.player_perms, username) {
        Some(i) => data.player_perms[i].1,
        None => PlayerType::Normal,
    }
}

/// Where a player was when it last left, if the level kept it.
pub fn saved_position(level: &Level, username: &str) -> (r: Option<(i16, i16, i16, u8, u8)>)
    ensures
        r == (match saved_data_of(level.player_data@, username@) {
            Some(s) => Some((s.x, s.y, s.z, s.yaw, s.pitch)),
            None => None,
        }),
{
    let mut i: usize = 0;
    assert(level.player_data@.skip(0) =~= level.player_data@);
    while i < level.player_data.len()
        invariant
            i <= level.player_data@.len(),
            saved_data_of(level.player_data@, username@) == saved_data_of(level.player_data@.skip(i as int), username@),
        decreases level.player_data@.len() - i,
    {
        assert(level.player_data@.skip(i as int)[0] == level.player_data@[i as int]);
        assert(level.player_data@.skip(i as int).skip(1) =~= level.player_data@.skip(i + 1));
        if level.player_data[i].0 == String::from_str(username) {
            let d = level.player_data[i].1;
            return Some((d.x, d.y, d.z, d.yaw, d.pitch));
        }
        i = i + 1;
    }
    assert(level.player_data@.skip(i as int).len() == 0);
    None
}
} // verus!
