use vstd::prelude::*;
use vstd::string::*;

use crate::block::{
    block_info, catalog, kind_of, may_replace, place_perm_of, CUSTOM_BLOCKS_SUPPORT_LEVEL, ID_AIR, MAX_BLOCK_ID,
    MAX_CLASSIC_ID,
};
use crate::level::{BlockUpdate, Level};
use crate::packet::server::ServerPacket;
use crate::packet::{ext_name, ext_supported, ExtBitmask, Extension, PROTOCOL_VERSION};
use crate::player::{rank, PlayerType};
use crate::rules::digit_char;

verus! {

/// How the server checks the key a client sends when identifying.
#[derive(Debug)]
pub enum ServerProtectionMode {
    /// anyone may join
    Unprotected,
    /// everyone must send this password
    Password(String),
    /// each listed username must send its own password; others may not join. Where a username is
    /// listed twice, its first entry counts.
    PasswordsByUser(Vec<(String, String)>),
}

/// A connected player. Positions are fixed-point, in 1/32 of a block.
#[derive(Debug)]
pub struct Player {
    /// the player's id
    pub id: i8,
    /// the player's username
    pub username: String,
    pub x: i16,
    pub y: i16,
    pub z: i16,
    pub yaw: u8,
    pub pitch: u8,
    /// the player's permission level
    pub permissions: PlayerType,
    /// the extensions the player's client negotiated
    pub extensions: ExtBitmask,
    /// the level of custom blocks the player's client supports
    pub custom_blocks_support_level: u8,
    /// packets waiting to be sent to this player
    pub packets_to_send: Vec<ServerPacket>,
    /// the reason to kick this player with, once it is set
    pub should_be_kicked: Option<String>,
}

/// The password registered for a username, if any: the first entry with that name.
pub open spec fn password_of(m: Seq<(String, String)>, name: Seq<char>) -> Option<Seq<char>>
    decreases m.len(),
{
    if m.len() == 0 {
        None
    } else if m[0].0@ == name {
        Some(m[0].1@)
    } else {
        password_of(m.skip(1), name)
    }
}

/// Setting the first entry of a name sets the password found for it.
pub proof fn lemma_password_set(m: Seq<(String, String)>, i: int, name: Seq<char>, e: (String, String))
    requires
        0 <= i < m.len(),
        m[i].0@ == name,
        forall|j: int| 0 <= j < i ==> (#[trigger] m[j]).0@ != name,
        e.0@ == name,
    ensures
        password_of(m.update(i, e), name) == Some(e.1@),
    decreases i,
{
    let u = m.update(i, e);
    if i > 0 {
        assert(u[0] == m[0]);
        assert(u.skip(1) =~= m.skip(1).update(i - 1, e));
        assert forall|j: int| 0 <= j < i - 1 implies (#[trigger] m.skip(1)[j]).0@ != name by {
            assert(m.skip(1)[j] == m[j + 1]);
        }
        lemma_password_set(m.skip(1), i - 1, name, e);
    }
}

/// Appending an entry for a name that had none gives it that password.
pub proof fn lemma_password_push(m: Seq<(String, String)>, name: Seq<char>, e: (String, String))
    requires
        forall|j: int| 0 <= j < m.len() ==> (#[trigger] m[j]).0@ != name,
        e.0@ == name,
    ensures
        password_of(m.push(e), name) == Some(e.1@),
    decreases m.len(),
{
    let u = m.push(e);
    if m.len() > 0 {
        assert(u[0] == m[0]);
        assert(u.skip(1) =~= m.skip(1).push(e));
        assert forall|j: int| 0 <= j < m.skip(1).len() implies (#[trigger] m.skip(1)[j]).0@ != name by {
            assert(m.skip(1)[j] == m[j + 1]);
        }
        lemma_password_push(m.skip(1), name, e);
    } else {
        assert(u[0] == e);
    }
}

/// Whether the protection mode lets `name` in with `key`.
pub open spec fn key_accepted(mode: ServerProtectionMode, name: Seq<char>, key: Seq<char>) -> bool {
    match mode {
        ServerProtectionMode::Unprotected => true,
        ServerProtectionMode::Password(p) => key == p@,
        ServerProtectionMode::PasswordsByUser(m) => password_of(m@, name) == Some(key),
    }
}

/// Whether some connected player has the username.
pub open spec fn name_taken(players: Seq<Player>, name: Seq<char>) -> bool {
    exists|i: int| 0 <= i < players.len() && (#[trigger] players[i]).username@ == name
}

/// The reply to a `PlayerIdentification`: the reason to refuse it, checked in order (protocol
/// version, key, username already connected), or success.
pub open spec fn identification_result(protocol_version: u8, name: Seq<char>, key: Seq<char>,
    mode: ServerProtectionMode, players: Seq<Player>) -> Result<(), Seq<char>> {
    if protocol_version != PROTOCOL_VERSION {
        Err("Unknown protocol version! Please connect with a classic 0.30-compatible client."@)
    } else if !key_accepted(mode, name, key) {
        Err("Incorrect password!"@)
    } else if name_taken(players, name) {
        Err("Player with username already connected!"@)
    } else {
        Ok(())
    }
}

fn lookup_password<'a>(m: &'a Vec<(String, String)>, name: &String) -> (r: Option<&'a String>)
    ensures
        r matches Some(p) ==> password_of(m@, name@) == Some(p@),
        r is None ==> password_of(m@, name@) is None,
{
    let mut i: usize = 0;
    assert(m@.skip(0) =~= m@);
    while i < m.len()
        invariant
            i <= m@.len(),
            password_of(m@, name@) == password_of(m@.skip(i as int), name@),
        decreases m@.len() - i,
    {
        assert(m@.skip(i as int).skip(1) =~= m@.skip(i + 1));
        if m[i].0 == *name {
            assert(m@.skip(i as int)[0] == m@[i as int]);
            return Some(&m[i].1);
        }
        assert(m@.skip(i as int)[0] == m@[i as int]);
        i = i + 1;
    }
    assert(m@.skip(i as int).len() == 0);
    None
}

/// Checks a client's identification against the protocol version, the protection mode and the
/// players already connected; the error is the reason to disconnect it with.
pub fn check_identification(protocol_version: u8, username: &String, verification_key: &String,
    mode: &ServerProtectionMode, players: &Vec<Player>) -> (r: Result<(), String>)
    ensures
        match identification_result(protocol_version, username@, verification_key@, *mode, players@) {
            Ok(()) => r is Ok,
            Err(e) => r matches Err(m) && m@ == e,
        },
{
    if protocol_version != PROTOCOL_VERSION {
        return Err(String::from_str("Unknown protocol version! Please connect with a classic 0.30-compatible client."));
    }
    let accepted = match mode {
        ServerProtectionMode::Unprotected => true,
        ServerProtectionMode::Password(p) => *verification_key == *p,
        ServerProtectionMode::PasswordsByUser(m) => match lookup_password(m, username) {
            Some(p) => *verification_key == *p,
            None => false,
        },
    };
    if !accepted {
        return Err(String::from_str("Incorrect password!"));
    }
    let mut i: usize = 0;
    while i < players.len()
        invariant
            i <= players@.len(),
            protocol_version == PROTOCOL_VERSION,
            key_accepted(*mode, username@, verification_key@),
            forall|k: int| 0 <= k < i ==> (#[trigger] players@[k]).username@ != username@,
        decreases players@.len() - i,
    {
        if players[i].username == *username {
            assert(name_taken(players@, username@)) by {
                assert(players@[i as int].username@ == username@);
            }
            return Err(String::from_str("Player with username already connected!"));
        }
        i = i + 1;
    }
    Ok(())
}

/// Picks the id of a joining player: the most recently freed id, or else the number of players.
pub fn assign_player_id(free_player_ids: &mut Vec<i8>, player_count: usize) -> (r: i8)
    ensures
        old(free_player_ids)@.len() > 0 ==> r == old(free_player_ids)@.last()
            && final(free_player_ids)@ == old(free_player_ids)@.drop_last(),
        old(free_player_ids)@.len() == 0 ==> r == player_count as i8 && final(free_player_ids)@.len() == 0,
{
    match free_player_ids.pop() {
        Some(id) => id,
        None => #[verifier::truncate] (player_count as i8),
    }
}

/// The custom block level both sides support.
pub fn custom_support_level(client_level: u8) -> (r: u8)
    ensures
        r == if client_level < CUSTOM_BLOCKS_SUPPORT_LEVEL { client_level } else { CUSTOM_BLOCKS_SUPPORT_LEVEL },
{
    if client_level < CUSTOM_BLOCKS_SUPPORT_LEVEL { client_level } else { CUSTOM_BLOCKS_SUPPORT_LEVEL }
}

/// Whether the client announced extension `e` under its name at version 1.
pub open spec fn client_offers(client: Seq<(String, i32)>, e: Extension) -> bool {
    exists|j: int| 0 <= j < client.len() && (#[trigger] client[j]).0@ == ext_name(e) && client[j].1 == 1
}

fn supported_list() -> (r: Vec<Extension>)
    ensures
        forall|e: Extension| ext_supported(e) <==> r@.contains(e),
{
    let r = vec![Extension::CustomBlocks, Extension::HeldBlock, Extension::EmoteFix, Extension::EnvWeatherType, Extension::FullCP437];
    proof {
        assert forall|e: Extension| ext_supported(e) <==> r@.contains(e) by {
            if ext_supported(e) {
                if e == Extension::CustomBlocks { assert(r@[0] == e); }
                else if e == Extension::HeldBlock { assert(r@[1] == e); }
                else if e == Extension::EmoteFix { assert(r@[2] == e); }
                else if e == Extension::EnvWeatherType { assert(r@[3] == e); }
                else { assert(r@[4] == e); }
            }
        }
    }
    r
}

/// The extensions both sides support: those of the server that the client announced by the same
/// name and version.
pub fn negotiate_extensions(client: &Vec<(String, i32)>) -> (r: ExtBitmask)
    ensures
        forall|e: Extension| r.has(e) <==> (ext_supported(e) && client_offers(client@, e)),
{
    let list = supported_list();
    let mut mask = ExtBitmask::none();
    let mut i: usize = 0;
    while i < list.len()
        invariant
            i <= list@.len(),
            forall|e: Extension| ext_supported(e) <==> list@.contains(e),
            forall|e: Extension| mask.has(e) <==> (exists|k: int| 0 <= k < i && list@[k] == e) && client_offers(client@, e),
        decreases list@.len() - i,
    {
        let e = list[i];
        let name = match e.name() {
            Some(n) => String::from_str(n),
            None => String::new(),
        };
        let ghost name_ok = ext_supported(e);
        let mut found = false;
        let mut j: usize = 0;
        while j < client.len()
            invariant
                j <= client@.len(),
                ext_supported(e) ==> name@ == ext_name(e),
                list@[i as int] == e,
                found == exists|k: int| 0 <= k < j && (#[trigger] client@[k]).0@ == name@ && client@[k].1 == 1,
            decreases client@.len() - j,
        {
            if client[j].0 == name && client[j].1 == 1 {
                found = true;
            }
            proof {
                if found && !(client@[j as int].0@ == name@ && client@[j as int].1 == 1) {
                    let k = choose|k: int| 0 <= k < j && (#[trigger] client@[k]).0@ == name@ && client@[k].1 == 1;
                }
            }
            j = j + 1;
        }
        let ghost before = mask;
        if found {
            mask = mask.with(e);
        }
        proof {
            assert(list@.contains(e));
            assert forall|f: Extension| mask.has(f) <==> (exists|k: int| 0 <= k < i + 1 && list@[k] == f) && client_offers(client@, f) by {
                if f == e {
                    assert(list@[i as int] == f);
                    if found {
                        let k = choose|k: int| 0 <= k < client@.len() && (#[trigger] client@[k]).0@ == name@ && client@[k].1 == 1;
                        assert(client@[k].0@ == ext_name(f));
                    }
                    if client_offers(client@, f) {
                        let k = choose|k: int| 0 <= k < client@.len() && (#[trigger] client@[k]).0@ == ext_name(f) && client@[k].1 == 1;
                        assert(client@[k].0@ == name@);
                    }
                } else if exists|k: int| 0 <= k < i + 1 && list@[k] == f {
                    let k = choose|k: int| 0 <= k < i + 1 && list@[k] == f;
                    assert(k < i);
                }
            }
        }
        i = i + 1;
    }
    proof {
        assert forall|e: Extension| mask.has(e) <==> (ext_supported(e) && client_offers(client@, e)) by {
            if ext_supported(e) {
                assert(list@.contains(e));
                let k = choose|k: int| 0 <= k < list@.len() && list@[k] == e;
            }
        }
    }
    mask
}

/// The lowercase hexadecimal digit of `d`.
pub open spec fn hex_char(d: nat) -> char {
    if d < 10 { digit_char(d) } else if d == 10 { 'a' } else if d == 11 { 'b' } else if d == 12 { 'c' }
    else if d == 13 { 'd' } else if d == 14 { 'e' } else { 'f' }
}

/// The lowercase hexadecimal text of a byte, without leading zeros.
pub open spec fn hex(b: u8) -> Seq<char> {
    if b < 16 { seq![hex_char(b as nat)] } else { seq![hex_char((b / 16) as nat), hex_char((b % 16) as nat)] }
}

fn hex_digit(d: u8) -> (r: &'static str)
    requires
        d < 16,
    ensures
        r@ == seq![hex_char(d as nat)],
{
    proof {
        reveal_strlit("0"); reveal_strlit("1"); reveal_strlit("2"); reveal_strlit("3"); reveal_strlit("4");
        reveal_strlit("5"); reveal_strlit("6"); reveal_strlit("7"); reveal_strlit("8"); reveal_strlit("9");
        reveal_strlit("a"); reveal_strlit("b"); reveal_strlit("c"); reveal_strlit("d"); reveal_strlit("e");
        reveal_strlit("f");
    }
    if d == 0 { "0" } else if d == 1 { "1" } else if d == 2 { "2" } else if d == 3 { "3" } else if d == 4 { "4" }
    else if d == 5 { "5" } else if d == 6 { "6" } else if d == 7 { "7" } else if d == 8 { "8" } else if d == 9 { "9" }
    else if d == 10 { "a" } else if d == 11 { "b" } else if d == 12 { "c" } else if d == 13 { "d" } else if d == 14 { "e" }
    else { "f" }
}

/// The lowercase hexadecimal text of a byte.
pub fn hex_string(b: u8) -> (r: String)
    ensures
        r@ == hex(b),
{
    if b < 16 {
        String::from_str(hex_digit(b))
    } else {
        let mut s = String::from_str(hex_digit(b / 16));
        s.append(hex_digit(b % 16));
        s
    }
}

/// Whether a chat packet to the player itself carries `text`.
pub open spec fn chat_line(p: ServerPacket, text: Seq<char>) -> bool {
    p matches ServerPacket::Message { player_id, message } && player_id == -1 && message@ == text
}

/// Whether `(x, y, z)` lies inside the level.
pub open spec fn edit_in_bounds(level: &Level, x: i16, y: i16, z: i16) -> bool {
    0 <= x < level.x_size && 0 <= y < level.y_size && 0 <= z < level.z_size
}

/// The block a `SetBlock` edit asks for: air when destroying (mode 0), else the given id.
pub open spec fn edit_target(mode: u8, block_type: u8) -> u8 {
    if mode == 0 { ID_AIR } else { block_type }
}

/// Handles a client's `SetBlock` edit for a player of level `perms`. An edit out of the level is
/// an error that ends the session. An unknown block id gets a chat error. An edit the player may
/// not make gets a chat error and the block that was there sent back, so the client undoes it. Any
/// other edit is queued; a block that needs an update on placing is scheduled, and one that may
/// receive random ticks joins the random-tick pool. Returns the packets for the editing player.
pub fn handle_set_block(level: &mut Level, perms: PlayerType, x: i16, y: i16, z: i16, mode: u8, block_type: u8)
    -> (r: Result<Vec<ServerPacket>, String>)
    requires
        old(level).wf(),
    ensures
        final(level).wf(),
        !edit_in_bounds(old(level), x, y, z) ==> (r matches Err(m) && m@ == "Attempt to place block out of bounds"@
            && *final(level) == *old(level)),
        edit_in_bounds(old(level), x, y, z) ==> r is Ok,
        edit_in_bounds(old(level), x, y, z) ==> ({
            let new_id = edit_target(mode, block_type);
            let i = old(level).spec_index(x as usize, y as usize, z as usize);
            let old_id = old(level).blocks@[i];
            let ps = r->Ok_0@;
            if catalog(new_id) is None {
                &&& *final(level) == *old(level)
                &&& ps.len() == 1
                &&& chat_line(ps[0], "&cUnknown block ID: 0x"@ + hex(new_id))
            } else if !may_replace(perms, old_id, new_id) {
                &&& *final(level) == *old(level)
                &&& ps.len() == 2
                &&& chat_line(ps[0], if rank(perms) < rank(catalog(new_id)->Some_0.place_permissions) {
                        "&cNot allow to place this block."@
                    } else {
                        "&cNot allowed to break this block."@
                    })
                &&& ps[1] == (ServerPacket::SetBlock { x, y, z, block_type: old_id })
            } else {
                &&& ps.len() == 0
                &&& final(level).blocks@ == old(level).blocks@
                &&& final(level).dims() == old(level).dims()
                &&& final(level).rules == old(level).rules
                &&& final(level).weather == old(level).weather
                &&& final(level).updates@ == old(level).updates@.push(BlockUpdate { index: i as usize, block: new_id })
                &&& final(level).awaiting() == (if kind_of(new_id) is FluidFlowing {
                        old(level).awaiting().insert(i as usize)
                    } else {
                        old(level).awaiting()
                    })
                &&& final(level).possible_random_updates@ == (if catalog(new_id)->Some_0.may_receive_random_ticks {
                        old(level).possible_random_updates@.push(i as usize)
                    } else {
                        old(level).possible_random_updates@
                    })
            }
        }),
{
    if x < 0 || y < 0 || z < 0 || x as usize >= level.x_size || y as usize >= level.y_size || z as usize >= level.z_size {
        return Err(String::from_str("Attempt to place block out of bounds"));
    }
    let (ux, uy, uz) = (x as usize, y as usize, z as usize);
    let new_id = if mode == 0 { ID_AIR } else { block_type };
    let mut replies: Vec<ServerPacket> = Vec::new();
    let new_info = match block_info(new_id) {
        Some(info) => info,
        None => {
            let mut text = String::from_str("&cUnknown block ID: 0x");
            let h = hex_string(new_id);
            text.append(h.as_str());
            replies.push(ServerPacket::Message { player_id: -1, message: text });
            return Ok(replies);
        },
    };
    let old_id = level.get_block(ux, uy, uz);
    let old_info = match block_info(old_id) {
        Some(info) => info,
        None => crate::block::BlockInfo {
            block_type: crate::block::BlockType::Solid,
            place_permissions: PlayerType::Normal,
            break_permissions: PlayerType::Normal,
            fallback: None,
            may_receive_random_ticks: false,
        },
    };
    proof {
        crate::block::lemma_catalog_perms(old_id);
    }
    if !perms.allows(new_info.place_permissions) {
        replies.push(ServerPacket::Message { player_id: -1, message: String::from_str("&cNot allow to place this block.") });
        replies.push(ServerPacket::SetBlock { x, y, z, block_type: old_id });
        return Ok(replies);
    }
    if !perms.allows(old_info.break_permissions) {
        replies.push(ServerPacket::Message { player_id: -1, message: String::from_str("&cNot allowed to break this block.") });
        replies.push(ServerPacket::SetBlock { x, y, z, block_type: old_id });
        return Ok(replies);
    }
    let index = level.index(ux, uy, uz);
    level.queue_update(BlockUpdate { index, block: new_id });
    if new_info.block_type.needs_update_on_place() {
        level.insert_awaiting(index);
    }
    if new_info.may_receive_random_ticks {
        level.push_random_candidate(index);
    }
    Ok(replies)
}

/// The reason a kicked player is disconnected with.
pub open spec fn kick_reason(message: Option<Seq<char>>) -> Seq<char> {
    "Kicked: "@ + match message {
        Some(m) => m,
        None => "<no message>"@,
    }
}

/// The first player with the username, if any.
pub open spec fn find_player(players: Seq<Player>, name: Seq<char>) -> Option<int> {
    if name_taken(players, name) {
        Some(choose|i: int| 0 <= i < players.len() && (#[trigger] players[i]).username@ == name
            && forall|j: int| 0 <= j < i ==> (#[trigger] players[j]).username@ != name)
    } else {
        None
    }
}

/// Marks the player `username` to be kicked, if the kicker outranks it. Returns the chat line for
/// the kicker and, when a player was marked, its position in the roster.
pub fn kick_player(players: &mut Vec<Player>, kicker: PlayerType, username: &str, message: Option<&str>)
    -> (r: (String, Option<usize>))
    ensures
        final(players)@.len() == old(players)@.len(),
        forall|i: int| 0 <= i < old(players)@.len() && (#[trigger] old(players)@[i]).username@ == username@
            && (forall|j: int| 0 <= j < i ==> (#[trigger] old(players)@[j]).username@ != username@)
            ==> (rank(kicker) > rank(old(players)@[i].permissions) <==> r.1 == Some(i as usize)),
        match r.1 {
            Some(i) => {
                &&& i < old(players)@.len()
                &&& old(players)@[i as int].username@ == username@
                &&& forall|j: int| 0 <= j < i ==> (#[trigger] old(players)@[j]).username@ != username@
                &&& rank(kicker) > rank(old(players)@[i as int].permissions)
                &&& final(players)@[i as int].should_be_kicked matches Some(reason)
                    && reason@ == kick_reason(match message { Some(m) => Some(m@), None => None })
                &&& final(players)@[i as int].id == old(players)@[i as int].id
                &&& final(players)@[i as int].username == old(players)@[i as int].username
                &&& final(players)@[i as int].permissions == old(players)@[i as int].permissions
                &&& forall|j: int| 0 <= j < final(players)@.len() && j != i ==> final(players)@[j] == old(players)@[j]
                &&& r.0@ == username@ + " has been kicked"@
            },
            None => {
                &&& final(players)@ == old(players)@
                &&& (r.0@ == "&cPlayer not connected to server!"@ || r.0@ == "&cThis player outranks or is the same rank as you"@)
                &&& (r.0@ == "&cPlayer not connected to server!"@ <==> !name_taken(old(players)@, username@))
            },
        },
{
    proof {
        reveal_strlit("&cPlayer not connected to server!");
        reveal_strlit("&cThis player outranks or is the same rank as you");
    }
    let name = String::from_str(username);
    let mut i: usize = 0;
    while i < players.len()
        invariant
            i <= players@.len(),
            players@ == old(players)@,
            name@ == username@,
            forall|k: int| 0 <= k < i ==> (#[trigger] players@[k]).username@ != username@,
        decreases players@.len() - i,
    {
        if players[i].username == name {
            if !kicker.allows(players[i].permissions) || kicker.rank() == players[i].permissions.rank() {
                assert(name_taken(old(players)@, username@)) by {
                    assert(players@[i as int].username@ == username@);
                }
                proof {
                    reveal_strlit("&cPlayer not connected to server!");
                    reveal_strlit("&cThis player outranks or is the same rank as you");
                    assert("&cPlayer not connected to server!"@.len() != "&cThis player outranks or is the same rank as you"@.len());
                }
                return (String::from_str("&cThis player outranks or is the same rank as you"), None);
            }
            let mut reason = String::from_str("Kicked: ");
            match message {
                Some(m) => reason.append(m),
                None => reason.append("<no message>"),
            }
            let mut p = players.remove(i);
            p.should_be_kicked = Some(reason);
            players.insert(i, p);
            let mut reply = String::from_str(username);
            reply.append(" has been kicked");
            return (reply, Some(i));
        }
        i = i + 1;
    }
    (String::from_str("&cPlayer not connected to server!"), None)
}

/// Removes the player with id `own_id` from the roster and frees its id. Returns the player.
pub fn remove_player(players: &mut Vec<Player>, free_player_ids: &mut Vec<i8>, own_id: i8) -> (r: Option<Player>)
    ensures
        match r {
            Some(p) => {
                &&& p.id == own_id
                &&& exists|i: int| 0 <= i < old(players)@.len() && old(players)@[i] == p
                    && final(players)@ == old(players)@.remove(i)
                &&& final(free_player_ids)@ == old(free_player_ids)@.push(own_id)
            },
            None => {
                &&& forall|i: int| 0 <= i < old(players)@.len() ==> (#[trigger] old(players)@[i]).id != own_id
                &&& final(players)@ == old(players)@
                &&& final(free_player_ids)@ == old(free_player_ids)@
            },
        },
{
    let mut i: usize = 0;
    while i < players.len()
        invariant
            i <= players@.len(),
            players@ == old(players)@,
            free_player_ids@ == old(free_player_ids)@,
            forall|k: int| 0 <= k < i ==> (#[trigger] players@[k]).id != own_id,
        decreases players@.len() - i,
    {
        if players[i].id == own_id {
            let ghost before = players@;
            let p = players.remove(i);
            free_player_ids.push(own_id);
            assert(before[i as int] == p);
            assert(old(players)@[i as int] == p && players@ == old(players)@.remove(i as int));
            return Some(p);
        }
        i = i + 1;
    }
    None
}

/// The packets every remaining player gets when a player leaves.
pub fn leave_packets(player_id: i8, username: &str) -> (r: Vec<ServerPacket>)
    ensures
        r@.len() == 2,
        r@[0] == (ServerPacket::DespawnPlayer { player_id }),
        r@[1] matches ServerPacket::Message { player_id: id, message } && id == player_id
            && message@ == "&e"@ + username@ + " has left the server."@,
{
    let mut text = String::from_str("&e");
    text.append(username);
    text.append(" has left the server.");
    vec![ServerPacket::DespawnPlayer { player_id }, ServerPacket::Message { player_id, message: text }]
}

/// The spawn point of a new player when the server has none configured: x and z at 16.5, y at
/// half the level's height plus two, in 1/32 of a block; yaw and pitch 0.
pub fn default_spawn(level: &Level) -> (r: (i16, i16, i16, u8, u8))
    ensures
        r == (528i16, (((level.y_size / 2 + 2) * 32) as i16), 528i16, 0u8, 0u8),
{
    let h = level.y_size / 2;
    let y: i16 = if h <= 1000 { ((h + 2) * 32) as i16 } else { #[verifier::truncate] (((h as u128 + 2) * 32) as i16) };
    (528, y, 528, 0, 0)
}

/// Where a chat line longer than 64 characters is cut: at its last space among characters
/// 3 to 63, or else after 64 characters.
pub open spec fn cut_at(s: Seq<char>) -> int {
    cut_from(s, 63)
}

/// The last space at or below `j` and above 2, else 64.
pub open spec fn cut_from(s: Seq<char>, j: int) -> int
    decreases j,
{
    if j <= 2 {
        64
    } else if j < s.len() && s[j] == ' ' {
        j
    } else {
        cut_from(s, j - 1)
    }
}

proof fn lemma_cut_from_range(s: Seq<char>, j: int)
    ensures
        (3 <= cut_from(s, j) <= j && s[cut_from(s, j)] == ' ' && cut_from(s, j) < s.len()) || cut_from(s, j) == 64,
    decreases j,
{
    if j > 2 && !(j < s.len() && s[j] == ' ') {
        lemma_cut_from_range(s, j - 1);
    }
}

/// The rest of a chat line after a cut: a space where it was cut is dropped.
pub open spec fn rest_after(s: Seq<char>, c: int) -> Seq<char> {
    if c < 64 { s.skip(c + 1) } else { s.skip(64) }
}

/// A chat line cut into pieces of at most 64 characters, at whitespace where possible, each
/// piece after the first starting with `&f` so that it keeps the default colour.
pub open spec fn fragments(s: Seq<char>) -> Seq<Seq<char>>
    decreases s.len(),
{
    if s.len() <= 64 {
        seq![s]
    } else {
        let c = cut_at(s);
        if 3 <= c <= 64 {
            seq![s.take(c)] + fragments(seq!['&', 'f'] + rest_after(s, c))
        } else {
            seq![s]
        }
    }
}

fn find_cut(text: &str) -> (r: usize)
    requires
        text@.len() > 64,
    ensures
        r == cut_at(text@),
        3 <= r <= 64,
{
    proof { lemma_cut_from_range(text@, 63); }
    let mut j: usize = 63;
    while j > 2
        invariant
            2 <= j <= 63,
            text@.len() > 64,
            cut_at(text@) == cut_from(text@, j as int),
        decreases j,
    {
        if text.get_char(j) == ' ' {
            return j;
        }
        j = j - 1;
    }
    64
}

/// Cuts a chat line into the pieces the protocol can carry.
pub fn chat_fragments(text: &str) -> (r: Vec<String>)
    ensures
        r@.len() == fragments(text@).len(),
        forall|i: int| 0 <= i < r@.len() ==> (#[trigger] r@[i])@ == fragments(text@)[i],
{
    proof { reveal_strlit("&f"); }
    let mut out: Vec<String> = Vec::new();
    let mut current = String::from_str(text);
    while current.as_str().unicode_len() > 64
        invariant
            "&f"@ == seq!['&', 'f'],
            fragments(text@) == out@.map_values(|s: String| s@) + fragments(current@),
        decreases current@.len(),
    {
        let n = current.as_str().unicode_len();
        let c = find_cut(current.as_str());
        let skip = if c < 64 { c + 1 } else { 64 };
        let head = String::from_str(current.as_str().substring_char(0, c));
        let mut rest = String::from_str("&f");
        rest.append(current.as_str().substring_char(skip, n));
        proof {
            assert(head@ =~= current@.take(c as int));
            assert(rest@ =~= seq!['&', 'f'] + rest_after(current@, c as int));
            assert(fragments(current@) == seq![head@] + fragments(rest@));
        }
        let ghost before = out@;
        out.push(head);
        proof {
            assert(out@.map_values(|s: String| s@) =~= before.map_values(|s: String| s@).push(head@));
            assert(before.map_values(|s: String| s@).push(head@) + fragments(rest@)
                =~= before.map_values(|s: String| s@) + (seq![head@] + fragments(rest@)));
        }
        current = rest;
    }
    proof {
        assert(fragments(current@) == seq![current@]);
    }
    out.push(current);
    proof {
        assert(out@.map_values(|s: String| s@) =~= fragments(text@));
    }
    out
}

/// The inventory a client gets when it negotiated `InventoryOrder`: one `SetInventoryOrder` per
/// block id in order, the id itself where the player may place it and air elsewhere; only the
/// classic ids unless the client sees custom blocks.
pub fn inventory_order_packets(perms: PlayerType, extensions: ExtBitmask, custom_blocks_support_level: u8) -> (r: Vec<ServerPacket>)
    requires
        custom_blocks_support_level <= CUSTOM_BLOCKS_SUPPORT_LEVEL,
    ensures
        r@.len() == (if extensions.has(Extension::CustomBlocks) && custom_blocks_support_level == 1 {
            MAX_BLOCK_ID as int + 1
        } else {
            MAX_CLASSIC_ID as int + 1
        }),
        forall|i: int| 0 <= i < r@.len() ==> #[trigger] r@[i] == (ServerPacket::SetInventoryOrder {
            order: i as u8,
            block: if rank(perms) >= rank(place_perm_of(i as u8)) { i as u8 } else { 0 },
        }),
{
    let custom = extensions.contains(Extension::CustomBlocks) && custom_blocks_support_level == 1;
    let last: u8 = if custom { MAX_BLOCK_ID } else { MAX_CLASSIC_ID };
    let mut out: Vec<ServerPacket> = Vec::new();
    let mut id: u8 = 0;
    while id <= last
        invariant
            last <= MAX_BLOCK_ID,
            id <= last + 1,
            out@.len() == id,
            forall|i: int| 0 <= i < out@.len() ==> #[trigger] out@[i] == (ServerPacket::SetInventoryOrder {
                order: i as u8,
                block: if rank(perms) >= rank(place_perm_of(i as u8)) { i as u8 } else { 0 },
            }),
        decreases last + 1 - id,
    {
        let place = match block_info(id) {
            Some(info) => info.place_permissions,
            None => PlayerType::Operator,
        };
        proof { crate::block::lemma_catalog_perms(id); }
        let block = if perms.allows(place) { id } else { 0 };
        out.push(ServerPacket::SetInventoryOrder { order: id, block });
        id = id + 1;
    }
    out
}

} // verus!
