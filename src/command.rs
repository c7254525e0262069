use vstd::prelude::*;
use vstd::string::*;

use crate::player::PlayerType;

verus! {

/// Whether a character is Unicode white space.
pub open spec fn is_ws(c: char) -> bool {
    ('\t' <= c <= '\r') || c == ' ' || c == '\u{85}' || c == '\u{a0}' || c == '\u{1680}'
        || ('\u{2000}' <= c <= '\u{200a}') || c == '\u{2028}' || c == '\u{2029}' || c == '\u{202f}'
        || c == '\u{205f}' || c == '\u{3000}'
}

/// The number of white-space characters `s` starts with.
pub open spec fn lead_ws(s: Seq<char>) -> nat
    decreases s.len(),
{
    if s.len() > 0 && is_ws(s[0]) { 1 + lead_ws(s.skip(1)) } else { 0 }
}

/// `s` without its trailing white space.
pub open spec fn trim_end_chars(s: Seq<char>) -> Seq<char>
    decreases s.len(),
{
    if s.len() > 0 && is_ws(s.last()) { trim_end_chars(s.drop_last()) } else { s }
}

/// `s` without white space at either end.
pub open spec fn trim(s: Seq<char>) -> Seq<char> {
    trim_end_chars(s.skip(lead_ws(s) as int))
}

/// The first position at or after `from` holding `c`.
pub open spec fn find_from(s: Seq<char>, c: char, from: int) -> Option<int>
    decreases s.len() - from,
{
    if from < 0 || from >= s.len() {
        None
    } else if s[from] == c {
        Some(from)
    } else {
        find_from(s, c, from + 1)
    }
}

/// The first position at or after `from` (at least 1) holding a quote not preceded by a backslash.
pub open spec fn closing_quote(s: Seq<char>, from: int) -> Option<int>
    decreases s.len() - from,
{
    if from < 1 || from >= s.len() {
        None
    } else if s[from] == '"' && s[from - 1] != '\\' {
        Some(from)
    } else {
        closing_quote(s, from + 1)
    }
}

/// The next argument of a command and the arguments left after it, trimmed: a quoted argument
/// runs to the next unescaped quote (or the end), any other to the next space (or the end).
pub open spec fn next_token(args: Seq<char>) -> Option<(Seq<char>, Seq<char>)> {
    if args.len() == 0 {
        None
    } else if args[0] == '"' {
        match closing_quote(args, 1) {
            Some(j) => Some((args.subrange(1, j), trim(args.skip(j + 1)))),
            None => Some((args.skip(1), Seq::empty())),
        }
    } else {
        match find_from(args, ' ', 0) {
            Some(j) => Some((args.take(j), trim(args.skip(j)))),
            None => Some((args, Seq::empty())),
        }
    }
}

fn is_ws_char(c: char) -> (r: bool)
    ensures
        r == is_ws(c),
{
    ('\t' <= c && c <= '\r') || c == ' ' || c == '\u{85}' || c == '\u{a0}' || c == '\u{1680}'
        || ('\u{2000}' <= c && c <= '\u{200a}') || c == '\u{2028}' || c == '\u{2029}' || c == '\u{202f}'
        || c == '\u{205f}' || c == '\u{3000}'
}

/// Removes white space from both ends.
pub fn trim_str<'a>(s: &'a str) -> (r: &'a str)
    ensures
        r@ == trim(s@),
{
    let n = s.unicode_len();
    let mut a: usize = 0;
    assert(s@.skip(0) =~= s@);
    while a < n && is_ws_char(s.get_char(a))
        invariant
            a <= n,
            n == s@.len(),
            lead_ws(s@) == a + lead_ws(s@.skip(a as int)),
        decreases n - a,
    {
        assert(s@.skip(a as int).skip(1) =~= s@.skip(a + 1));
        a = a + 1;
    }
    proof {
        assert(s@.skip(0) =~= s@);
    }
    let mut b: usize = n;
    while b > a && is_ws_char(s.get_char(b - 1))
        invariant
            a <= b <= n,
            n == s@.len(),
            lead_ws(s@) == a,
            trim(s@) == trim_end_chars(s@.subrange(a as int, b as int)),
        decreases b,
    {
        assert(s@.subrange(a as int, b as int).drop_last() =~= s@.subrange(a as int, b - 1));
        b = b - 1;
    }
    proof {
        assert(s@.subrange(a as int, n as int) =~= s@.skip(a as int));
    }
    s.substring_char(a, b)
}

fn find_char(s: &str, c: char, from: usize) -> (r: Option<usize>)
    requires
        from <= s@.len(),
    ensures
        r matches Some(j) ==> find_from(s@, c, from as int) == Some(j as int) && j < s@.len(),
        r is None ==> find_from(s@, c, from as int) is None,
{
    let n = s.unicode_len();
    let mut i: usize = from;
    while i < n
        invariant
            from <= i <= n,
            n == s@.len(),
            find_from(s@, c, from as int) == find_from(s@, c, i as int),
        decreases n - i,
    {
        if s.get_char(i) == c {
            return Some(i);
        }
        i = i + 1;
    }
    None
}

fn find_closing_quote(s: &str) -> (r: Option<usize>)
    ensures
        r matches Some(j) ==> closing_quote(s@, 1) == Some(j as int) && 1 <= j < s@.len(),
        r is None ==> closing_quote(s@, 1) is None,
{
    let n = s.unicode_len();
    let mut i: usize = 1;
    while i < n
        invariant
            1 <= i,
            n == s@.len(),
            closing_quote(s@, 1) == closing_quote(s@, i as int),
        decreases n - i,
    {
        if s.get_char(i) == '"' && s.get_char(i - 1) != '\\' {
            return Some(i);
        }
        i = i + 1;
    }
    None
}

/// Takes the next argument off the front of `args`; see `next_token`.
pub fn next_string<'a>(args: &'a str) -> (r: Option<(&'a str, &'a str)>)
    ensures
        match next_token(args@) {
            Some((t, rest)) => r matches Some((a, b)) && a@ == t && b@ == rest,
            None => r is None,
        },
{
    let n = args.unicode_len();
    if n == 0 {
        return None;
    }
    if args.get_char(0) == '"' {
        match find_closing_quote(args) {
            Some(j) => Some((args.substring_char(1, j), trim_str(args.substring_char(j + 1, n)))),
            None => {
                let empty = args.substring_char(n, n);
                assert(empty@ =~= Seq::<char>::empty());
                Some((args.substring_char(1, n), empty))
            },
        }
    } else {
        match find_char(args, ' ', 0) {
            Some(j) => Some((args.substring_char(0, j), trim_str(args.substring_char(j, n)))),
            None => {
                let empty = args.substring_char(n, n);
                assert(empty@ =~= Seq::<char>::empty());
                let whole = args.substring_char(0, n);
                assert(whole@ =~= args@);
                Some((whole, empty))
            },
        }
    }
}

/// The names of the commands.
pub const CMD_ME: &'static str = "me";
pub const CMD_SAY: &'static str = "say";
pub const CMD_SETPERM: &'static str = "setperm";
pub const CMD_KICK: &'static str = "kick";
pub const CMD_STOP: &'static str = "stop";
pub const CMD_HELP: &'static str = "help";
pub const CMD_BAN: &'static str = "ban";
pub const CMD_ALLOWENTRY: &'static str = "allowentry";
pub const CMD_SETPASS: &'static str = "setpass";
pub const CMD_SETLEVELSPAWN: &'static str = "setlevelspawn";
pub const CMD_WEATHER: &'static str = "weather";
pub const CMD_SAVE: &'static str = "save";
pub const CMD_TELEPORT: &'static str = "tp";
pub const CMD_LEVELRULE: &'static str = "levelrule";

/// A chat command.
#[derive(Debug)]
pub enum Command {
    /// an action shown as done by the player: `/me waves` shows `*<username> waves`
    Me { action: String },
    /// a message shown as coming from the server
    Say { message: String },
    /// sets a player's permission level
    SetPermissions { player_username: String, permissions: PlayerType },
    /// kicks a player
    Kick { username: String, message: Option<String> },
    /// stops the server
    Stop,
    /// help about one command, or the list of commands
    Help { command: Option<String> },
    /// bans a player
    Ban { player_username: String, message: Option<String> },
    /// allows a player in
    AllowEntry { player_username: String, password: Option<String> },
    /// sets the sender's password
    SetPass { password: String },
    /// sets the level's spawn to the sender's position
    SetLevelSpawn { overwrite_others: bool },
    /// sets the level's weather
    Weather { weather_type: String },
    /// saves the level
    Save,
    /// teleports a player; `destination` holds either three coordinates or a username
    Teleport { username: String, destination: String },
    /// gets or sets a level rule
    LevelRule { rule: String, value: Option<String> },
}

/// The usage and description of each command.
pub open spec fn usage(name: Seq<char>) -> Option<(Seq<char>, Seq<char>)> {
    if false {
        None
    } else if name == "me"@ {
        Some(("<action>"@, "&fDisplays an action as if you're doing it."@))
    } else if name == "say"@ {
        Some(("<message>"@, "&fSends a message as being from the server."@))
    } else if name == "setperm"@ {
        Some(("<username> <permission level>"@, "&fSets a player's permission level."@))
    } else if name == "kick"@ {
        Some(("<username> [reason]"@, "&fKicks a player from the server."@))
    } else if name == "stop"@ {
        Some((""@, "&fStops the server while saving the level."@))
    } else if name == "help"@ {
        Some(("[command]"@, "&fGets a list of commands or help about a command."@))
    } else if name == "ban"@ {
        Some(("<username> [reason]"@, "&fBans a player from the server."@))
    } else if name == "allowentry"@ {
        Some(("<username>"@, "&fAllows a player into the server."@))
    } else if name == "setpass"@ {
        Some(("<new password>"@, "&fUpdates your password."@))
    } else if name == "setlevelspawn"@ {
        Some(("[overwrite_others]"@, "&fSets the level's spawn to your location."@))
    } else if name == "weather"@ {
        Some(("<weather type>"@, "&fSets the level's weather."@))
    } else if name == "save"@ {
        Some((""@, "&fSaves the current level."@))
    } else if name == "tp"@ {
        Some(("(<username> or <x> <y> <z>"@, "&fTeleports to the given username or coordinates."@))
    } else if name == "levelrule"@ {
        Some(("<rule> [value]"@, "&fGets or sets the given level rule. The special rule \"all\" will get all rules."@))
    } else {
        None
    }
}

/// The name of a command.
pub open spec fn command_name_of(c: Command) -> Seq<char> {
    match c {
        Command::Me { .. } => "me"@,
        Command::Say { .. } => "say"@,
        Command::SetPermissions { .. } => "setperm"@,
        Command::Kick { .. } => "kick"@,
        Command::Stop => "stop"@,
        Command::Help { .. } => "help"@,
        Command::Ban { .. } => "ban"@,
        Command::AllowEntry { .. } => "allowentry"@,
        Command::SetPass { .. } => "setpass"@,
        Command::SetLevelSpawn { .. } => "setlevelspawn"@,
        Command::Weather { .. } => "weather"@,
        Command::Save => "save"@,
        Command::Teleport { .. } => "tp"@,
        Command::LevelRule { .. } => "levelrule"@,
    }
}

/// The level needed to run a command by name: `me`, `help` and `setpass` are open to all, `stop`
/// needs an operator, the rest a moderator.
pub open spec fn perms_for(name: Seq<char>) -> PlayerType {
    if name == "me"@ || name == "help"@ || name == "setpass"@ {
        PlayerType::Normal
    } else if name == "stop"@ {
        PlayerType::Operator
    } else {
        PlayerType::Moderator
    }
}

/// The position of a command name in the list of commands, from 1; 0 for other names.
pub open spec fn command_code(name: Seq<char>) -> nat {
    if name == "me"@ {
        1
    } else if name == "say"@ {
        2
    } else if name == "setperm"@ {
        3
    } else if name == "kick"@ {
        4
    } else if name == "stop"@ {
        5
    } else if name == "help"@ {
        6
    } else if name == "ban"@ {
        7
    } else if name == "allowentry"@ {
        8
    } else if name == "setpass"@ {
        9
    } else if name == "setlevelspawn"@ {
        10
    } else if name == "weather"@ {
        11
    } else if name == "save"@ {
        12
    } else if name == "tp"@ {
        13
    } else if name == "levelrule"@ {
        14
    } else {
        0
    }
}

/// The lowercase form of an ASCII letter; other characters stay.
pub open spec fn ascii_lower(c: char) -> char {
    if 'A' <= c <= 'Z' { (((c as u32) + 32) as u8) as char } else { c }
}

/// Whether two texts are equal ignoring ASCII case.
pub open spec fn eq_ignore_case(a: Seq<char>, b: Seq<char>) -> bool {
    a.len() == b.len() && forall|i: int| 0 <= i < a.len() ==> ascii_lower(#[trigger] a[i]) == ascii_lower(b[i])
}

/// The permission level named by a text, ignoring ASCII case.
pub open spec fn perm_named(s: Seq<char>) -> Option<PlayerType> {
    if eq_ignore_case(s, "normal"@) {
        Some(PlayerType::Normal)
    } else if eq_ignore_case(s, "moderator"@) {
        Some(PlayerType::Moderator)
    } else if eq_ignore_case(s, "operator"@) {
        Some(PlayerType::Operator)
    } else {
        None
    }
}

/// The command name of an input: the text before its first space.
pub open spec fn input_name(input: Seq<char>) -> Seq<char> {
    match find_from(input, ' ', 0) {
        Some(j) => input.take(j),
        None => input,
    }
}

/// The arguments of an input: the text after its first space.
pub open spec fn input_args(input: Seq<char>) -> Seq<char> {
    match find_from(input, ' ', 0) {
        Some(j) => input.skip(j + 1),
        None => Seq::empty(),
    }
}

/// A trimmed optional argument: `None` when empty.
pub open spec fn optional(s: Seq<char>) -> Option<Seq<char>> {
    if trim(s).len() == 0 { None } else { Some(trim(s)) }
}

/// Whether an optional string holds the optional text.
pub open spec fn holds(o: Option<String>, t: Option<Seq<char>>) -> bool {
    match (o, t) {
        (Some(a), Some(b)) => a@ == b,
        (None, None) => true,
        _ => false,
    }
}

pub(crate) fn names_equal(a: &str, b: &str) -> (r: bool)
    ensures
        r == (a@ == b@),
{
    String::from_str(a) == String::from_str(b)
}

fn command_code_of(name: &str) -> (r: u8)
    ensures
        r as nat == command_code(name@),
{
    if names_equal(name, "me") {
        1
    } else if names_equal(name, "say") {
        2
    } else if names_equal(name, "setperm") {
        3
    } else if names_equal(name, "kick") {
        4
    } else if names_equal(name, "stop") {
        5
    } else if names_equal(name, "help") {
        6
    } else if names_equal(name, "ban") {
        7
    } else if names_equal(name, "allowentry") {
        8
    } else if names_equal(name, "setpass") {
        9
    } else if names_equal(name, "setlevelspawn") {
        10
    } else if names_equal(name, "weather") {
        11
    } else if names_equal(name, "save") {
        12
    } else if names_equal(name, "tp") {
        13
    } else if names_equal(name, "levelrule") {
        14
    } else {
        0
    }
}

fn lower_char(c: char) -> (r: char)
    ensures
        r == ascii_lower(c),
{
    if 'A' <= c && c <= 'Z' { (((c as u32) + 32) as u8) as char } else { c }
}

pub(crate) fn equal_ignore_case(a: &str, b: &str) -> (r: bool)
    ensures
        r == eq_ignore_case(a@, b@),
{
    let n = a.unicode_len();
    if n != b.unicode_len() {
        return false;
    }
    let mut i: usize = 0;
    while i < n
        invariant
            i <= n,
            n == a@.len(),
            n == b@.len(),
            forall|k: int| 0 <= k < i ==> ascii_lower(#[trigger] a@[k]) == ascii_lower(b@[k]),
        decreases n - i,
    {
        if lower_char(a.get_char(i)) != lower_char(b.get_char(i)) {
            return false;
        }
        i = i + 1;
    }
    true
}

fn permission_named(s: &str) -> (r: Option<PlayerType>)
    ensures
        r == perm_named(s@),
{
    if equal_ignore_case(s, "normal") {
        Some(PlayerType::Normal)
    } else if equal_ignore_case(s, "moderator") {
        Some(PlayerType::Moderator)
    } else if equal_ignore_case(s, "operator") {
        Some(PlayerType::Operator)
    } else {
        None
    }
}

fn optional_string(s: &str) -> (r: Option<String>)
    ensures
        holds(r, optional(s@)),
{
    let t = trim_str(s);
    if t.unicode_len() == 0 { None } else { Some(String::from_str(t)) }
}

fn missing(name: &str) -> (r: String)
    ensures
        r@ == "&cMissing argument: "@ + name@,
{
    let mut m = String::from_str("&cMissing argument: ");
    m.append(name);
    m
}

impl Command {
    /// Parses the text after the command prefix. Errors are chat lines for the sender.
    #[verifier::rlimit(60)]
    pub fn parse(input: &str) -> (r: Result<Command, String>)
        ensures
            ({
                let name = input_name(input@);
                let args = input_args(input@);
                &&& command_code(name) == 0 ==> (r matches Err(e) && e@ == "Unknown command: "@ + name)
                &&& command_code(name) == 1 ==> (r matches Ok(Command::Me { action }) && action@ == args)
                &&& command_code(name) == 2 ==> (r matches Ok(Command::Say { message }) && message@ == args)
                &&& command_code(name) == 5 ==> (r matches Ok(Command::Stop))
                &&& command_code(name) == 12 ==> (r matches Ok(Command::Save))
                &&& command_code(name) == 6 ==> (r matches Ok(Command::Help { command })
                    && holds(command, if args.len() == 0 { None } else { Some(args) }))
                &&& command_code(name) == 9 ==> (r matches Ok(Command::SetPass { password }) && password@ == trim(args))
                &&& command_code(name) == 11 ==> (r matches Ok(Command::Weather { weather_type }) && weather_type@ == args)
                &&& command_code(name) == 3 ==> match next_token(args) {
                    None => r matches Err(e) && e@ == "&cMissing argument: "@ + "username"@,
                    Some((u, rest)) => match perm_named(trim(rest)) {
                        Some(p) => r matches Ok(Command::SetPermissions { player_username, permissions })
                            && player_username@ == u && permissions == p,
                        None => r matches Err(e) && e@ == "&cUnknown permissions type: "@ + rest,
                    },
                }
                &&& command_code(name) == 4 ==> match next_token(args) {
                    None => r matches Err(e) && e@ == "&cMissing argument: "@ + "username"@,
                    Some((u, rest)) => r matches Ok(Command::Kick { username, message })
                        && username@ == u && holds(message, optional(rest)),
                }
                &&& command_code(name) == 7 ==> match next_token(args) {
                    None => r matches Err(e) && e@ == "&cMissing argument: "@ + "username"@,
                    Some((u, rest)) => r matches Ok(Command::Ban { player_username, message })
                        && player_username@ == u && holds(message, optional(rest)),
                }
                &&& command_code(name) == 8 ==> match next_token(args) {
                    None => r matches Err(e) && e@ == "&cMissing argument: "@ + "username"@,
                    Some((u, rest)) => r matches Ok(Command::AllowEntry { player_username, password })
                        && player_username@ == u && holds(password, optional(rest)),
                }
                &&& command_code(name) == 10 ==> match next_token(args) {
                    None => r matches Ok(Command::SetLevelSpawn { overwrite_others }) && !overwrite_others,
                    Some((t, _)) => if eq_ignore_case(t, "true"@) {
                        r matches Ok(Command::SetLevelSpawn { overwrite_others }) && overwrite_others
                    } else if eq_ignore_case(t, "false"@) {
                        r matches Ok(Command::SetLevelSpawn { overwrite_others }) && !overwrite_others
                    } else {
                        r matches Err(e) && e@ == "Expected bool, got "@ + t
                    },
                }
                &&& command_code(name) == 13 ==> match next_token(args) {
                    None => r matches Err(e) && e@ == "&cMissing argument: "@ + "username"@,
                    Some((u, rest)) => r matches Ok(Command::Teleport { username, destination })
                        && username@ == u && destination@ == rest,
                }
                &&& command_code(name) == 14 ==> match next_token(args) {
                    None => r matches Err(e) && e@ == "&cMissing argument: "@ + "rule"@,
                    Some((u, rest)) => r matches Ok(Command::LevelRule { rule, value })
                        && rule@ == u && holds(value, match next_token(rest) { Some((v, _)) => Some(v), None => None }),
                }
            }),
    {
        proof {
        reveal_strlit("me");
        reveal_strlit("say");
        reveal_strlit("setperm");
        reveal_strlit("kick");
        reveal_strlit("stop");
        reveal_strlit("help");
        reveal_strlit("ban");
        reveal_strlit("allowentry");
        reveal_strlit("setpass");
        reveal_strlit("setlevelspawn");
        reveal_strlit("weather");
        reveal_strlit("save");
        reveal_strlit("tp");
        reveal_strlit("levelrule");
        }
        let n = input.unicode_len();
        let (name, args) = match find_char(input, ' ', 0) {
            Some(j) => (input.substring_char(0, j), input.substring_char(j + 1, n)),
            None => {
                let whole = input.substring_char(0, n);
                assert(whole@ =~= input@);
                let empty = input.substring_char(n, n);
                assert(empty@ =~= Seq::<char>::empty());
                (whole, empty)
            },
        };
        assert(name@ =~= input_name(input@));
        assert(args@ =~= input_args(input@));
        let code = command_code_of(name);
        if code == 1 {
            Ok(Command::Me { action: String::from_str(args) })
        } else if code == 2 {
            Ok(Command::Say { message: String::from_str(args) })
        } else if code == 5 {
            Ok(Command::Stop)
        } else if code == 12 {
            Ok(Command::Save)
        } else if code == 6 {
            if args.unicode_len() == 0 {
                Ok(Command::Help { command: None })
            } else {
                Ok(Command::Help { command: Some(String::from_str(args)) })
            }
        } else if code == 9 {
            Ok(Command::SetPass { password: String::from_str(trim_str(args)) })
        } else if code == 11 {
            Ok(Command::Weather { weather_type: String::from_str(args) })
        } else if code == 3 {
            match next_string(args) {
                None => Err(missing("username")),
                Some((u, rest)) => match permission_named(trim_str(rest)) {
                    Some(p) => Ok(Command::SetPermissions { player_username: String::from_str(u), permissions: p }),
                    None => {
                        let mut m = String::from_str("&cUnknown permissions type: ");
                        m.append(rest);
                        Err(m)
                    },
                },
            }
        } else if code == 4 {
            match next_string(args) {
                None => Err(missing("username")),
                Some((u, rest)) => Ok(Command::Kick { username: String::from_str(u), message: optional_string(rest) }),
            }
        } else if code == 7 {
            match next_string(args) {
                None => Err(missing("username")),
                Some((u, rest)) => Ok(Command::Ban { player_username: String::from_str(u), message: optional_string(rest) }),
            }
        } else if code == 8 {
            match next_string(args) {
                None => Err(missing("username")),
                Some((u, rest)) => Ok(Command::AllowEntry { player_username: String::from_str(u), password: optional_string(rest) }),
            }
        } else if code == 10 {
            match next_string(args) {
                None => Ok(Command::SetLevelSpawn { overwrite_others: false }),
                Some((t, _)) => {
                    if equal_ignore_case(t, "true") {
                        Ok(Command::SetLevelSpawn { overwrite_others: true })
                    } else if equal_ignore_case(t, "false") {
                        Ok(Command::SetLevelSpawn { overwrite_others: false })
                    } else {
                        let mut m = String::from_str("Expected bool, got ");
                        m.append(t);
                        Err(m)
                    }
                },
            }
        } else if code == 13 {
            match next_string(args) {
                None => Err(missing("username")),
                Some((u, rest)) => Ok(Command::Teleport { username: String::from_str(u), destination: String::from_str(rest) }),
            }
        } else if code == 14 {
            match next_string(args) {
                None => Err(missing("rule")),
                Some((u, rest)) => {
                    let value = match next_string(rest) {
                        Some((v, _)) => Some(String::from_str(v)),
                        None => None,
                    };
                    Ok(Command::LevelRule { rule: String::from_str(u), value })
                },
            }
        } else {
            let mut m = String::from_str("Unknown command: ");
            m.append(name);
            Err(m)
        }
    }

    /// The command's name.
    pub fn command_name(&self) -> (r: &'static str)
        ensures
            r@ == command_name_of(*self),
    {
        proof {
        reveal_strlit("me");
        reveal_strlit("say");
        reveal_strlit("setperm");
        reveal_strlit("kick");
        reveal_strlit("stop");
        reveal_strlit("help");
        reveal_strlit("ban");
        reveal_strlit("allowentry");
        reveal_strlit("setpass");
        reveal_strlit("setlevelspawn");
        reveal_strlit("weather");
        reveal_strlit("save");
        reveal_strlit("tp");
        reveal_strlit("levelrule");
        }
        match self {
            Command::Me { .. } => "me",
            Command::Say { .. } => "say",
            Command::SetPermissions { .. } => "setperm",
            Command::Kick { .. } => "kick",
            Command::Stop => "stop",
            Command::Help { .. } => "help",
            Command::Ban { .. } => "ban",
            Command::AllowEntry { .. } => "allowentry",
            Command::SetPass { .. } => "setpass",
            Command::SetLevelSpawn { .. } => "setlevelspawn",
            Command::Weather { .. } => "weather",
            Command::Save => "save",
            Command::Teleport { .. } => "tp",
            Command::LevelRule { .. } => "levelrule",
        }
    }

    /// The level needed to run this command.
    pub fn perms_required(&self) -> (r: PlayerType)
        ensures
            r == perms_for(command_name_of(*self)),
    {
        Command::perms_required_by_name(self.command_name())
    }

    /// The level needed to run a command by name.
    pub fn perms_required_by_name(cmd: &str) -> (r: PlayerType)
        ensures
            r == perms_for(cmd@),
    {
        if names_equal(cmd, "me") || names_equal(cmd, "help") || names_equal(cmd, "setpass") {
            PlayerType::Normal
        } else if names_equal(cmd, "stop") {
            PlayerType::Operator
        } else {
            PlayerType::Moderator
        }
    }

    /// Help about a command: its usage, then what it does.
    pub fn help(cmd: &str) -> (r: Vec<String>)
        ensures
            match usage(cmd@) {
                Some((u, d)) => r@.len() == 2 && r@[0]@ == "&f/"@ + cmd@ + " "@ + u && r@[1]@ == d,
                None => r@.len() == 1 && r@[0]@ == "&eUnknown command!"@,
            },
    {
        proof {
        reveal_strlit("me");
        reveal_strlit("say");
        reveal_strlit("setperm");
        reveal_strlit("kick");
        reveal_strlit("stop");
        reveal_strlit("help");
        reveal_strlit("ban");
        reveal_strlit("allowentry");
        reveal_strlit("setpass");
        reveal_strlit("setlevelspawn");
        reveal_strlit("weather");
        reveal_strlit("save");
        reveal_strlit("tp");
        reveal_strlit("levelrule");
        }
    if names_equal(cmd, "me") {
        let mut first = String::from_str("&f/");
        first.append(cmd);
        first.append(" ");
        first.append("<action>");
        return vec![first, String::from_str("&fDisplays an action as if you're doing it.")];
    }
    if names_equal(cmd, "say") {
        let mut first = String::from_str("&f/");
        first.append(cmd);
        first.append(" ");
        first.append("<message>");
        return vec![first, String::from_str("&fSends a message as being from the server.")];
    }
    if names_equal(cmd, "setperm") {
        let mut first = String::from_str("&f/");
        first.append(cmd);
        first.append(" ");
        first.append("<username> <permission level>");
        return vec![first, String::from_str("&fSets a player's permission level.")];
    }
    if names_equal(cmd, "kick") {
        let mut first = String::from_str("&f/");
        first.append(cmd);
        first.append(" ");
        first.append("<username> [reason]");
        return vec![first, String::from_str("&fKicks a player from the server.")];
    }
    if names_equal(cmd, "stop") {
        let mut first = String::from_str("&f/");
        first.append(cmd);
        first.append(" ");
        first.append("");
        return vec![first, String::from_str("&fStops the server while saving the level.")];
    }
    if names_equal(cmd, "help") {
        let mut first = String::from_str("&f/");
        first.append(cmd);
        first.append(" ");
        first.append("[command]");
        return vec![first, String::from_str("&fGets a list of commands or help about a command.")];
    }
    if names_equal(cmd, "ban") {
        let mut first = String::from_str("&f/");
        first.append(cmd);
        first.append(" ");
        first.append("<username> [reason]");
        return vec![first, String::from_str("&fBans a player from the server.")];
    }
    if names_equal(cmd, "allowentry") {
        let mut first = String::from_str("&f/");
        first.append(cmd);
        first.append(" ");
        first.append("<username>");
        return vec![first, String::from_str("&fAllows a player into the server.")];
    }
    if names_equal(cmd, "setpass") {
        let mut first = String::from_str("&f/");
        first.append(cmd);
        first.append(" ");
        first.append("<new password>");
        return vec![first, String::from_str("&fUpdates your password.")];
    }
    if names_equal(cmd, "setlevelspawn") {
        let mut first = String::from_str("&f/");
        first.append(cmd);
        first.append(" ");
        first.append("[overwrite_others]");
        return vec![first, String::from_str("&fSets the level's spawn to your location.")];
    }
    if names_equal(cmd, "weather") {
        let mut first = String::from_str("&f/");
        first.append(cmd);
        first.append(" ");
        first.append("<weather type>");
        return vec![first, String::from_str("&fSets the level's weather.")];
    }
    if names_equal(cmd, "save") {
        let mut first = String::from_str("&f/");
        first.append(cmd);
        first.append(" ");
        first.append("");
        return vec![first, String::from_str("&fSaves the current level.")];
    }
    if names_equal(cmd, "tp") {
        let mut first = String::from_str("&f/");
        first.append(cmd);
        first.append(" ");
        first.append("(<username> or <x> <y> <z>");
        return vec![first, String::from_str("&fTeleports to the given username or coordinates.")];
    }
    if names_equal(cmd, "levelrule") {
        let mut first = String::from_str("&f/");
        first.append(cmd);
        first.append(" ");
        first.append("<rule> [value]");
        return vec![first, String::from_str("&fGets or sets the given level rule. The special rule \"all\" will get all rules.")];
    }
        vec![String::from_str("&eUnknown command!")]
    }
}

} // verus!
