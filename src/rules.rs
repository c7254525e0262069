use vstd::prelude::*;
use vstd::string::*;
use vstd::utf8::encode_utf8;

use crate::level::LevelRules;

verus! {

/// The character of a decimal digit.
pub open spec fn digit_char(d: nat) -> char {
    if d == 0 { '0' } else if d == 1 { '1' } else if d == 2 { '2' } else if d == 3 { '3' } else if d == 4 { '4' }
    else if d == 5 { '5' } else if d == 6 { '6' } else if d == 7 { '7' } else if d == 8 { '8' } else { '9' }
}

/// The decimal digits of `n`, most significant first, without leading zeros.
pub open spec fn decimal(n: nat) -> Seq<char>
    decreases n,
{
    if n < 10 {
        seq![digit_char(n)]
    } else {
        decimal(n / 10).push(digit_char(n % 10))
    }
}

/// The text of a bool.
pub open spec fn bool_text(b: bool) -> Seq<char> {
    if b { "true"@ } else { "false"@ }
}

/// The value of a run of ASCII digit bytes.
pub open spec fn digits_value(b: Seq<u8>) -> nat
    decreases b.len(),
{
    if b.len() == 0 {
        0
    } else {
        digits_value(b.drop_last()) * 10 + (b.last() - 0x30) as nat
    }
}

/// Whether every byte is an ASCII digit.
pub open spec fn all_digits(b: Seq<u8>) -> bool {
    forall|i: int| 0 <= i < b.len() ==> 0x30 <= #[trigger] b[i] <= 0x39
}

/// The unsigned number that a text holds, as `u64`'s `FromStr` reads it: an optional `+`, then
/// one or more ASCII digits, with a value that fits in 64 bits.
pub open spec fn parse_u64_spec(s: Seq<char>) -> Option<u64> {
    let b = encode_utf8(s);
    let d = if b.len() > 0 && b[0] == 0x2b { b.skip(1) } else { b };
    if d.len() > 0 && all_digits(d) && digits_value(d) <= u64::MAX {
        Some(digits_value(d) as u64)
    } else {
        None
    }
}

/// The bool that a text holds, as `bool`'s `FromStr` reads it: exactly `true` or `false`.
pub open spec fn parse_bool_spec(s: Seq<char>) -> Option<bool> {
    if s == "true"@ {
        Some(true)
    } else if s == "false"@ {
        Some(false)
    } else {
        None
    }
}

/// The names of the level rules, in order.
pub open spec fn rule_names() -> Seq<Seq<char>> {
    seq!["fluid_spread"@, "grass_spread_chance"@, "random_tick_updates"@]
}

/// The description of a rule: its value, then its type in parentheses.
pub open spec fn rule_text(r: LevelRules, name: Seq<char>) -> Option<Seq<char>> {
    if name == "fluid_spread"@ {
        Some(bool_text(r.fluid_spread) + " (bool)"@)
    } else if name == "grass_spread_chance"@ {
        Some(decimal(r.grass_spread_chance as nat) + " (u64)"@)
    } else if name == "random_tick_updates"@ {
        Some(decimal(r.random_tick_updates as nat) + " (u64)"@)
    } else {
        None
    }
}

/// The rules after setting `name` from `value`; errors for an unknown name or a value that does
/// not parse as the rule's type.
pub open spec fn set_rule_spec(r: LevelRules, name: Seq<char>, value: Seq<char>) -> Result<LevelRules, Seq<char>> {
    if name == "fluid_spread"@ {
        match parse_bool_spec(value) {
            Some(b) => Ok(LevelRules { fluid_spread: b, ..r }),
            None => Err("Failed to parse value"@),
        }
    } else if name == "grass_spread_chance"@ || name == "random_tick_updates"@ {
        match parse_u64_spec(value) {
            Some(n) => Ok(if name == "grass_spread_chance"@ {
                LevelRules { grass_spread_chance: n, ..r }
            } else {
                LevelRules { random_tick_updates: n, ..r }
            }),
            None => Err("Failed to parse value"@),
        }
    } else {
        Err("Unknown field: "@ + name)
    }
}

fn digit_str(d: u64) -> (r: &'static str)
    requires
        d < 10,
    ensures
        r@ == seq![digit_char(d as nat)],
{
    proof {
        reveal_strlit("0"); reveal_strlit("1"); reveal_strlit("2"); reveal_strlit("3"); reveal_strlit("4");
        reveal_strlit("5"); reveal_strlit("6"); reveal_strlit("7"); reveal_strlit("8"); reveal_strlit("9");
    }
    if d == 0 { "0" } else if d == 1 { "1" } else if d == 2 { "2" } else if d == 3 { "3" } else if d == 4 { "4" }
    else if d == 5 { "5" } else if d == 6 { "6" } else if d == 7 { "7" } else if d == 8 { "8" } else { "9" }
}

/// The decimal text of a number.
pub fn decimal_string(n: u64) -> (r: String)
    ensures
        r@ == decimal(n as nat),
    decreases n,
{
    if n < 10 {
        String::from_str(digit_str(n))
    } else {
        let mut s = decimal_string(n / 10);
        s.append(digit_str(n % 10));
        s
    }
}

/// Reads a `u64` as its `FromStr` does.
pub fn parse_u64(s: &str) -> (r: Option<u64>)
    ensures
        r == parse_u64_spec(s@),
{
    let b = s.as_bytes();
    assert(b@ == encode_utf8(s@));
    let n = b.len();
    let start: usize = if n > 0 && b[0] == 0x2b { 1 } else { 0 };
    let ghost d = if b@.len() > 0 && b@[0] == 0x2b { b@.skip(1) } else { b@ };
    assert(d =~= b@.subrange(start as int, n as int));
    if start >= n {
        return None;
    }
    let mut v: u64 = 0;
    let mut i: usize = start;
    while i < n
        invariant
            start <= i <= n,
            n == b@.len(),
            d == b@.subrange(start as int, n as int),
            b@ == encode_utf8(s@),
            d == (if b@.len() > 0 && b@[0] == 0x2b { b@.skip(1) } else { b@ }),
            all_digits(b@.subrange(start as int, i as int)),
            v as nat == digits_value(b@.subrange(start as int, i as int)),
        decreases n - i,
    {
        let c = b[i];
        assert(b@.subrange(start as int, i + 1).drop_last() =~= b@.subrange(start as int, i as int));
        assert(b@.subrange(start as int, i + 1).last() == c);
        if c < 0x30 || c > 0x39 {
            assert(!all_digits(d)) by {
                assert(d[i - start] == c);
            }
            return None;
        }
        let dv = (c - 0x30) as u64;
        if v > (u64::MAX - dv) / 10 {
            proof {
                let w = b@.subrange(start as int, i + 1);
                assert(digits_value(w) == v * 10 + dv);
                assert(v * 10 + dv > u64::MAX) by (nonlinear_arith)
                    requires v > (u64::MAX - dv) / 10, dv <= 9;
                if all_digits(d) {
                    assert(w =~= d.subrange(0, w.len() as int));
                    lemma_digits_value_grows(d, w);
                }
            }
            return None;
        }
        v = v * 10 + dv;
        i = i + 1;
    }
    assert(b@.subrange(start as int, n as int) =~= d);
    Some(v)
}

/// A longer run of digits starting with the same digits is worth at least as much.
proof fn lemma_digits_value_grows(d: Seq<u8>, w: Seq<u8>)
    requires
        w.len() <= d.len(),
        w =~= d.subrange(0, w.len() as int),
        all_digits(d),
    ensures
        digits_value(d) >= digits_value(w),
    decreases d.len() - w.len(),
{
    if w.len() < d.len() {
        let w2 = d.subrange(0, w.len() as int + 1);
        assert(w2.drop_last() =~= w);
        assert(0x30 <= w2.last() <= 0x39);
        lemma_digits_value_grows(d, w2);
        assert(digits_value(w2) >= digits_value(w)) by (nonlinear_arith)
            requires digits_value(w2) == digits_value(w) * 10 + (w2.last() - 0x30) as nat, w2.last() >= 0x30;
    } else {
        assert(w =~= d);
    }
}

/// Reads a `bool` as its `FromStr` does.
pub fn parse_bool(s: &str) -> (r: Option<bool>)
    ensures
        r == parse_bool_spec(s@),
{
    let owned = String::from_str(s);
    if owned == String::from_str("true") {
        Some(true)
    } else if owned == String::from_str("false") {
        Some(false)
    } else {
        None
    }
}

fn names_equal(a: &str, b: &str) -> (r: bool)
    ensures
        r == (a@ == b@),
{
    String::from_str(a) == String::from_str(b)
}

fn with_suffix(mut s: String, suffix: &str) -> (r: String)
    ensures
        r@ == s@ + suffix@,
{
    s.append(suffix);
    s
}

impl LevelRules {
    /// Gets the description of one rule, `None` for an unknown name.
    pub fn get_rule(&self, name: &str) -> (r: Option<String>)
        ensures
            r matches Some(t) ==> rule_text(*self, name@) == Some(t@),
            r is None ==> rule_text(*self, name@) is None,
    {
        if names_equal(name, "fluid_spread") {
            let v = if self.fluid_spread { String::from_str("true") } else { String::from_str("false") };
            Some(with_suffix(v, " (bool)"))
        } else if names_equal(name, "grass_spread_chance") {
            Some(with_suffix(decimal_string(self.grass_spread_chance), " (u64)"))
        } else if names_equal(name, "random_tick_updates") {
            Some(with_suffix(decimal_string(self.random_tick_updates), " (u64)"))
        } else {
            None
        }
    }

    /// Gets every rule's name and description, in name order.
    pub fn get_all_rules_info(&self) -> (r: Vec<(String, String)>)
        ensures
            r@.len() == rule_names().len(),
            forall|i: int| 0 <= i < r@.len() ==> (#[trigger] r@[i]).0@ == rule_names()[i]
                && rule_text(*self, rule_names()[i]) == Some(r@[i].1@),
    {
        let mut out: Vec<(String, String)> = Vec::new();
        let names = ["fluid_spread", "grass_spread_chance", "random_tick_updates"];
        let mut i: usize = 0;
        while i < 3
            invariant
                i <= 3,
                names@ == seq!["fluid_spread", "grass_spread_chance", "random_tick_updates"],
                out@.len() == i,
                forall|k: int| 0 <= k < i ==> (#[trigger] out@[k]).0@ == rule_names()[k]
                    && rule_text(*self, rule_names()[k]) == Some(out@[k].1@),
            decreases 3 - i,
        {
            let name = names[i];
            match self.get_rule(name) {
                Some(t) => {
                    out.push((String::from_str(name), t));
                },
                None => {
                    return out;
                },
            }
            i = i + 1;
        }
        out
    }

    /// Sets a rule from text, parsed as the rule's type.
    pub fn set_rule(&mut self, name: &str, value: &str) -> (r: Result<(), String>)
        ensures
            match set_rule_spec(*old(self), name@, value@) {
                Ok(n) => r is Ok && *final(self) == n,
                Err(e) => r matches Err(m) && m@ == e && *final(self) == *old(self),
            },
    {
        if names_equal(name, "fluid_spread") {
            match parse_bool(value) {
                Some(b) => {
                    self.fluid_spread = b;
                    Ok(())
                },
                None => Err(String::from_str("Failed to parse value")),
            }
        } else if names_equal(name, "grass_spread_chance") || names_equal(name, "random_tick_updates") {
            match parse_u64(value) {
                Some(n) => {
                    if names_equal(name, "grass_spread_chance") {
                        self.grass_spread_chance = n;
                    } else {
                        self.random_tick_updates = n;
                    }
                    Ok(())
                },
                None => Err(String::from_str("Failed to parse value")),
            }
        } else {
            Err(with_suffix(String::from_str("Unknown field: "), name))
        }
    }
}

/// The chat lines that `/levelrule` answers with, given the rules before, and the rules after.
pub open spec fn levelrule_reply(r: LevelRules, rule: Seq<char>, value: Option<Seq<char>>) -> (Seq<Seq<char>>, LevelRules) {
    if rule == "all"@ {
        (Seq::new(3, |i: int| "&f"@ + rule_names()[i] + ": "@ + rule_text(r, rule_names()[i])->Some_0), r)
    } else {
        match value {
            Some(v) => match set_rule_spec(r, rule, v) {
                Ok(n) => (seq!["&fUpdated rule "@ + rule], n),
                Err(e) => (seq![e], r),
            },
            None => match rule_text(r, rule) {
                Some(t) => (seq!["&f"@ + t], r),
                None => (seq!["Unknown rule: "@ + rule], r),
            },
        }
    }
}

/// Runs `/levelrule`: `all` lists every rule as `name: value (type)`, a rule with a value sets
/// it, and a rule alone is described.
pub fn levelrule_command(rules: &mut LevelRules, rule: &str, value: Option<&str>) -> (r: Vec<String>)
    ensures
        ({
            let (lines, n) = levelrule_reply(*old(rules), rule@, match value { Some(v) => Some(v@), None => None });
            &&& *final(rules) == n
            &&& r@.len() == lines.len()
            &&& forall|i: int| 0 <= i < r@.len() ==> (#[trigger] r@[i])@ == lines[i]
        }),
{
    let mut out: Vec<String> = Vec::new();
    if names_equal(rule, "all") {
        let all = rules.get_all_rules_info();
        let ghost lines = levelrule_reply(*rules, rule@, match value { Some(v) => Some(v@), None => None }).0;
        let mut i: usize = 0;
        while i < all.len()
            invariant
                i <= all@.len(),
                all@.len() == 3,
                rule@ == "all"@,
                lines == Seq::new(3, |k: int| "&f"@ + rule_names()[k] + ": "@ + rule_text(*rules, rule_names()[k])->Some_0),
                forall|k: int| 0 <= k < all@.len() ==> (#[trigger] all@[k]).0@ == rule_names()[k]
                    && rule_text(*rules, rule_names()[k]) == Some(all@[k].1@),
                out@.len() == i,
                forall|k: int| 0 <= k < i ==> (#[trigger] out@[k])@ == lines[k],
            decreases all@.len() - i,
        {
            let mut line = String::from_str("&f");
            line.append(all[i].0.as_str());
            line.append(": ");
            line.append(all[i].1.as_str());
            out.push(line);
            i = i + 1;
        }
        return out;
    }
    match value {
        Some(v) => match rules.set_rule(rule, v) {
            Ok(()) => {
                out.push(with_suffix(String::from_str("&fUpdated rule "), rule));
            },
            Err(e) => {
                out.push(e);
            },
        },
        None => match rules.get_rule(rule) {
            Some(t) => {
                out.push(with_suffix(String::from_str("&f"), t.as_str()));
            },
            None => {
                out.push(with_suffix(String::from_str("Unknown rule: "), rule));
            },
        },
    }
    out
}

} // verus!
