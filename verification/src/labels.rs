use vstd::prelude::*;

use crate::stat_text::signed_decimal;
use crate::text::{decimal, push_decimal, push_str, string_from_chars};

verus! {

/// `prefix`, `n` in decimal, then `suffix`.
fn number_between(prefix: &str, n: u64, suffix: &str) -> (s: String)
    ensures
        s@ == prefix@ + decimal(n as nat) + suffix@,
{
    let mut out: Vec<char> = Vec::new();
    push_str(&mut out, prefix);
    push_decimal(&mut out, n);
    push_str(&mut out, suffix);
    string_from_chars(&out)
}

/// `prefix`, then `n` in decimal.
fn number_after(prefix: &str, n: u64) -> (s: String)
    ensures
        s@ == prefix@ + decimal(n as nat),
{
    let mut out: Vec<char> = Vec::new();
    push_str(&mut out, prefix);
    push_decimal(&mut out, n);
    string_from_chars(&out)
}

fn push_signed(out: &mut Vec<char>, n: i32)
    ensures
        final(out)@ == old(out)@ + signed_decimal(n as int),
{
    let wide = n as i64;
    if wide < 0 {
        out.push('-');
        push_decimal(out, (-wide) as u64);
        assert(final(out)@ =~= old(out)@ + signed_decimal(n as int)) by {
            assert(old(out)@.push('-') + decimal((-wide) as u64 as nat) =~= old(out)@ + (seq!['-'] + decimal((-n) as nat)));
        }
    } else {
        push_decimal(out, wide as u64);
    }
}

/// A shop row: `<name> - <price>g`.
pub fn price_tag(name: &str, price: u32) -> (s: String)
    ensures
        s@ == name@ + " - "@ + decimal(price as nat) + "g"@,
{
    let mut out: Vec<char> = Vec::new();
    push_str(&mut out, name);
    push_str(&mut out, " - ");
    push_decimal(&mut out, price as u64);
    push_str(&mut out, "g");
    string_from_chars(&out)
}

/// A spell-slot choice: `<slot> - <spell>`.
pub fn slot_choice_label(slot: &str, spell: &str) -> (s: String)
    ensures
        s@ == slot@ + " - "@ + spell@,
{
    let mut out: Vec<char> = Vec::new();
    push_str(&mut out, slot);
    push_str(&mut out, " - ");
    push_str(&mut out, spell);
    string_from_chars(&out)
}

/// The wave counter: `Wave <n>`.
pub fn wave_label(wave: u32) -> (s: String)
    ensures
        s@ == "Wave "@ + decimal(wave as nat),
{
    number_after("Wave ", wave as u64)
}

/// The shop title after a wave: `Wave <n> Complete!`.
pub fn wave_complete_label(wave: u32) -> (s: String)
    ensures
        s@ == "Wave "@ + decimal(wave as nat) + " Complete!"@,
{
    number_between("Wave ", wave as u64, " Complete!")
}

/// The shop's coin count: `Total: <n> coins`.
pub fn total_coins_label(coins: u32) -> (s: String)
    ensures
        s@ == "Total: "@ + decimal(coins as nat) + " coins"@,
{
    number_between("Total: ", coins as u64, " coins")
}

/// The coin counter: `Coins: <n>`.
pub fn coins_label(coins: u32) -> (s: String)
    ensures
        s@ == "Coins: "@ + decimal(coins as nat),
{
    number_after("Coins: ", coins as u64)
}

/// The artifact shop's reroll button: `Reroll - <cost>g`.
pub fn reroll_price_label(cost: u32) -> (s: String)
    ensures
        s@ == "Reroll - "@ + decimal(cost as nat) + "g"@,
{
    number_between("Reroll - ", cost as u64, "g")
}

/// The rune shop's reroll button: `Reroll (<cost>)`.
pub fn reroll_cost_label(cost: u32) -> (s: String)
    ensures
        s@ == "Reroll ("@ + decimal(cost as nat) + ")"@,
{
    number_between("Reroll (", cost as u64, ")")
}

/// The sell button of an artifact: `Sell <price>g`.
pub fn sell_label(price: u32) -> (s: String)
    ensures
        s@ == "Sell "@ + decimal(price as nat) + "g"@,
{
    number_between("Sell ", price as u64, "g")
}

/// The run counter of the skill tree: `Run <n>`.
pub fn run_label(attempt: u32) -> (s: String)
    ensures
        s@ == "Run "@ + decimal(attempt as nat),
{
    number_after("Run ", attempt as u64)
}

/// The skill tree's coin line: `Coins: <n> (node: <cost>g)`.
pub fn tree_coins_label(coins: u32, node_cost: u32) -> (s: String)
    ensures
        s@ == "Coins: "@ + decimal(coins as nat) + " (node: "@ + decimal(node_cost as nat) + "g)"@,
{
    let mut out: Vec<char> = Vec::new();
    push_str(&mut out, "Coins: ");
    push_decimal(&mut out, coins as u64);
    push_str(&mut out, " (node: ");
    push_decimal(&mut out, node_cost as u64);
    push_str(&mut out, "g)");
    string_from_chars(&out)
}

/// A number on its own, as a price tag or a level is shown.
pub fn number_text(n: u32) -> (s: String)
    ensures
        s@ == decimal(n as nat),
{
    let mut out: Vec<char> = Vec::new();
    push_decimal(&mut out, n as u64);
    assert(out@ =~= decimal(n as nat));
    string_from_chars(&out)
}

/// The header of the editor's node panel: `Node #<index> (<x>, <y>)`.
pub fn node_header(idx: usize, cell: (i32, i32)) -> (s: String)
    ensures
        s@ == "Node #"@ + decimal(idx as nat) + " ("@ + signed_decimal(cell.0 as int) + ", "@
            + signed_decimal(cell.1 as int) + ")"@,
{
    let mut out: Vec<char> = Vec::new();
    push_str(&mut out, "Node #");
    push_decimal(&mut out, idx as u64);
    push_str(&mut out, " (");
    push_signed(&mut out, cell.0);
    push_str(&mut out, ", ");
    push_signed(&mut out, cell.1);
    push_str(&mut out, ")");
    string_from_chars(&out)
}

/// The life counter: `Life: <current>/<max>` (both already rounded toward zero).
pub fn life_label(current: i32, max: i32) -> (s: String)
    ensures
        s@ == "Life: "@ + signed_decimal(current as int) + "/"@ + signed_decimal(max as int),
{
    let mut out: Vec<char> = Vec::new();
    push_str(&mut out, "Life: ");
    push_signed(&mut out, current);
    push_str(&mut out, "/");
    push_signed(&mut out, max);
    string_from_chars(&out)
}

/// A whole signed number on its own, as a damage number shows it.
pub fn signed_number_text(n: i32) -> (s: String)
    ensures
        s@ == signed_decimal(n as int),
{
    let mut out: Vec<char> = Vec::new();
    push_signed(&mut out, n);
    assert(out@ =~= signed_decimal(n as int));
    string_from_chars(&out)
}

/// The name button of a rolled stat in the editor: `<name>:`, or `?:` for a
/// stat the registry does not name.
pub fn stat_name_label(name: Option<&str>) -> (s: String)
    ensures
        s@ == (match name {
            Some(n) => n@,
            None => "?"@,
        }) + ":"@,
{
    let mut out: Vec<char> = Vec::new();
    match name {
        Some(n) => push_str(&mut out, n),
        None => push_str(&mut out, "?"),
    }
    push_str(&mut out, ":");
    string_from_chars(&out)
}

} // verus!
