//! The lines that the game writes to its log.

use crate::pieces::Networks;
use crate::player::PlayerUpgradeType;
use crate::quests::QuestID;
use crate::text::{signed_decimal, signed_decimal_string};
use vstd::prelude::*;
use vstd::string::*;

verus! {

/// `You deal 7 damage to maniabot.`, or `You deal 7 + 8 damage to
/// maniabot.` when the buffs add a bonus above zero.
pub open spec fn deal_line(damage: int, bonus: int, name: Seq<char>) -> Seq<char> {
    if bonus > 0 {
        "You deal "@ + signed_decimal(damage) + " + "@ + signed_decimal(bonus) + " damage to "@
            + name + "."@
    } else {
        "You deal "@ + signed_decimal(damage) + " damage to "@ + name + "."@
    }
}

/// `You take 3 damage from maniabot.`
pub open spec fn take_line(damage: int, name: Seq<char>) -> Seq<char> {
    "You take "@ + signed_decimal(damage) + " damage from "@ + name + "."@
}

/// The line after a kill.
pub open spec fn victory_line() -> Seq<char> {
    "You are victorious!"@
}

/// `You gained 80 XP.`
pub open spec fn xp_line(amount: int) -> Seq<char> {
    "You gained "@ + signed_decimal(amount) + " XP."@
}

/// The line that tells of a finished quest.
pub open spec fn quest_done_line(id: QuestID) -> Seq<char> {
    match id {
        QuestID::CombatVictory => "Victorious in combat, you finish a quest!"@,
        QuestID::DatamineSuccess => "Successful in datamining, you finish a quest!"@,
    }
}

/// The line after overclocking.
pub open spec fn overclock_line() -> Seq<char> {
    "You overclock your systems, empowering your next attack."@
}

/// `You need 4 RAM to use that ability.`
pub open spec fn need_ram_line(cost: int) -> Seq<char> {
    "You need "@ + signed_decimal(cost) + " RAM to use that ability."@
}

/// The line after an escape.
pub open spec fn escape_line() -> Seq<char> {
    "You escape from combat."@
}

/// How a network is called in running text.
pub open spec fn net_phrase(net: Networks) -> Seq<char> {
    match net {
        Networks::Internet => "the internet"@,
        Networks::SIPRnet => "SIPRnet"@,
    }
}

/// `You see what's available for purchase on the internet.`
pub open spec fn shop_line(net: Networks) -> Seq<char> {
    "You see what's available for purchase on "@ + net_phrase(net) + "."@
}

/// The line on finding the shop.
pub open spec fn stumble_line() -> Seq<char> {
    "You stumble across some sort of virtual server for secure transations."@
}

/// The line when there is no RAM to recover.
pub open spec fn full_ram_line() -> Seq<char> {
    "You are already at maximum RAM"@
}

/// `You recover 12 RAM`
pub open spec fn recover_line(amount: int) -> Seq<char> {
    "You recover "@ + signed_decimal(amount) + " RAM"@
}

/// `(0.6) You found some interesting data worth 9 credits`
pub open spec fn datamine_line(reward: int) -> Seq<char> {
    "(0.6) You found some interesting data worth "@ + signed_decimal(reward) + " credits"@
}

/// `(0.4) You run into a nasty piece of malware - maniabot`
pub open spec fn malware_line(name: Seq<char>) -> Seq<char> {
    "(0.4) You run into a nasty piece of malware - "@ + name
}

/// `(0.8) You found some particularly interesting data worth 5 credits`
pub open spec fn search_line(reward: int) -> Seq<char> {
    "(0.8) You found some particularly interesting data worth "@ + signed_decimal(reward)
        + " credits"@
}

/// `(0.2) You don't find anything new, but regenerate 4 RAM`
pub open spec fn regenerate_line(amount: int) -> Seq<char> {
    "(0.2) You don't find anything new, but regenerate "@ + signed_decimal(amount) + " RAM"@
}

/// `You bought HP Max +!`
pub open spec fn bought_line(kind: PlayerUpgradeType) -> Seq<char> {
    "You bought "@ + kind.label() + "!"@
}

/// `opening`, the number, `closing`.
fn around_number(opening: &str, number: i64, closing: &str) -> (r: String)
    ensures
        r@ == opening@ + signed_decimal(number as int) + closing@,
{
    let mut r = opening.to_owned();
    let digits = signed_decimal_string(number);
    r.append(digits.as_str());
    r.append(closing);
    r
}

/// Writes the line for a hit on a contact.
pub fn write_deal_line(damage: i64, bonus: i64, name: &str) -> (r: String)
    ensures
        r@ == deal_line(damage as int, bonus as int, name@),
{
    let mut r = "You deal ".to_owned();
    let digits = signed_decimal_string(damage);
    r.append(digits.as_str());
    if bonus > 0 {
        r.append(" + ");
        let more = signed_decimal_string(bonus);
        r.append(more.as_str());
    }
    r.append(" damage to ");
    r.append(name);
    r.append(".");
    r
}

/// Writes the line for a hit on the player.
pub fn write_take_line(damage: i64, name: &str) -> (r: String)
    ensures
        r@ == take_line(damage as int, name@),
{
    let mut r = around_number("You take ", damage, " damage from ");
    r.append(name);
    r.append(".");
    r
}

/// Writes the line for experience gained.
pub fn write_xp_line(amount: i32) -> (r: String)
    ensures
        r@ == xp_line(amount as int),
{
    around_number("You gained ", amount as i64, " XP.")
}

/// Writes the line that tells of a finished quest.
pub fn write_quest_done_line(id: QuestID) -> (r: String)
    ensures
        r@ == quest_done_line(id),
{
    match id {
        QuestID::CombatVictory => "Victorious in combat, you finish a quest!".to_owned(),
        QuestID::DatamineSuccess => "Successful in datamining, you finish a quest!".to_owned(),
    }
}

/// Writes the line for an ability that the RAM does not pay for.
pub fn write_need_ram_line(cost: i32) -> (r: String)
    ensures
        r@ == need_ram_line(cost as int),
{
    around_number("You need ", cost as i64, " RAM to use that ability.")
}

/// Writes the line on entering a shop.
pub fn write_shop_line(net: Networks) -> (r: String)
    ensures
        r@ == shop_line(net),
{
    let mut r = "You see what's available for purchase on ".to_owned();
    match net {
        Networks::Internet => r.append("the internet"),
        Networks::SIPRnet => r.append("SIPRnet"),
    }
    r.append(".");
    r
}

/// Writes the line for RAM recovered.
pub fn write_recover_line(amount: i64) -> (r: String)
    ensures
        r@ == recover_line(amount as int),
{
    around_number("You recover ", amount, " RAM")
}

/// Writes the line for a successful datamine.
pub fn write_datamine_line(reward: i64) -> (r: String)
    ensures
        r@ == datamine_line(reward as int),
{
    around_number("(0.6) You found some interesting data worth ", reward, " credits")
}

/// Writes the line for a datamine that met a contact.
pub fn write_malware_line(name: &str) -> (r: String)
    ensures
        r@ == malware_line(name@),
{
    let mut r = "(0.4) You run into a nasty piece of malware - ".to_owned();
    r.append(name);
    r
}

/// Writes the line for a successful search.
pub fn write_search_line(reward: i64) -> (r: String)
    ensures
        r@ == search_line(reward as int),
{
    around_number("(0.8) You found some particularly interesting data worth ", reward, " credits")
}

/// Writes the line for a search that found nothing.
pub fn write_regenerate_line(amount: i64) -> (r: String)
    ensures
        r@ == regenerate_line(amount as int),
{
    around_number("(0.2) You don't find anything new, but regenerate ", amount, " RAM")
}

/// Writes the line for a purchase.
pub fn write_bought_line(kind: PlayerUpgradeType) -> (r: String)
    ensures
        r@ == bought_line(kind),
{
    let mut r = "You bought ".to_owned();
    let label = kind.name();
    r.append(label.as_str());
    r.append("!");
    r
}

} // verus!
