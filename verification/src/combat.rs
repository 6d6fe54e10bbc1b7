//! The rules of an exchange of blows between the player and a contact.

use crate::buffs::{damage_tenths, scale_by_tenths};
use crate::lines::{deal_line, take_line, victory_line};
use crate::pieces::{ContactView, Networks, Skills};
use crate::player::{PlayerStats, PlayerView, INTEL_UNIT};
use vstd::prelude::*;

verus! {

/// Units of intel that a kill brings on the current network.
pub const KILL_INTEL: i64 = 12;

/// Half of `x`, rounded towards zero.
pub open spec fn halved(x: int) -> int {
    if x >= 0 {
        x / 2
    } else {
        -((-x) / 2)
    }
}

/// The least damage that an attacker with the given hacking score deals
/// to a defender with the given firewall score: twice the hacking less
/// the firewall, but not below zero.
pub open spec fn attack_floor(hacking: int, firewall: int) -> int {
    if 2 * hacking - firewall > 0 {
        2 * hacking - firewall
    } else {
        0
    }
}

/// The bound that the damage stays below: four times the hacking less
/// half the firewall, but always above the floor, so that the range is
/// never empty.
pub open spec fn attack_ceiling(hacking: int, firewall: int) -> int {
    if 4 * hacking - halved(firewall) > attack_floor(hacking, firewall) {
        4 * hacking - halved(firewall)
    } else {
        attack_floor(hacking, firewall) + 1
    }
}

/// The range that the damage of one hit is drawn from, as its floor and
/// the ceiling it stays below. The same rule holds for the player's hit
/// on a contact and for the contact's hit back.
pub fn damage_range(hacking: i32, firewall: i32) -> (r: (i64, i64))
    ensures
        r.0 == attack_floor(hacking as int, firewall as int),
        r.1 == attack_ceiling(hacking as int, firewall as int),
        0 <= r.0 < r.1 <= 0x4_0000_0000,
{
    let h: i64 = hacking as i64;
    let f: i64 = firewall as i64;
    let low: i64 = if 2 * h - f > 0 { 2 * h - f } else { 0 };
    let half: i64 = if f >= 0 { f / 2 } else { -((-f) / 2) };
    let high: i64 = if 4 * h - half > low { 4 * h - half } else { low + 1 };
    (low, high)
}

/// The range of a hit is never empty, starts at zero or above, and ends
/// within sixteen times the range of a skill score.
pub proof fn lemma_range_bounds(hacking: i32, firewall: i32)
    ensures
        0 <= attack_floor(hacking as int, firewall as int) < attack_ceiling(
            hacking as int,
            firewall as int,
        ) <= 0x4_0000_0000,
{
}

/// The two draws of one exchange: the damage of the player's hit on the
/// contact before any bonus, and the damage of the contact's hit back,
/// which counts only if the contact survives.
#[derive(Clone, Copy, Debug, PartialEq, Eq, Structural)]
pub struct Exchange {
    pub damage: i64,
    pub counter: i64,
}

/// Both draws of `x` lie in the ranges that the skills of the player and
/// of the contact give.
pub open spec fn exchange_possible(skills: Skills, contact: ContactView, x: Exchange) -> bool {
    &&& attack_floor(skills.hacking as int, contact.skills.firewall as int) <= x.damage
        < attack_ceiling(skills.hacking as int, contact.skills.firewall as int)
    &&& attack_floor(contact.skills.hacking as int, skills.firewall as int) <= x.counter
        < attack_ceiling(contact.skills.hacking as int, skills.firewall as int)
}

/// What a pass over the contacts has brought so far: the player, the
/// contacts that survived, and the lines to be written.
pub struct Pass {
    pub player: PlayerView,
    pub survivors: Seq<ContactView>,
    pub lines: Seq<Seq<char>>,
}

/// The bonus that the player's buffs add to a hit of `damage`.
pub open spec fn hit_bonus(player: PlayerView, damage: int) -> int {
    scale_by_tenths(damage, damage_tenths(player.buffs))
}

/// Whether the hit of `x`, with the player's bonus, defeats `contact`.
pub open spec fn defeats(player: PlayerView, contact: ContactView, x: Exchange) -> bool {
    contact.struck(x.damage + hit_bonus(player, x.damage as int)).hp.value <= 0
}

/// The pass after the exchange `x` with `contact`. The player hits for
/// `x.damage` and the bonus of the buffs. A contact whose health is gone
/// is defeated: a kill is counted, the contact's reward is added to the
/// experience and the network's intel grows. Any other contact survives
/// and hits back for `x.counter`.
pub open spec fn pass_step(p: Pass, net: Networks, contact: ContactView, x: Exchange) -> Pass {
    let bonus = hit_bonus(p.player, x.damage as int);
    let dealt = deal_line(x.damage as int, bonus, contact.name);
    if defeats(p.player, contact, x) {
        Pass {
            player: PlayerView {
                stats: PlayerStats { kills: (p.player.stats.kills + 1) as u32, ..p.player.stats },
                xp: p.player.xp + contact.reward(),
                net_stats: p.player.net_stats.with_intel(net, KILL_INTEL * INTEL_UNIT),
                ..p.player
            },
            survivors: p.survivors,
            lines: p.lines.push(dealt).push(victory_line()),
        }
    } else {
        Pass {
            player: PlayerView { hp: p.player.hp.changed(-x.counter), ..p.player },
            survivors: p.survivors.push(contact.struck(x.damage + bonus)),
            lines: p.lines.push(dealt).push(take_line(x.counter as int, contact.name)),
        }
    }
}

/// Whether the counters have room for the exchange `x` with `contact`.
pub open spec fn step_fits(p: Pass, net: Networks, contact: ContactView, x: Exchange) -> bool {
    defeats(p.player, contact, x) ==> {
        &&& p.player.stats.kills + 1 <= u32::MAX
        &&& i32::MIN <= p.player.xp + contact.reward() <= i32::MAX
        &&& p.player.net_stats.spec_get(net).total_intel + KILL_INTEL * INTEL_UNIT <= i64::MAX
    }
}

/// The pass over all of `contacts`, in order, with the exchange of the
/// same index for each.
pub open spec fn pass_over(
    player: PlayerView,
    net: Networks,
    contacts: Seq<ContactView>,
    rolls: Seq<Exchange>,
) -> Pass
    decreases contacts.len(),
{
    if contacts.len() == 0 || rolls.len() != contacts.len() {
        Pass { player, survivors: Seq::empty(), lines: Seq::empty() }
    } else {
        pass_step(
            pass_over(player, net, contacts.drop_last(), rolls.drop_last()),
            net,
            contacts.last(),
            rolls.last(),
        )
    }
}

/// Whether the counters have room for every exchange of the pass.
pub open spec fn pass_fits(
    player: PlayerView,
    net: Networks,
    contacts: Seq<ContactView>,
    rolls: Seq<Exchange>,
) -> bool
    decreases contacts.len(),
{
    if contacts.len() == 0 || rolls.len() != contacts.len() {
        true
    } else {
        &&& pass_fits(player, net, contacts.drop_last(), rolls.drop_last())
        &&& step_fits(
            pass_over(player, net, contacts.drop_last(), rolls.drop_last()),
            net,
            contacts.last(),
            rolls.last(),
        )
    }
}

/// Every exchange of `rolls` is possible for the contact of its index.
pub open spec fn rolls_possible(skills: Skills, contacts: Seq<ContactView>, rolls: Seq<Exchange>) -> bool {
    &&& rolls.len() == contacts.len()
    &&& forall|i: int|
        0 <= i < contacts.len() ==> exchange_possible(skills, contacts[i], #[trigger] rolls[i])
}

/// A hit that can hurt does hurt: when twice the player's hacking is above
/// the contact's firewall, every possible hit, whatever the buffs, takes at
/// least one point of health from a contact that has any, so a contact is
/// defeated after no more attacks than it has health.
pub proof fn lemma_hit_wears_down(player: PlayerView, contact: ContactView, x: Exchange)
    requires
        2 * player.skills.hacking > contact.skills.firewall,
        exchange_possible(player.skills, contact, x),
        0 < contact.hp.value <= contact.hp.upper_limit,
    ensures
        x.damage + hit_bonus(player, x.damage as int) >= 1,
        contact.struck(x.damage + hit_bonus(player, x.damage as int)).hp.value
            <= contact.hp.value - 1,
        contact.struck(x.damage + hit_bonus(player, x.damage as int)).hp.value >= 0,
{
    let tenths = damage_tenths(player.buffs);
    let d = x.damage as int;
    assert(d >= 1);
    assert(-2 <= tenths <= 11);
    assert(d * tenths >= -2 * d) by (nonlinear_arith)
        requires
            d >= 1,
            tenths >= -2,
    ;
    assert((d * tenths + 9) / 10 >= (-2 * d + 9) / 10);
    assert(d + (-2 * d + 9) / 10 >= 1);
}

/// A pass that fits as a whole fits up to any point.
pub proof fn lemma_pass_fits_prefix(
    player: PlayerView,
    net: Networks,
    contacts: Seq<ContactView>,
    rolls: Seq<Exchange>,
    k: int,
)
    requires
        rolls.len() == contacts.len(),
        0 <= k <= contacts.len(),
        pass_fits(player, net, contacts, rolls),
    ensures
        pass_fits(player, net, contacts.take(k), rolls.take(k)),
    decreases contacts.len() - k,
{
    if k == contacts.len() {
        assert(contacts.take(k) =~= contacts);
        assert(rolls.take(k) =~= rolls);
    } else {
        lemma_pass_fits_prefix(player, net, contacts, rolls, k + 1);
        assert(contacts.take(k + 1).drop_last() =~= contacts.take(k));
        assert(rolls.take(k + 1).drop_last() =~= rolls.take(k));
    }
}

} // verus!
