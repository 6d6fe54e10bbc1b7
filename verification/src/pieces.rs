//! Leaf data of the game: bounded resources, skill scores, contacts and
//! networks.

use crate::utils::{is_roll, pick, roll, ROLL_SCALE};
use vstd::prelude::*;
use vstd::string::*;

verus! {

/// Skill points that a contact gets per level, and that a player may
/// distribute in total.
pub const BASE_SKILL_POINTS: i32 = 10;

/// What a bounded resource measures.
#[derive(Clone, Copy, Debug, PartialEq, Eq, Structural)]
pub enum CappedValueType {
    Health,
    Ram,
}

/// A resource that lives in `[0, upper_limit]`.
#[derive(Clone, Copy, Debug, PartialEq, Eq, Structural)]
pub struct CappedValue {
    pub value: i32,
    pub upper_limit: i32,
    pub value_type: CappedValueType,
}

/// `value` forced into `[0, limit]`: first raised to zero, then lowered to
/// the limit.
pub open spec fn clamp_to_limit(value: int, limit: int) -> int {
    let raised = if value < 0 { 0 } else { value };
    if raised > limit { limit } else { raised }
}

impl CappedValue {
    /// The value lies between zero and the limit.
    pub open spec fn wf(&self) -> bool {
        0 <= self.value <= self.upper_limit
    }

    /// A full health bar of the given size.
    pub fn new_health(value: i32) -> (r: Self)
        ensures
            r.value == value,
            r.upper_limit == value,
            r.value_type == CappedValueType::Health,
            value >= 0 ==> r.wf(),
    {
        CappedValue { value, upper_limit: value, value_type: CappedValueType::Health }
    }

    /// A RAM bank holding `value` out of `upper_limit`.
    pub fn new_ram(value: i32, upper_limit: i32) -> (r: Self)
        ensures
            r.value == value,
            r.upper_limit == upper_limit,
            r.value_type == CappedValueType::Ram,
            0 <= value <= upper_limit ==> r.wf(),
    {
        CappedValue { value, upper_limit, value_type: CappedValueType::Ram }
    }

    /// Whether the resource is exhausted. Callers use it after a change to
    /// react to depletion (death, no RAM left).
    pub fn hit_zero(&self) -> (r: bool)
        ensures
            r == (self.value == 0),
    {
        self.value == 0
    }

    /// The resource after `amount` was added (or taken away, if negative):
    /// the sum, clamped into `[0, upper_limit]`.
    pub open spec fn changed(&self, amount: int) -> CappedValue {
        CappedValue {
            value: clamp_to_limit(self.value + amount, self.upper_limit as int) as i32,
            ..*self
        }
    }

    /// Adds `amount` (which may be negative) and clamps the outcome into
    /// `[0, upper_limit]`. Any amount is accepted.
    pub fn change_by(&mut self, amount: i32)
        ensures
            *final(self) == old(self).changed(amount as int),
            final(self).value == clamp_to_limit(old(self).value + amount, old(self).upper_limit as int),
            old(self).upper_limit >= 0 ==> final(self).wf(),
    {
        self.shift(amount as i64);
    }

    /// `change_by` for amounts beyond the range of `i32`.
    pub fn shift(&mut self, amount: i64)
        ensures
            *final(self) == old(self).changed(amount as int),
            final(self).value == clamp_to_limit(old(self).value + amount, old(self).upper_limit as int),
            old(self).upper_limit >= 0 ==> final(self).wf(),
    {
        let sum: i128 = self.value as i128 + amount as i128;
        let raised: i128 = if sum < 0 { 0 } else { sum };
        let limit: i128 = self.upper_limit as i128;
        let clamped: i128 = if raised > limit { limit } else { raised };
        self.value = clamped as i32;
    }
}

/// A pair of skill scores. Hacking drives the damage dealt, firewall the
/// damage kept out.
#[derive(Clone, Copy, Debug, PartialEq, Eq, Structural)]
pub struct Skills {
    pub hacking: i32,
    pub firewall: i32,
}

impl Skills {
    /// The points spent on both skills together.
    pub fn total_points(&self) -> (r: i32)
        requires
            i32::MIN <= self.hacking + self.firewall <= i32::MAX,
        ensures
            r == self.hacking + self.firewall,
    {
        self.hacking + self.firewall
    }
}

impl Default for Skills {
    /// Four points in each skill.
    fn default() -> (r: Self)
        ensures
            r == (Skills { hacking: 4, firewall: 4 }),
    {
        Skills { hacking: 4, firewall: 4 }
    }
}

/// How a contact stands towards the player.
#[derive(Clone, Copy, Debug, PartialEq, Eq, Structural)]
pub enum Disposition {
    Neutral,
    Hostile,
}

impl Disposition {
    /// The disposition in words.
    pub open spec fn label(&self) -> Seq<char> {
        match self {
            Disposition::Neutral => "Neutral"@,
            Disposition::Hostile => "Hostile"@,
        }
    }

    /// The disposition in words.
    pub fn name(&self) -> (r: String)
        ensures
            r@ == self.label(),
    {
        match self {
            Disposition::Neutral => "Neutral".to_owned(),
            Disposition::Hostile => "Hostile".to_owned(),
        }
    }
}

/// The networks that can be browsed.
#[derive(Clone, Copy, Debug, PartialEq, Eq, Hash, Structural)]
pub enum Networks {
    Internet,
    SIPRnet,
}

impl Networks {
    /// How hard the network is: rewards and dangers scale with it.
    pub open spec fn spec_difficulty(&self) -> i64 {
        match self {
            Networks::Internet => 1,
            Networks::SIPRnet => 3,
        }
    }

    /// How hard the network is: rewards and dangers scale with it.
    #[verifier::when_used_as_spec(spec_difficulty)]
    pub fn difficulty(&self) -> (r: i64)
        ensures
            r == self.spec_difficulty(),
    {
        match self {
            Networks::Internet => 1,
            Networks::SIPRnet => 3,
        }
    }

    /// The network's name.
    pub open spec fn label(&self) -> Seq<char> {
        match self {
            Networks::Internet => "Internet"@,
            Networks::SIPRnet => "SIPRnet"@,
        }
    }

    /// The network's name.
    pub fn name(&self) -> (r: String)
        ensures
            r@ == self.label(),
    {
        match self {
            Networks::Internet => "Internet".to_owned(),
            Networks::SIPRnet => "SIPRnet".to_owned(),
        }
    }
}

/// The names that hostile contacts go by.
pub open spec fn hostile_names() -> Seq<Seq<char>> {
    seq![
        "adware-imp"@,
        "maniabot"@,
        "SpamSpyder"@,
        "darknet-dragon"@,
        "silent-strike"@,
        "phantom_protocol"@,
    ]
}

/// One of the hostile names, chosen at random.
pub fn random_hostile_name() -> (r: String)
    ensures
        hostile_names().contains(r@),
{
    let mut vs: Vec<&str> = Vec::new();
    vs.push("adware-imp");
    vs.push("maniabot");
    vs.push("SpamSpyder");
    vs.push("darknet-dragon");
    vs.push("silent-strike");
    vs.push("phantom_protocol");
    let choice = pick(&vs);
    proof {
        let chosen = choice->0;
        let i = choose|i: int| 0 <= i < vs@.len() && vs@[i] == chosen;
        assert(hostile_names()[i] == chosen@);
    }
    match choice {
        Some(name) => name.to_owned(),
        None => String::new(),
    }
}

/// The highest level a contact can be generated at: its skill points
/// must fit the integer type of the scores.
pub const MAX_LEVEL: i32 = 214_748_364;

/// The hacking score of a contact with `total` skill points whose skill
/// roll was `roll`: half the points, moved by up to a quarter of them
/// either way as the roll moves from the bottom of its range to the top,
/// rounded to the nearest integer (a half rounds up).
pub open spec fn rolled_hacking(total: int, roll: int) -> int {
    (total * (ROLL_SCALE + 2 * roll) + 2 * ROLL_SCALE) / (4 * ROLL_SCALE)
}

/// The health of a contact of the given level.
pub open spec fn level_health(level: int) -> int {
    25 + 5 * level
}

/// A non-player actor met on a network.
pub struct Contact {
    pub name: String,
    pub hp: CappedValue,
    pub skills: Skills,
    pub disposition: Disposition,
}

/// What a contact is, as plain values.
pub struct ContactView {
    pub name: Seq<char>,
    pub hp: CappedValue,
    pub skills: Skills,
    pub disposition: Disposition,
}

impl View for Contact {
    type V = ContactView;

    open spec fn view(&self) -> ContactView {
        ContactView {
            name: self.name@,
            hp: self.hp,
            skills: self.skills,
            disposition: self.disposition,
        }
    }
}

impl ContactView {
    /// The experience that defeating the contact is worth: its skill
    /// points.
    pub open spec fn reward(&self) -> int {
        self.skills.hacking + self.skills.firewall
    }

    /// The contact after it took `damage`.
    pub open spec fn struck(&self, damage: int) -> ContactView {
        ContactView { hp: self.hp.changed(-damage), ..*self }
    }
}

/// The contact of the given level, skill roll and name: hostile, at full
/// health, with ten skill points per level split by the roll.
pub open spec fn generated_contact(level: int, roll: int, name: Seq<char>) -> ContactView {
    ContactView {
        name,
        hp: CappedValue {
            value: level_health(level) as i32,
            upper_limit: level_health(level) as i32,
            value_type: CappedValueType::Health,
        },
        skills: Skills {
            hacking: rolled_hacking(BASE_SKILL_POINTS * level, roll) as i32,
            firewall: (BASE_SKILL_POINTS * level - rolled_hacking(
                BASE_SKILL_POINTS * level,
                roll,
            )) as i32,
        },
        disposition: Disposition::Hostile,
    }
}

impl Contact {
    /// The experience that defeating the contact is worth: its skill
    /// points.
    pub fn reward(&self) -> (r: i64)
        ensures
            r == self@.reward(),
    {
        self.skills.hacking as i64 + self.skills.firewall as i64
    }

    /// Builds the contact of the given level from a skill roll already
    /// made and a name already chosen.
    pub fn from_roll(level: i32, skill_roll: i64, name: String) -> (r: Self)
        requires
            0 <= level <= MAX_LEVEL,
            is_roll(skill_roll as int),
        ensures
            r@ == generated_contact(level as int, skill_roll as int, name@),
            r.name == name,
            r.hp.wf(),
            r.skills.hacking + r.skills.firewall == BASE_SKILL_POINTS * level,
            r.hp.upper_limit == 25 + 5 * level,
    {
        let total: i64 = (BASE_SKILL_POINTS as i64) * (level as i64);
        let weight: i64 = ROLL_SCALE + 2 * skill_roll;
        assert(0 <= total * weight <= 2_147_483_640 * 3_000_000) by (nonlinear_arith)
            requires
                0 <= total <= 2_147_483_640,
                0 <= weight <= 3_000_000,
        ;
        let hacking: i64 = (total * weight + 2 * ROLL_SCALE) / (4 * ROLL_SCALE);
        assert(0 <= hacking <= total) by (nonlinear_arith)
            requires
                hacking == (total * weight + 2 * ROLL_SCALE) / (4 * ROLL_SCALE),
                0 <= total,
                ROLL_SCALE <= weight < 3 * ROLL_SCALE,
                ROLL_SCALE == 1_000_000,
        ;
        let health: i32 = 25 + level * 5;
        Contact {
            name,
            hp: CappedValue::new_health(health),
            skills: Skills { hacking: hacking as i32, firewall: (total - hacking) as i32 },
            disposition: Disposition::Hostile,
        }
    }

    /// A new hostile contact of the given level: its skill points, ten per
    /// level, are split at random between hacking (between a quarter and
    /// three quarters of them) and firewall (the rest); its health is
    /// `25 + 5 * level`; its name is one of the hostile names.
    pub fn new_from_level(level: i32) -> (r: Self)
        requires
            0 <= level <= MAX_LEVEL,
        ensures
            exists|skill_roll: int|
                is_roll(skill_roll) && r@ == generated_contact(level as int, skill_roll, r.name@),
            hostile_names().contains(r.name@),
            r.hp.wf(),
            r.skills.hacking + r.skills.firewall == BASE_SKILL_POINTS * level,
            r.hp.upper_limit == 25 + 5 * level,
    {
        let skill_roll = roll();
        let name = random_hostile_name();
        Contact::from_roll(level, skill_roll, name)
    }

    /// A copy of the contact.
    pub fn duplicate(&self) -> (r: Self)
        ensures
            r == *self,
    {
        Contact {
            name: self.name.clone(),
            hp: self.hp,
            skills: self.skills,
            disposition: self.disposition,
        }
    }
}

impl Default for Contact {
    /// A hostile contact with thirty health, four points in each skill and
    /// one of the hostile names.
    fn default() -> (r: Self)
        ensures
            hostile_names().contains(r.name@),
            r.hp == (CappedValue { value: 30, upper_limit: 30, value_type: CappedValueType::Health }),
            r.skills == (Skills { hacking: 4, firewall: 4 }),
            r.disposition == Disposition::Hostile,
    {
        Contact {
            name: random_hostile_name(),
            hp: CappedValue::new_health(30),
            skills: Skills { hacking: 4, firewall: 4 },
            disposition: Disposition::Hostile,
        }
    }
}

} // verus!
