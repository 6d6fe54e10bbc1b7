//! The player: statistics, skills, resources, currency, upgrades, flags,
//! buffs and quests.

use crate::buffs::{BuffContainer, BuffType};
use crate::pieces::{CappedValue, CappedValueType, Networks, Skills, BASE_SKILL_POINTS};
use crate::quests::{default_quests, Quest, QuestID, QuestReward};
use crate::utils::pick;
use vstd::prelude::*;
use vstd::string::*;

verus! {

/// Counters kept for posterity.
#[derive(Clone, Copy, Debug, PartialEq, Eq, Structural)]
pub struct PlayerStats {
    pub kills: u32,
    pub datamine_success: u32,
    pub search_success: u32,
}

impl Default for PlayerStats {
    /// All counters at zero.
    fn default() -> (r: Self)
        ensures
            r == (PlayerStats { kills: 0, datamine_success: 0, search_success: 0 }),
    {
        PlayerStats { kills: 0, datamine_success: 0, search_success: 0 }
    }
}

/// One unit of intel, in the thousandths that intel is counted in.
pub const INTEL_UNIT: i64 = 1000;

/// What the player has gathered on one network.
#[derive(Clone, Copy, Debug, PartialEq, Eq, Structural)]
pub struct NetStats {
    /// Intel on the network, in thousandths of a unit. It may be negative.
    pub total_intel: i64,
}

impl Default for NetStats {
    /// No intel.
    fn default() -> (r: Self)
        ensures
            r == (NetStats { total_intel: 0 }),
    {
        NetStats { total_intel: 0 }
    }
}

/// The statistics of every network.
#[derive(Clone, Copy, Debug, PartialEq, Eq, Structural)]
pub struct NetTable {
    pub internet: NetStats,
    pub siprnet: NetStats,
}

impl NetTable {
    /// The statistics of `net`.
    pub open spec fn spec_get(&self, net: Networks) -> NetStats {
        match net {
            Networks::Internet => self.internet,
            Networks::SIPRnet => self.siprnet,
        }
    }

    /// The table with `delta` thousandths of intel added on `net`.
    pub open spec fn with_intel(&self, net: Networks, delta: int) -> NetTable {
        match net {
            Networks::Internet => NetTable {
                internet: NetStats { total_intel: (self.internet.total_intel + delta) as i64 },
                ..*self
            },
            Networks::SIPRnet => NetTable {
                siprnet: NetStats { total_intel: (self.siprnet.total_intel + delta) as i64 },
                ..*self
            },
        }
    }

    /// The statistics of `net`.
    #[verifier::when_used_as_spec(spec_get)]
    pub fn get(&self, net: Networks) -> (r: NetStats)
        ensures
            r == self.spec_get(net),
    {
        match net {
            Networks::Internet => self.internet,
            Networks::SIPRnet => self.siprnet,
        }
    }

    /// Adds `delta` thousandths of intel (or takes them away, if negative)
    /// on `net`.
    pub fn add_intel(&mut self, net: Networks, delta: i64)
        requires
            i64::MIN <= old(self).spec_get(net).total_intel + delta <= i64::MAX,
        ensures
            *final(self) == old(self).with_intel(net, delta as int),
    {
        match net {
            Networks::Internet => {
                self.internet.total_intel = self.internet.total_intel + delta;
            },
            Networks::SIPRnet => {
                self.siprnet.total_intel = self.siprnet.total_intel + delta;
            },
        }
    }
}

/// The upgrades on sale.
#[derive(Clone, Copy, Debug, PartialEq, Eq, Hash, Structural)]
pub enum PlayerUpgradeType {
    HPMaxUp,
    SecurityUp,
}

impl PlayerUpgradeType {
    /// The upgrade's name on the shelf.
    pub open spec fn label(&self) -> Seq<char> {
        match self {
            PlayerUpgradeType::HPMaxUp => "HP Max +"@,
            PlayerUpgradeType::SecurityUp => "Sec Max +"@,
        }
    }

    /// The upgrade's name on the shelf.
    pub fn name(&self) -> (r: String)
        ensures
            r@ == self.label(),
    {
        match self {
            PlayerUpgradeType::HPMaxUp => "HP Max +".to_owned(),
            PlayerUpgradeType::SecurityUp => "Sec Max +".to_owned(),
        }
    }
}

/// An upgrade, the level the player has of it, and its price list.
#[derive(Clone, Copy, Debug, PartialEq, Eq, Structural)]
pub struct PlayerUpgrade {
    pub upgrade_type: PlayerUpgradeType,
    pub level: u32,
    pub base_cost: u32,
    pub cost_per_level: u32,
    pub available: bool,
}

impl PlayerUpgrade {
    /// The price of the next level: the base cost and, for each level
    /// already bought, the cost per level.
    pub open spec fn spec_cost(&self) -> int {
        self.base_cost + self.level * self.cost_per_level
    }

    /// The price of the next level.
    pub fn cost(&self) -> (r: u32)
        requires
            self.spec_cost() <= u32::MAX,
        ensures
            r == self.spec_cost(),
    {
        assert(self.level * self.cost_per_level <= self.spec_cost()) by (nonlinear_arith)
            requires
                self.spec_cost() == self.base_cost + self.level * self.cost_per_level,
                self.base_cost >= 0,
        ;
        self.base_cost + (self.level * self.cost_per_level)
    }
}

/// Facts about the session that are either so or not.
#[derive(Clone, Copy, Debug, PartialEq, Eq, Structural)]
pub enum PlayerFlag {
    DiscoveredShopBasic,
    EditingTrackedQuests,
    UnlockedNetworkSIPR,
}

/// The names a new player may get.
pub open spec fn default_names() -> Seq<Seq<char>> {
    seq![
        "riftrunner"@,
        "astralByte"@,
        "digital-nomad"@,
        "pulse-echo"@,
        "ShadowSync"@,
        "NovaHaxD"@,
        "CYPHER"@,
        "Aki Zeta-5"@,
        "Prime Function"@,
        "Nexus-11"@,
    ]
}

/// One of the player names, chosen at random.
pub fn random_default_name() -> (r: String)
    ensures
        default_names().contains(r@),
{
    let mut vs: Vec<&str> = Vec::new();
    vs.push("riftrunner");
    vs.push("astralByte");
    vs.push("digital-nomad");
    vs.push("pulse-echo");
    vs.push("ShadowSync");
    vs.push("NovaHaxD");
    vs.push("CYPHER");
    vs.push("Aki Zeta-5");
    vs.push("Prime Function");
    vs.push("Nexus-11");
    let choice = pick(&vs);
    proof {
        let chosen = choice->0;
        let i = choose|i: int| 0 <= i < vs@.len() && vs@[i] == chosen;
        assert(default_names()[i] == chosen@);
    }
    match choice {
        Some(name) => name.to_owned(),
        None => String::new(),
    }
}

/// `i` is the first place in `upgrades` that holds an upgrade of `kind`.
pub open spec fn is_first_upgrade(
    upgrades: Seq<PlayerUpgrade>,
    kind: PlayerUpgradeType,
    i: int,
) -> bool {
    &&& 0 <= i < upgrades.len()
    &&& upgrades[i].upgrade_type == kind
    &&& forall|j: int| 0 <= j < i ==> (#[trigger] upgrades[j]).upgrade_type != kind
}

/// The first place in `upgrades` that holds an upgrade of `kind`, if there
/// is one.
pub open spec fn upgrade_index(upgrades: Seq<PlayerUpgrade>, kind: PlayerUpgradeType) -> Option<
    int,
> {
    if exists|i: int| is_first_upgrade(upgrades, kind, i) {
        Some(choose|i: int| is_first_upgrade(upgrades, kind, i))
    } else {
        None
    }
}

/// `i` is the first place in `quests` that holds the quest `id`.
pub open spec fn is_first_quest(quests: Seq<Quest>, id: QuestID, i: int) -> bool {
    &&& 0 <= i < quests.len()
    &&& quests[i].quest_id == id
    &&& forall|j: int| 0 <= j < i ==> (#[trigger] quests[j]).quest_id != id
}

/// The first place in `quests` that holds the quest `id`, if there is one.
pub open spec fn quest_index(quests: Seq<Quest>, id: QuestID) -> Option<int> {
    if exists|i: int| is_first_quest(quests, id, i) {
        Some(choose|i: int| is_first_quest(quests, id, i))
    } else {
        None
    }
}

/// The first place that holds an upgrade of `kind` is the place found for
/// it.
pub proof fn lemma_upgrade_found(upgrades: Seq<PlayerUpgrade>, kind: PlayerUpgradeType, i: int)
    requires
        is_first_upgrade(upgrades, kind, i),
    ensures
        upgrade_index(upgrades, kind) == Some(i),
{
    let c = choose|c: int| is_first_upgrade(upgrades, kind, c);
    if c < i {
        assert(upgrades[c].upgrade_type != kind);
    }
    if i < c {
        assert(upgrades[i].upgrade_type != kind);
    }
}

/// Where no place holds an upgrade of `kind`, none is found.
pub proof fn lemma_upgrade_missing(upgrades: Seq<PlayerUpgrade>, kind: PlayerUpgradeType)
    requires
        forall|j: int| 0 <= j < upgrades.len() ==> (#[trigger] upgrades[j]).upgrade_type != kind,
    ensures
        upgrade_index(upgrades, kind) is None,
{
    assert forall|c: int| !is_first_upgrade(upgrades, kind, c) by {
        if 0 <= c < upgrades.len() {
            assert(upgrades[c].upgrade_type != kind);
        }
    }
}

/// The first place that holds the quest `id` is the place found for it.
pub proof fn lemma_quest_found(quests: Seq<Quest>, id: QuestID, i: int)
    requires
        is_first_quest(quests, id, i),
    ensures
        quest_index(quests, id) == Some(i),
{
    let c = choose|c: int| is_first_quest(quests, id, c);
    if c < i {
        assert(quests[c].quest_id != id);
    }
    if i < c {
        assert(quests[i].quest_id != id);
    }
}

/// Where no place holds the quest `id`, none is found.
pub proof fn lemma_quest_missing(quests: Seq<Quest>, id: QuestID)
    requires
        forall|j: int| 0 <= j < quests.len() ==> (#[trigger] quests[j]).quest_id != id,
    ensures
        quest_index(quests, id) is None,
{
    assert forall|c: int| !is_first_quest(quests, id, c) by {
        if 0 <= c < quests.len() {
            assert(quests[c].quest_id != id);
        }
    }
}

/// Whether `quest` is shown among the quests: it can be followed (it is
/// visible and unfinished), and the list is being edited or the player
/// follows it.
pub open spec fn quest_shown(quest: Quest, editing: bool) -> bool {
    quest.visible && !quest.spec_is_finished() && (editing || quest.is_tracked)
}

/// The two skills.
#[derive(Clone, Copy, Debug, PartialEq, Eq, Structural)]
pub enum SkillKind {
    Hacking,
    Firewall,
}

/// The player.
pub struct Player {
    pub name: String,
    pub stats: PlayerStats,
    pub net_stats: NetTable,
    pub skills: Skills,
    pub hp: CappedValue,
    pub ram: CappedValue,
    pub credits: i32,
    pub xp: i32,
    pub upgrades: Vec<PlayerUpgrade>,
    pub flags: Vec<PlayerFlag>,
    pub buffs: BuffContainer,
    pub quests: Vec<Quest>,
}

/// What a player is, as plain values: the flags as a set, the buffs as a
/// map from kind to turns left.
pub struct PlayerView {
    pub name: Seq<char>,
    pub stats: PlayerStats,
    pub net_stats: NetTable,
    pub skills: Skills,
    pub hp: CappedValue,
    pub ram: CappedValue,
    pub credits: int,
    pub xp: int,
    pub upgrades: Seq<PlayerUpgrade>,
    pub flags: Set<PlayerFlag>,
    pub buffs: Map<BuffType, u32>,
    pub quests: Seq<Quest>,
}

impl View for Player {
    type V = PlayerView;

    open spec fn view(&self) -> PlayerView {
        PlayerView {
            name: self.name@,
            stats: self.stats,
            net_stats: self.net_stats,
            skills: self.skills,
            hp: self.hp,
            ram: self.ram,
            credits: self.credits as int,
            xp: self.xp as int,
            upgrades: self.upgrades@,
            flags: self.flags@.to_set(),
            buffs: self.buffs@,
            quests: self.quests@,
        }
    }
}

/// The upgrades a new player finds on sale.
pub open spec fn default_upgrades() -> Seq<PlayerUpgrade> {
    seq![
        PlayerUpgrade {
            upgrade_type: PlayerUpgradeType::HPMaxUp,
            level: 0,
            cost_per_level: 50,
            base_cost: 100,
            available: true,
        },
        PlayerUpgrade {
            upgrade_type: PlayerUpgradeType::SecurityUp,
            level: 0,
            cost_per_level: 300,
            base_cost: 150,
            available: false,
        },
    ]
}

/// A new player of the given name.
pub open spec fn new_player(name: Seq<char>) -> PlayerView {
    PlayerView {
        name,
        stats: PlayerStats { kills: 0, datamine_success: 0, search_success: 0 },
        net_stats: NetTable {
            internet: NetStats { total_intel: 0 },
            siprnet: NetStats { total_intel: 0 },
        },
        skills: Skills { hacking: 4, firewall: 4 },
        hp: CappedValue { value: 100, upper_limit: 100, value_type: CappedValueType::Health },
        ram: CappedValue { value: 50, upper_limit: 100, value_type: CappedValueType::Ram },
        credits: 0,
        xp: 0,
        upgrades: default_upgrades(),
        flags: Set::empty(),
        buffs: Map::empty(),
        quests: seq![
            Quest::fresh(QuestID::CombatVictory, 4, QuestReward::XP(80)),
            Quest::fresh(QuestID::DatamineSuccess, 10, QuestReward::XP(100)),
        ],
    }
}

impl Player {
    /// The skill points not yet spent.
    pub fn available_skill_points(&self) -> (r: i32)
        requires
            i32::MIN <= BASE_SKILL_POINTS - (self.skills.hacking + self.skills.firewall)
                <= i32::MAX,
            i32::MIN <= self.skills.hacking + self.skills.firewall <= i32::MAX,
        ensures
            r == BASE_SKILL_POINTS - (self.skills.hacking + self.skills.firewall),
    {
        BASE_SKILL_POINTS - self.skills.total_points()
    }

    /// Whether `flag` is set.
    pub fn has_flag(&self, flag: &PlayerFlag) -> (r: bool)
        ensures
            r == self@.flags.contains(*flag),
    {
        let mut i: usize = 0;
        while i < self.flags.len()
            invariant
                i <= self.flags@.len(),
                forall|j: int| 0 <= j < i ==> self.flags@[j] != *flag,
            decreases self.flags@.len() - i,
        {
            if self.flags[i] == *flag {
                proof {
                    assert(self.flags@.contains(self.flags@[i as int]));
                }
                return true;
            }
            i = i + 1;
        }
        proof {
            assert(!self.flags@.contains(*flag));
        }
        false
    }

    /// Sets `flag`.
    pub fn enable_flag(&mut self, flag: PlayerFlag)
        ensures
            final(self)@ == (PlayerView { flags: old(self)@.flags.insert(flag), ..old(self)@ }),
    {
        if !self.has_flag(&flag) {
            self.flags.push(flag);
            proof {
                let before = old(self).flags@;
                assert(self.flags@ == before.push(flag));
                assert forall|f: PlayerFlag| #[trigger]
                    before.push(flag).contains(f) <==> before.contains(f) || f == flag by {
                    vstd::seq_lib::lemma_seq_contains_after_push(before, flag, f);
                }
                assert(self.flags@.to_set() =~= before.to_set().insert(flag));
            }
        } else {
            proof {
                assert(self.flags@.to_set() =~= old(self).flags@.to_set().insert(flag));
            }
        }
    }

    /// Clears `flag`.
    pub fn disable_flag(&mut self, flag: &PlayerFlag)
        ensures
            final(self)@ == (PlayerView { flags: old(self)@.flags.remove(*flag), ..old(self)@ }),
    {
        let mut kept: Vec<PlayerFlag> = Vec::new();
        let mut i: usize = 0;
        proof {
            assert(self.flags@.take(0) =~= Seq::<PlayerFlag>::empty());
        }
        while i < self.flags.len()
            invariant
                i <= self.flags@.len(),
                forall|f: PlayerFlag| #[trigger]
                    kept@.contains(f) <==> self.flags@.take(i as int).contains(f) && f != *flag,
            decreases self.flags@.len() - i,
        {
            let ghost before = kept@;
            let ghost seen = self.flags@.take(i as int);
            let current = self.flags[i];
            if current != *flag {
                kept.push(current);
            }
            proof {
                assert(self.flags@.take(i as int + 1) =~= seen.push(current));
                assert forall|f: PlayerFlag| #[trigger]
                    kept@.contains(f) <==> seen.push(current).contains(f) && f != *flag by {
                    vstd::seq_lib::lemma_seq_contains_after_push(seen, current, f);
                    if current != *flag {
                        assert(kept@ == before.push(current));
                        vstd::seq_lib::lemma_seq_contains_after_push(before, current, f);
                    } else {
                        assert(kept@ == before);
                    }
                }
            }
            i = i + 1;
        }
        proof {
            assert(self.flags@.take(i as int) =~= self.flags@);
            assert(kept@.to_set() =~= self.flags@.to_set().remove(*flag));
        }
        self.flags = kept;
    }

    /// Sets `flag` if it is clear, clears it if it is set.
    pub fn toggle_flag(&mut self, flag: PlayerFlag)
        ensures
            final(self)@ == (PlayerView {
                flags: if old(self)@.flags.contains(flag) {
                    old(self)@.flags.remove(flag)
                } else {
                    old(self)@.flags.insert(flag)
                },
                ..old(self)@
            }),
    {
        if self.has_flag(&flag) {
            self.disable_flag(&flag);
        } else {
            self.enable_flag(flag);
        }
    }

    /// Adds experience.
    pub fn add_xp(&mut self, to_add: i32)
        requires
            i32::MIN <= old(self).xp + to_add <= i32::MAX,
        ensures
            final(self)@ == (PlayerView { xp: old(self)@.xp + to_add, ..old(self)@ }),
    {
        self.xp = self.xp + to_add;
    }

    /// The places of the quests to show, in order: while the list is being
    /// edited every quest that can be followed, otherwise those of them
    /// that the player follows.
    pub fn shown_quests(&self, editing: bool) -> (r: Vec<usize>)
        ensures
            forall|k: int|
                0 <= k < r@.len() ==> (#[trigger] r@[k]) < self.quests@.len() && quest_shown(
                    self.quests@[r@[k] as int],
                    editing,
                ),
            forall|k: int, l: int| 0 <= k < l < r@.len() ==> r@[k] < r@[l],
            forall|i: int|
                0 <= i < self.quests@.len() && quest_shown(#[trigger] self.quests@[i], editing)
                    ==> r@.contains(i as usize),
    {
        let mut r: Vec<usize> = Vec::new();
        let mut i: usize = 0;
        while i < self.quests.len()
            invariant
                i <= self.quests@.len(),
                forall|k: int|
                    0 <= k < r@.len() ==> (#[trigger] r@[k]) < i && quest_shown(
                        self.quests@[r@[k] as int],
                        editing,
                    ),
                forall|k: int, l: int| 0 <= k < l < r@.len() ==> r@[k] < r@[l],
                forall|j: int|
                    0 <= j < i && quest_shown(#[trigger] self.quests@[j], editing) ==> r@.contains(
                        j as usize,
                    ),
            decreases self.quests@.len() - i,
        {
            let ghost before = r@;
            let quest = self.quests[i];
            if quest.trackable() && (editing || quest.is_tracked) {
                r.push(i);
                proof {
                    assert forall|j: int|
                        0 <= j < i + 1 && quest_shown(
                            #[trigger] self.quests@[j],
                            editing,
                        ) implies r@.contains(j as usize) by {
                        vstd::seq_lib::lemma_seq_contains_after_push(before, i, j as usize);
                    }
                }
            }
            i = i + 1;
        }
        r
    }

    /// Whether any quest can be followed. When none can, there is nothing
    /// to show of the quests.
    pub fn any_trackable(&self) -> (r: bool)
        ensures
            r == exists|i: int|
                0 <= i < self.quests@.len() && quest_shown(#[trigger] self.quests@[i], true),
    {
        let mut i: usize = 0;
        while i < self.quests.len()
            invariant
                i <= self.quests@.len(),
                forall|j: int| 0 <= j < i ==> !quest_shown(#[trigger] self.quests@[j], true),
            decreases self.quests@.len() - i,
        {
            if self.quests[i].trackable() {
                proof {
                    assert(quest_shown(self.quests@[i as int], true));
                }
                return true;
            }
            i = i + 1;
        }
        false
    }

    /// The upgrades on sale, in the order in which the player holds them.
    pub fn upgrades_on_sale(&self) -> (r: Vec<PlayerUpgrade>)
        ensures
            r@ == self.upgrades@.filter(|u: PlayerUpgrade| u.available),
    {
        let ghost on_sale = |u: PlayerUpgrade| u.available;
        let mut r: Vec<PlayerUpgrade> = Vec::new();
        let mut i: usize = 0;
        proof {
            reveal(Seq::filter);
            assert(self.upgrades@.take(0) =~= Seq::<PlayerUpgrade>::empty());
        }
        while i < self.upgrades.len()
            invariant
                i <= self.upgrades@.len(),
                on_sale == |u: PlayerUpgrade| u.available,
                r@ == self.upgrades@.take(i as int).filter(on_sale),
            decreases self.upgrades@.len() - i,
        {
            proof {
                reveal(Seq::filter);
                assert(self.upgrades@.take(i as int + 1).drop_last() =~= self.upgrades@.take(
                    i as int,
                ));
                assert(self.upgrades@.take(i as int + 1).last() == self.upgrades@[i as int]);
            }
            if self.upgrades[i].available {
                r.push(self.upgrades[i]);
            }
            i = i + 1;
        }
        proof {
            assert(self.upgrades@.take(i as int) =~= self.upgrades@);
        }
        r
    }

    /// The place of the quest `id` among the player's quests.
    pub fn find_quest(&self, id: QuestID) -> (r: Option<usize>)
        ensures
            match r {
                Some(i) => quest_index(self.quests@, id) == Some(i as int) && i
                    < self.quests@.len() && self.quests@[i as int].quest_id == id,
                None => quest_index(self.quests@, id) is None,
            },
    {
        let mut i: usize = 0;
        while i < self.quests.len()
            invariant
                i <= self.quests@.len(),
                forall|j: int| 0 <= j < i ==> (#[trigger] self.quests@[j]).quest_id != id,
            decreases self.quests@.len() - i,
        {
            if self.quests[i].quest_id == id {
                proof {
                    lemma_quest_found(self.quests@, id, i as int);
                }
                return Some(i);
            }
            i = i + 1;
        }
        proof {
            lemma_quest_missing(self.quests@, id);
        }
        None
    }

    /// The place of the upgrade `kind` among the player's upgrades.
    pub fn find_upgrade(&self, kind: PlayerUpgradeType) -> (r: Option<usize>)
        ensures
            match r {
                Some(i) => upgrade_index(self.upgrades@, kind) == Some(i as int) && i
                    < self.upgrades@.len() && self.upgrades@[i as int].upgrade_type == kind,
                None => upgrade_index(self.upgrades@, kind) is None,
            },
    {
        let mut i: usize = 0;
        while i < self.upgrades.len()
            invariant
                i <= self.upgrades@.len(),
                forall|j: int| 0 <= j < i ==> (#[trigger] self.upgrades@[j]).upgrade_type != kind,
            decreases self.upgrades@.len() - i,
        {
            if self.upgrades[i].upgrade_type == kind {
                proof {
                    lemma_upgrade_found(self.upgrades@, kind, i as int);
                }
                return Some(i);
            }
            i = i + 1;
        }
        proof {
            lemma_upgrade_missing(self.upgrades@, kind);
        }
        None
    }
}

impl Default for Player {
    /// A new player: one of the player names, full health of 100, 50 of
    /// 100 RAM, four points in each skill, no credits, no experience, no
    /// flags, no buffs, the two upgrades at level zero and the two
    /// starting quests.
    fn default() -> (r: Self)
        ensures
            default_names().contains(r.name@),
            r@ == new_player(r.name@),
    {
        let mut upgrades: Vec<PlayerUpgrade> = Vec::new();
        upgrades.push(
            PlayerUpgrade {
                upgrade_type: PlayerUpgradeType::HPMaxUp,
                level: 0,
                cost_per_level: 50,
                base_cost: 100,
                available: true,
            },
        );
        upgrades.push(
            PlayerUpgrade {
                upgrade_type: PlayerUpgradeType::SecurityUp,
                level: 0,
                cost_per_level: 300,
                base_cost: 150,
                available: false,
            },
        );
        let r = Player {
            name: random_default_name(),
            stats: PlayerStats { kills: 0, datamine_success: 0, search_success: 0 },
            net_stats: NetTable {
                internet: NetStats { total_intel: 0 },
                siprnet: NetStats { total_intel: 0 },
            },
            skills: Skills { hacking: 4, firewall: 4 },
            hp: CappedValue::new_health(100),
            ram: CappedValue::new_ram(50, 100),
            credits: 0,
            xp: 0,
            upgrades,
            flags: Vec::new(),
            buffs: BuffContainer::new(),
            quests: default_quests(),
        };
        proof {
            assert(r.upgrades@ =~= default_upgrades());
            assert(r.flags@.to_set() =~= Set::<PlayerFlag>::empty());
            assert(r@ =~= new_player(r.name@));
        }
        r
    }
}

} // verus!
